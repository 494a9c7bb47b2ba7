//! Playing a timeline: what the world looks like at a time.

use vstd::prelude::*;
use vstd::pervasive::unreached;
use std::collections::HashMap;
use crate::alpha::{Alpha, Scalar, Time};
use crate::fault::Fault;
use crate::geometry::{fixed_div, spec_fixed_div};
use crate::motion::{Effect, EmbededScene, Motion, Scene};
use crate::object::{KindView, Object, ObjectKind, ObjectView};
use crate::object_tree::{ObjectTree, TreeView};
use crate::timing::{
    MotionId,
    Timed,
    concurrent_alpha,
    fires,
    lemma_total_bound,
    longest_of,
    max_duration,
    remap,
    sequence_alpha,
    spec_concurrent_alpha,
    spec_fires,
    spec_remap,
    spec_sequence_alpha,
    start_of,
    total_duration,
    total_of,
};
use crate::trig::UNIT;
use crate::world::{Variable, World, WorldView, spec_update_all};

verus! {

/// The world that every pass starts from: a tree with an empty root, and
/// the given variables.
pub open spec fn spec_fresh_world(
    render_size: (Scalar, Scalar),
    variables: Map<Variable, Scalar>,
) -> WorldView {
    WorldView { objects: TreeView::spec_new(), render_size, variables }
}

/// The time inside a scene of `length` ticks that is played at `speed`,
/// when the motion that plays it has progressed to `alpha`: `length` times
/// `alpha` times `speed`, rounded down, and at most `length`.
pub open spec fn spec_inner_time(length: Time, alpha: Alpha, speed: Scalar) -> Time {
    if speed <= 0 {
        0
    } else {
        let t = (length * alpha.num * speed) / (alpha.den * UNIT);
        if t >= length {
            length
        } else {
            t as u32
        }
    }
}

/// The time that a scene of `length` ticks takes at `speed`: `length`
/// divided by `speed`, rounded down. A scene that stands still, runs
/// backwards or takes longer than time can count takes the longest time
/// there is.
pub open spec fn spec_embedded_duration(length: Time, speed: Scalar) -> Time {
    if speed <= 0 {
        0xffff_ffff
    } else {
        let d = (length * UNIT) / (speed as int);
        if d >= 0xffff_ffff {
            0xffff_ffff
        } else {
            d as u32
        }
    }
}

/// The world after motion `id` of `scene` has run at progress `alpha`.
/// Motions may hand on to other motions `depth` deep.
pub open spec fn spec_play(
    scene: Scene,
    id: MotionId,
    w: WorldView,
    alpha: Alpha,
    depth: nat,
) -> Result<WorldView, Fault>
    decreases scene, depth, 1nat, 0nat,
{
    if id >= scene.motions@.len() {
        Err(Fault::MissingMotion(id))
    } else {
        match scene.motions@[id as int] {
            Motion::Sequence(items) => spec_sequence(
                scene,
                items@,
                items@.len(),
                w,
                alpha,
                depth,
            ),
            Motion::Concurrently(items) => spec_concurrently(
                scene,
                items@,
                items@.len(),
                w,
                alpha,
                depth,
            ),
            Motion::Keyframe(k) => match spec_remap(k.from, k.to, alpha) {
                None => Ok(w),
                Some(a) => if depth == 0 {
                    Err(Fault::TooDeep)
                } else {
                    spec_play(scene, k.motion, w, a, (depth - 1) as nat)
                },
            },
            Motion::Trigger(t) => if !spec_fires(t.time, alpha) {
                Ok(w)
            } else if depth == 0 {
                Err(Fault::TooDeep)
            } else {
                spec_play(scene, t.motion, w, Alpha::spec_full(), (depth - 1) as nat)
            },
            Motion::Eased(easing, m) => if depth == 0 {
                Err(Fault::TooDeep)
            } else {
                spec_play(scene, m, w, easing.spec_apply(alpha), (depth - 1) as nat)
            },
            Motion::EmbeddedScene(e) => spec_embedded(e, w, alpha),
            Motion::AddObject(m) => m.spec_trigger(w),
            Motion::Move(m) => m.spec_motion().spec_animate(w, alpha),
            Motion::MoveTo(m) => m.spec_motion().spec_animate(w, alpha),
            Motion::AnimateTransform(m) => m.spec_motion().spec_animate(w, alpha),
            Motion::SetTransform(m) => m.spec_motion().spec_animate(w, Alpha::spec_full()),
            Motion::SetVariable(m) => m.spec_trigger(w),
            Motion::FadeIn(m) => m.spec_animate(w, alpha),
            Motion::Property(m) => m.spec_animate(w, alpha),
            Motion::Effect(m) => m.spec_apply(w, alpha),
            Motion::Wait => Ok(w),
        }
    }
}

/// The world after the scene of `e` has been played into it: the scene
/// is rendered on its own, at the time that its speed makes of `alpha` and
/// for a surface that is as much larger as the scene is drawn smaller; what
/// it shows is merged into the world, and a group that holds what stood
/// under its root is added under the name and at the placement that `e`
/// gives.
pub open spec fn spec_embedded(e: EmbededScene, w: WorldView, alpha: Alpha) -> Result<
    WorldView,
    Fault,
>
    decreases e, 0nat, 0nat, 0nat,
{
    match e.transform.spec_get(w) {
        Err(err) => Err(err),
        Ok(t) => match spec_render_with(
            e.scene,
            spec_inner_time(e.scene.length, alpha, e.speed),
            (
                spec_fixed_div(w.render_size.0 as int, t.scale as int),
                spec_fixed_div(w.render_size.1 as int, t.scale as int),
            ),
            Map::empty(),
        ) {
            Err(err) => Err(err),
            Ok(tree) => match w.objects.spec_merge(tree, e.object_id).spec_add(
                e.object_id,
                ObjectView { kind: KindView::Group(tree.spec_rooted()), transform: t },
                e.rooted,
            ) {
                Err(err) => Err(err),
                Ok(merged) => Ok(w.with_objects(merged)),
            },
        },
    }
}

/// The world after the first `n` children of a sequence have had their
/// turn. A child whose time has not come is passed over, and so are all
/// after it.
pub open spec fn spec_sequence(
    scene: Scene,
    items: Seq<Timed>,
    n: nat,
    w: WorldView,
    alpha: Alpha,
    depth: nat,
) -> Result<WorldView, Fault>
    decreases scene, depth, 0nat, n,
{
    if n == 0 {
        Ok(w)
    } else {
        match spec_sequence(scene, items, (n - 1) as nat, w, alpha, depth) {
            Err(e) => Err(e),
            Ok(w1) => match spec_sequence_alpha(
                alpha,
                total_duration(items),
                start_of(items, n - 1),
                items[n - 1].1,
            ) {
                None => Ok(w1),
                Some(a) => if depth == 0 {
                    Err(Fault::TooDeep)
                } else {
                    spec_play(scene, items[n - 1].0, w1, a, (depth - 1) as nat)
                },
            },
        }
    }
}

/// The world after the first `n` of several concurrent children have
/// run, one after the other, in their order.
pub open spec fn spec_concurrently(
    scene: Scene,
    items: Seq<Timed>,
    n: nat,
    w: WorldView,
    alpha: Alpha,
    depth: nat,
) -> Result<WorldView, Fault>
    decreases scene, depth, 0nat, n,
{
    if n == 0 {
        Ok(w)
    } else {
        match spec_concurrently(scene, items, (n - 1) as nat, w, alpha, depth) {
            Err(e) => Err(e),
            Ok(w1) => if depth == 0 {
                Err(Fault::TooDeep)
            } else {
                spec_play(
                    scene,
                    items[n - 1].0,
                    w1,
                    spec_concurrent_alpha(alpha, max_duration(items), items[n - 1].1),
                    (depth - 1) as nat,
                )
            },
        }
    }
}

/// The tree that `scene` builds up to `time`, starting from an empty world
/// that holds `variables`.
pub open spec fn spec_render_with(
    scene: Scene,
    time: Time,
    render_size: (Scalar, Scalar),
    variables: Map<Variable, Scalar>,
) -> Result<TreeView, Fault>
    decreases scene, scene.motions@.len() + 1, 0nat, 0nat,
{
    match spec_play(
        scene,
        scene.root,
        spec_fresh_world(render_size, variables),
        Alpha::spec_ratio(time, scene.length),
        scene.motions@.len(),
    ) {
        Err(e) => Err(e),
        Ok(w) => Ok(w.objects),
    }
}

/// Playing a sequence is giving its children their turns.
pub proof fn law_play_sequence(scene: Scene, id: MotionId, w: WorldView, alpha: Alpha, depth: nat)
    requires
        id < scene.motions@.len(),
        scene.motions@[id as int] is Sequence,
    ensures
        spec_play(scene, id, w, alpha, depth) == spec_sequence(
            scene,
            scene.motions@[id as int]->Sequence_0@,
            scene.motions@[id as int]->Sequence_0@.len(),
            w,
            alpha,
            depth,
        ),
{
}

/// Playing concurrent motions is running them one after the other.
pub proof fn law_play_concurrently(scene: Scene, id: MotionId, w: WorldView, alpha: Alpha, depth: nat)
    requires
        id < scene.motions@.len(),
        scene.motions@[id as int] is Concurrently,
    ensures
        spec_play(scene, id, w, alpha, depth) == spec_concurrently(
            scene,
            scene.motions@[id as int]->Concurrently_0@,
            scene.motions@[id as int]->Concurrently_0@.len(),
            w,
            alpha,
            depth,
        ),
{
}

/// Playing a wait changes nothing.
pub proof fn law_play_wait(scene: Scene, id: MotionId, w: WorldView, alpha: Alpha, depth: nat)
    requires
        id < scene.motions@.len(),
        scene.motions@[id as int] is Wait,
    ensures
        spec_play(scene, id, w, alpha, depth) == Ok::<WorldView, Fault>(w),
{
}

/// Playing a motion that adds an object is adding the object.
pub proof fn lemma_play_add_object(scene: Scene, id: MotionId, w: WorldView, alpha: Alpha, depth: nat)
    requires
        id < scene.motions@.len(),
        scene.motions@[id as int] is AddObject,
    ensures
        spec_play(scene, id, w, alpha, depth) == scene.motions@[id as int]->AddObject_0.spec_trigger(
            w,
        ),
{
}

/// Once a child of a sequence has failed, the sequence fails in the same
/// way.
pub proof fn lemma_sequence_err(
    scene: Scene,
    items: Seq<Timed>,
    i: nat,
    n: nat,
    w: WorldView,
    alpha: Alpha,
    depth: nat,
)
    requires
        i <= n,
    ensures
        spec_sequence(scene, items, i, w, alpha, depth) is Err ==> spec_sequence(
            scene,
            items,
            n,
            w,
            alpha,
            depth,
        ) == spec_sequence(scene, items, i, w, alpha, depth),
    decreases n,
{
    if i < n {
        lemma_sequence_err(scene, items, i, (n - 1) as nat, w, alpha, depth);
    }
}

/// Once the time of a child of a sequence has not come, neither has the
/// time of any child after it: the sequence is done for this pass.
pub proof fn lemma_sequence_stops(
    scene: Scene,
    items: Seq<Timed>,
    i: nat,
    n: nat,
    w: WorldView,
    alpha: Alpha,
    depth: nat,
)
    requires
        i < n <= items.len(),
        spec_sequence_alpha(alpha, total_duration(items), start_of(items, i as int), items[i as int].1)
            is None,
    ensures
        spec_sequence(scene, items, n, w, alpha, depth) == spec_sequence(
            scene,
            items,
            i,
            w,
            alpha,
            depth,
        ),
        spec_sequence_alpha(
            alpha,
            total_duration(items),
            start_of(items, n - 1),
            items[n - 1].1,
        ) is None,
    decreases n,
{
    if i + 1 < n {
        lemma_sequence_stops(scene, items, i, (n - 1) as nat, w, alpha, depth);
        assert(items.subrange(0, n - 1).drop_last() =~= items.subrange(0, n - 2));
    }
}

/// Once one of several concurrent children has failed, the whole fails in
/// the same way.
pub proof fn lemma_concurrently_err(
    scene: Scene,
    items: Seq<Timed>,
    i: nat,
    n: nat,
    w: WorldView,
    alpha: Alpha,
    depth: nat,
)
    requires
        i <= n,
    ensures
        spec_concurrently(scene, items, i, w, alpha, depth) is Err ==> spec_concurrently(
            scene,
            items,
            n,
            w,
            alpha,
            depth,
        ) == spec_concurrently(scene, items, i, w, alpha, depth),
    decreases n,
{
    if i < n {
        lemma_concurrently_err(scene, items, i, (n - 1) as nat, w, alpha, depth);
    }
}

/// The time inside an embedded scene.
pub fn inner_time(length: Time, alpha: Alpha, speed: Scalar) -> (t: Time)
    requires
        alpha.wf(),
    ensures
        t == spec_inner_time(length, alpha, speed),
{
    if speed <= 0 {
        return 0;
    }
    assert((length as int) * (alpha.num as int) <= 0xffff_ffff * 0xffff_ffff) by (nonlinear_arith)
        requires
            0 <= length as int <= 0xffff_ffff,
            0 <= alpha.num as int <= 0xffff_ffff,
    ;
    let base: u128 = (length as u128) * (alpha.num as u128);
    assert((base as int) * (speed as int) <= 0xffff_ffff * 0xffff_ffff * 0x7fff_ffff_ffff_ffff)
        by (nonlinear_arith)
        requires
            0 <= base as int <= 0xffff_ffff * 0xffff_ffff,
            0 <= speed as int <= 0x7fff_ffff_ffff_ffff,
    ;
    let wide: u128 = base * (speed as u128);
    let den: u128 = (alpha.den as u128) * 1_000_000;
    assert((length * alpha.num * speed) == (base as int) * (speed as int)) by (nonlinear_arith)
        requires
            base as int == (length as int) * (alpha.num as int),
    ;
    let t: u128 = wide / den;
    if t >= length as u128 {
        length
    } else {
        t as u32
    }
}

/// The time that a scene of `length` ticks takes at `speed`.
pub fn embedded_duration(length: Time, speed: Scalar) -> (d: Time)
    ensures
        d == spec_embedded_duration(length, speed),
{
    if speed <= 0 {
        return 0xffff_ffff;
    }
    let wide: u128 = (length as u128) * 1_000_000;
    let d: u128 = wide / (speed as u128);
    if d >= 0xffff_ffff {
        0xffff_ffff
    } else {
        d as u32
    }
}

impl EmbededScene {
    /// Plays the scene into `world`: renders it on its own, merges what it
    /// shows into the world, and adds a group that holds what stood under
    /// its root.
    pub fn try_animate(&self, world: &mut World, alpha: Alpha) -> (r: Result<(), Fault>)
        requires
            old(world).wf(),
            alpha.wf(),
        ensures
            final(world).wf(),
            match spec_embedded(*self, old(world)@, alpha) {
                Ok(w) => r is Ok && final(world)@ == w,
                Err(e) => r == Err::<(), Fault>(e),
            },
        decreases *self,
    {
        match self.transform.try_get(world) {
            Err(err) => Err(err),
            Ok(t) => {
                let size: (Scalar, Scalar) = (
                    fixed_div(world.render_size.0, t.scale),
                    fixed_div(world.render_size.1, t.scale),
                );
                let time: Time = inner_time(self.scene.length, alpha, self.speed);
                match self.scene.try_render_with(time, size, HashMap::new()) {
                    Err(err) => Err(err),
                    Ok(tree) => {
                        let children = world.objects.merge(tree, self.object_id);
                        world.objects.try_add(
                            self.object_id,
                            Object { object_kind: ObjectKind::Group(children), transform: t },
                            self.rooted,
                        )
                    },
                }
            },
        }
    }

    /// Plays the scene into a world that it fits: renders it on its own,
    /// merges what it shows into the world, and adds a group that holds
    /// what stood under its root.
    pub fn animate(&self, world: &mut World, alpha: Alpha)
        requires
            old(world).wf(),
            alpha.wf(),
            spec_embedded(*self, old(world)@, alpha) is Ok,
        ensures
            final(world).wf(),
            spec_embedded(*self, old(world)@, alpha) == Ok::<WorldView, Fault>(final(world)@),
    {
        match self.try_animate(world, alpha) {
            Ok(()) => {},
            Err(_) => unreached(),
        }
    }

    /// The time that the embedded scene takes at its speed.
    pub fn duration(&self) -> (d: Time)
        ensures
            d == spec_embedded_duration(self.scene.length, self.speed),
    {
        embedded_duration(self.scene.length, self.speed)
    }
}

impl Effect for EmbededScene {
    open spec fn spec_apply(&self, w: WorldView, alpha: Alpha) -> Result<WorldView, Fault> {
        spec_embedded(*self, w, alpha)
    }

    fn try_animate(&self, world: &mut World, alpha: Alpha) -> (r: Result<(), Fault>) {
        EmbededScene::try_animate(self, world, alpha)
    }
}

impl Scene {
    /// A scene in which nothing happens and which takes no time.
    pub fn null() -> (s: Scene)
        ensures
            s.motions@.len() == 1,
            s.motions@[0] matches Motion::Sequence(items) && items@.len() == 0,
            s.root == 0,
            s.length == 0,
    {
        let mut motions: Vec<Motion> = Vec::new();
        motions.push(Motion::Sequence(Vec::new()));
        Scene { motions, root: 0, length: 0 }
    }

    /// The time that the scene takes.
    pub fn length(&self) -> (l: Time)
        ensures
            l == self.length,
    {
        self.length
    }

    /// The progress of the scene at `time`. Time past the end counts as the
    /// end.
    pub fn time_to_alpha(&self, time: Time) -> (a: Alpha)
        ensures
            a == Alpha::spec_ratio(time, self.length),
            a.wf(),
    {
        Alpha::ratio(time, self.length)
    }

    /// Runs motion `id` of the registry on `world`, at progress `alpha`.
    /// Motions may hand on to other motions `depth` deep.
    #[verifier::loop_isolation(false)]
    pub fn try_play_at(&self, id: MotionId, world: &mut World, alpha: Alpha, depth: usize) -> (r:
        Result<(), Fault>)
        requires
            old(world).wf(),
            alpha.wf(),
        ensures
            final(world).wf(),
            match spec_play(*self, id, old(world)@, alpha, depth as nat) {
                Ok(w) => r is Ok && final(world)@ == w,
                Err(e) => r == Err::<(), Fault>(e),
            },
        decreases *self, depth,
    {
        let ghost start = world@;
        if id >= self.motions.len() {
            return Err(Fault::MissingMotion(id));
        }
        match &self.motions[id] {
            Motion::Sequence(items) => {
                let total: u128 = total_of(items);
                let mut consumed: u128 = 0;
                let mut i: usize = 0;
                assert(items@.subrange(0, 0) =~= Seq::empty());
                while i < items.len()
                    invariant
                        i <= items.len(),
                        world.wf(),
                        consumed == start_of(items@, i as int),
                        spec_sequence(*self, items@, i as nat, start, alpha, depth as nat) == Ok::<
                            WorldView,
                            Fault,
                        >(world@),
                    decreases items.len() - i,
                {
                    proof {
                        lemma_sequence_err(
                            *self,
                            items@,
                            (i + 1) as nat,
                            items@.len(),
                            start,
                            alpha,
                            depth as nat,
                        );
                        lemma_total_bound(items@.subrange(0, i as int));
                        assert(i * 0xffff_ffff <= 0xffff_ffff_ffff_ffff * 0xffff_ffff)
                            by (nonlinear_arith)
                            requires
                                0 <= i <= 0xffff_ffff_ffff_ffff,
                        ;
                        assert(items@.subrange(0, i + 1).drop_last() =~= items@.subrange(
                            0,
                            i as int,
                        ));
                    }
                    let child: MotionId = items[i].0;
                    let d: Time = items[i].1;
                    match sequence_alpha(alpha, total, consumed, d) {
                        None => {
                            proof {
                                lemma_sequence_stops(
                                    *self,
                                    items@,
                                    i as nat,
                                    items@.len(),
                                    start,
                                    alpha,
                                    depth as nat,
                                );
                            }
                            return Ok(());
                        },
                        Some(a) => {
                            if depth == 0 {
                                return Err(Fault::TooDeep);
                            }
                            match self.try_play_at(child, world, a, depth - 1) {
                                Err(e) => {
                                    return Err(e);
                                },
                                Ok(()) => {},
                            }
                        },
                    }
                    consumed = consumed + (d as u128);
                    i = i + 1;
                }
                Ok(())
            },
            Motion::Concurrently(items) => {
                let longest: Time = longest_of(items);
                let mut i: usize = 0;
                while i < items.len()
                    invariant
                        i <= items.len(),
                        world.wf(),
                        spec_concurrently(*self, items@, i as nat, start, alpha, depth as nat)
                            == Ok::<WorldView, Fault>(world@),
                    decreases items.len() - i,
                {
                    proof {
                        lemma_concurrently_err(
                            *self,
                            items@,
                            (i + 1) as nat,
                            items@.len(),
                            start,
                            alpha,
                            depth as nat,
                        );
                    }
                    let child: MotionId = items[i].0;
                    let d: Time = items[i].1;
                    if depth == 0 {
                        return Err(Fault::TooDeep);
                    }
                    match self.try_play_at(child, world, concurrent_alpha(alpha, longest, d), depth - 1) {
                        Err(e) => {
                            return Err(e);
                        },
                        Ok(()) => {},
                    }
                    i = i + 1;
                }
                Ok(())
            },
            Motion::Keyframe(k) => match remap(k.from, k.to, alpha) {
                None => Ok(()),
                Some(a) => {
                    if depth == 0 {
                        return Err(Fault::TooDeep);
                    }
                    self.try_play_at(k.motion, world, a, depth - 1)
                },
            },
            Motion::Trigger(t) => {
                if !fires(t.time, alpha) {
                    return Ok(());
                }
                if depth == 0 {
                    return Err(Fault::TooDeep);
                }
                self.try_play_at(t.motion, world, Alpha::full(), depth - 1)
            },
            Motion::Eased(easing, m) => {
                if depth == 0 {
                    return Err(Fault::TooDeep);
                }
                self.try_play_at(*m, world, easing.apply(alpha), depth - 1)
            },
            Motion::EmbeddedScene(e) => e.try_animate(world, alpha),
            Motion::AddObject(m) => m.try_trigger(world),
            Motion::Move(m) => m.try_animate(world, alpha),
            Motion::MoveTo(m) => m.try_animate(world, alpha),
            Motion::AnimateTransform(m) => m.try_animate(world, alpha),
            Motion::SetTransform(m) => m.try_trigger(world),
            Motion::SetVariable(m) => m.try_trigger(world),
            Motion::FadeIn(m) => m.try_animate(world, alpha),
            Motion::Property(m) => m.try_animate(world, alpha),
            Motion::Effect(m) => m.try_animate(world, alpha),
            Motion::Wait => Ok(()),
        }
    }

    /// Runs motion `id` of the registry on `world`, at progress `alpha`.
    /// A motion or an object that is named and is not there is a fault of
    /// the scene.
    pub fn play_at(&self, id: MotionId, world: &mut World, alpha: Alpha)
        requires
            old(world).wf(),
            alpha.wf(),
            spec_play(*self, id, old(world)@, alpha, self.motions@.len()) is Ok,
        ensures
            final(world).wf(),
            spec_play(*self, id, old(world)@, alpha, self.motions@.len()) == Ok::<WorldView, Fault>(
                final(world)@,
            ),
    {
        let depth: usize = self.motions.len();
        match self.try_play_at(id, world, alpha, depth) {
            Ok(()) => {},
            Err(_) => unreached(),
        }
    }

    /// Runs motion `id` of the registry on `world` to its end.
    pub fn try_play(&self, id: MotionId, world: &mut World, depth: usize) -> (r: Result<(), Fault>)
        requires
            old(world).wf(),
        ensures
            final(world).wf(),
            match spec_play(*self, id, old(world)@, Alpha::spec_full(), depth as nat) {
                Ok(w) => r is Ok && final(world)@ == w,
                Err(e) => r == Err::<(), Fault>(e),
            },
    {
        self.try_play_at(id, world, Alpha::full(), depth)
    }

    /// Runs motion `id` of the registry on `world` to its end.
    pub fn play(&self, id: MotionId, world: &mut World)
        requires
            old(world).wf(),
            spec_play(*self, id, old(world)@, Alpha::spec_full(), self.motions@.len()) is Ok,
        ensures
            final(world).wf(),
            spec_play(*self, id, old(world)@, Alpha::spec_full(), self.motions@.len()) == Ok::<
                WorldView,
                Fault,
            >(final(world)@),
    {
        let depth: usize = self.motions.len();
        match self.try_play(id, world, depth) {
            Ok(()) => {},
            Err(_) => unreached(),
        }
    }

    /// The tree that the scene builds up to `time`, starting from an empty
    /// world that holds `variables`.
    pub fn try_render_with(
        &self,
        time: Time,
        render_size: (Scalar, Scalar),
        variables: HashMap<Variable, Scalar>,
    ) -> (r: Result<ObjectTree, Fault>)
        ensures
            match spec_render_with(*self, time, render_size, variables@) {
                Ok(t) => r is Ok && r->Ok_0@ == t && r->Ok_0.wf(),
                Err(e) => r is Err && r->Err_0 == e,
            },
        decreases *self, self.motions@.len() + 1,
    {
        let mut world = World::new(ObjectTree::new(), render_size, variables);
        let depth: usize = self.motions.len();
        let alpha: Alpha = self.time_to_alpha(time);
        let r = self.try_play_at(self.root, &mut world, alpha, depth);
        match r {
            Err(e) => Err(e),
            Ok(()) => Ok(world.objects),
        }
    }

    /// The tree that the scene builds up to `time`, starting from an empty
    /// world that holds `variables`.
    pub fn render_with(
        &self,
        time: Time,
        render_size: (Scalar, Scalar),
        variables: HashMap<Variable, Scalar>,
    ) -> (tree: ObjectTree)
        requires
            spec_render_with(*self, time, render_size, variables@) is Ok,
        ensures
            tree.wf(),
            spec_render_with(*self, time, render_size, variables@) == Ok::<TreeView, Fault>(tree@),
    {
        match self.try_render_with(time, render_size, variables) {
            Ok(tree) => tree,
            Err(_) => unreached(),
        }
    }

    /// What the world looks like at `time`: the tree that the scene builds
    /// when it is played from an empty world up to that time. Every call
    /// starts afresh, so the answer depends on the time alone, and times may
    /// be asked for in any order.
    pub fn try_render_at(&self, time: Time, render_size: (Scalar, Scalar)) -> (r: Result<
        ObjectTree,
        Fault,
    >)
        ensures
            match spec_render_with(*self, time, render_size, Map::empty()) {
                Ok(t) => r is Ok && r->Ok_0@ == t && r->Ok_0.wf(),
                Err(e) => r is Err && r->Err_0 == e,
            },
    {
        self.try_render_with(time, render_size, HashMap::new())
    }

    /// What the world looks like at `time`: the tree that the scene builds
    /// when it is played from an empty world up to that time. Every call
    /// starts afresh, so the answer depends on the time alone, and times may
    /// be asked for in any order. A scene that names what is not there
    /// cannot be asked.
    pub fn render_at(&self, time: Time, render_size: (Scalar, Scalar)) -> (tree: ObjectTree)
        requires
            spec_render_with(*self, time, render_size, Map::empty()) is Ok,
        ensures
            tree.wf(),
            spec_render_with(*self, time, render_size, Map::empty()) == Ok::<TreeView, Fault>(
                tree@,
            ),
    {
        match self.try_render_at(time, render_size) {
            Ok(tree) => tree,
            Err(_) => unreached(),
        }
    }

    /// As `render_at`, in a world that holds the variables of `input` from
    /// the start; of two values for one variable the later stays.
    pub fn try_render_with_input(
        &self,
        time: Time,
        render_size: (Scalar, Scalar),
        input: &Vec<(Variable, Scalar)>,
    ) -> (r: Result<ObjectTree, Fault>)
        ensures
            match spec_render_with(
                *self,
                time,
                render_size,
                spec_update_all(Map::empty(), input@),
            ) {
                Ok(t) => r is Ok && r->Ok_0@ == t && r->Ok_0.wf(),
                Err(e) => r is Err && r->Err_0 == e,
            },
    {
        let mut world = World::new(ObjectTree::new(), render_size, HashMap::new());
        world.update_variables(input);
        let World { objects, render_size: size, variables } = world;
        self.try_render_with(time, render_size, variables)
    }

    /// As `render_at`, in a world that holds the variables of `input` from
    /// the start; of two values for one variable the later stays.
    pub fn render_with_input(
        &self,
        time: Time,
        render_size: (Scalar, Scalar),
        input: &Vec<(Variable, Scalar)>,
    ) -> (tree: ObjectTree)
        requires
            spec_render_with(*self, time, render_size, spec_update_all(Map::empty(), input@)) is Ok,
        ensures
            tree.wf(),
            spec_render_with(*self, time, render_size, spec_update_all(Map::empty(), input@))
                == Ok::<TreeView, Fault>(tree@),
    {
        match self.try_render_with_input(time, render_size, input) {
            Ok(tree) => tree,
            Err(_) => unreached(),
        }
    }
}

} // verus!
