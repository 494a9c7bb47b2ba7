//! Authoring: registering motions and objects, and finishing a scene.

use vstd::prelude::*;
use vstd::pervasive::unreached;
use std::collections::HashMap;
use crate::alpha::{Alpha, Scalar, Time};
use crate::dynamics::{DynamicObject, DynamicPoint, DynamicTransform};
use crate::fault::Fault;
use crate::geometry::{Point, Transform};
use crate::motion::{
    AddObject,
    AnimateTransform,
    FadeIn,
    Motion,
    MotionAnimation,
    Move,
    MoveTo,
    Scene,
};
use crate::object::{KindView, Object, ObjectId, ObjectView};
use crate::spacing::Alignment;
use crate::object_tree::{ObjectTree, TreeView};
use crate::scene::{lemma_play_add_object, spec_play};
use crate::timing::{MotionId, Timed, total_duration, total_of};
use crate::world::{World, WorldView};

verus! {

/// What an author works on: the registry of the scene so far, and a tree
/// that shows where every object stands once the motions played so far are
/// over. Motions that are built later can read their facts off that tree.
pub struct BuilderState {
    pub scene: Scene,
    pub world: World,
}

/// Builds a scene whose root is a sequence: what is played comes one after
/// the other.
pub struct SceneBuilder {
    state: BuilderState,
    root_motions: Vec<Timed>,
    /// The parts of the components that are being built, innermost last.
    open: Vec<Vec<ObjectId>>,
}

/// The name of an object that a builder has added, with whatever else the
/// component that made it hands out.
#[derive(Clone, Copy, Debug)]
pub struct Handle<H> {
    pub inner: H,
    pub object_id: ObjectId,
}

/// An object on its way into a scene: it is given a name when it is
/// made, is placed step by step, and is added at the end.
pub struct ObjectBuilder {
    pub object_id: ObjectId,
    pub object: Object,
}

/// Collects motions for one object, each from where the object stands in
/// the authoring tree.
pub struct AnimationBuilder<'a> {
    object_id: ObjectId,
    pub animations: Vec<Motion>,
    state: &'a BuilderState,
}

/// `rand::random::<usize>()`: a number that the thread's generator hands
/// out. Nothing is claimed of it.
#[verifier::external_body]
fn random_id() -> (id: ObjectId) {
    rand::random::<usize>()
}

/// The world that a motion is tried out in: the authoring tree, no
/// variables, and a surface without size.
pub open spec fn spec_trial_world(tree: TreeView) -> WorldView {
    WorldView { objects: tree, render_size: (0, 0), variables: Map::empty() }
}

/// A total of durations as the length of a scene: the longest time there
/// is, where the total is longer.
pub open spec fn spec_scene_length(total: nat) -> Time {
    if total >= 0xffff_ffff {
        0xffff_ffff
    } else {
        total as u32
    }
}

impl BuilderState {
    /// The authoring tree is well formed and the trial world is clean.
    pub open spec fn wf(&self) -> bool {
        &&& self.world.wf()
        &&& self.world@ == spec_trial_world(self.world@.objects)
    }

    /// An empty registry and a tree with an empty root.
    pub fn new() -> (s: BuilderState)
        ensures
            s.wf(),
            s.scene.motions@.len() == 0,
            s.world@.objects == TreeView::spec_new(),
    {
        BuilderState {
            scene: Scene { motions: Vec::new(), root: 0, length: 0 },
            world: World::new(ObjectTree::new(), (0, 0), HashMap::new()),
        }
    }

    /// Runs motion `id` of the registry to its end on the authoring tree,
    /// so that the tree stands as it will when that motion is over. What
    /// the motion writes to variables is dropped: the motion runs again,
    /// for real, when the scene is played. Where the motion meets a fault,
    /// the tree is put back as it was.
    pub fn try_emulate_motion(&mut self, id: MotionId) -> (r: Result<(), Fault>)
        requires
            old(self).wf(),
        ensures
            final(self).wf(),
            final(self).scene == old(self).scene,
            match spec_play(
                old(self).scene,
                id,
                old(self).world@,
                Alpha::spec_full(),
                old(self).scene.motions@.len(),
            ) {
                Ok(w) => r is Ok && final(self).world@.objects == w.objects,
                Err(e) => r == Err::<(), Fault>(e) && final(self).world@ == old(self).world@,
            },
    {
        let depth: usize = self.scene.motions.len();
        let saved: ObjectTree = self.world.objects.duplicate();
        let r = self.scene.try_play(id, &mut self.world, depth);
        self.world.variables = HashMap::new();
        self.world.render_size = (0, 0);
        if r.is_err() {
            self.world.objects = saved;
        }
        r
    }

    /// Runs motion `id` of the registry to its end on the authoring tree.
    /// A motion that does not fit the tree is a fault of the author.
    pub fn emulate_motion(&mut self, id: MotionId)
        requires
            old(self).wf(),
            spec_play(
                old(self).scene,
                id,
                old(self).world@,
                Alpha::spec_full(),
                old(self).scene.motions@.len(),
            ) is Ok,
        ensures
            final(self).wf(),
            final(self).scene == old(self).scene,
            spec_play(
                old(self).scene,
                id,
                old(self).world@,
                Alpha::spec_full(),
                old(self).scene.motions@.len(),
            ) matches Ok(w) && final(self).world@.objects == w.objects,
    {
        match self.try_emulate_motion(id) {
            Ok(()) => {},
            Err(_) => unreached(),
        }
    }
}

impl SceneBuilder {
    /// The registry so far.
    pub closed spec fn motions(&self) -> Seq<Motion> {
        self.state.scene.motions@
    }

    /// The scene so far: the registry, without a root.
    pub closed spec fn scene(&self) -> Scene {
        self.state.scene
    }

    /// The children of the root sequence so far.
    pub closed spec fn root_items(&self) -> Seq<Timed> {
        self.root_motions@
    }

    /// The name that the next motion gets.
    pub closed spec fn next_id(&self) -> MotionId {
        self.state.scene.motions.len()
    }

    /// The parts of the components that are being built, innermost last.
    pub closed spec fn open_parts(&self) -> Seq<Seq<ObjectId>> {
        self.open@.map_values(|v: Vec<ObjectId>| v@)
    }

    /// Motion `id` of the registry `registry` can be run to its end on the
    /// authoring tree: whatever scene holds that registry, playing the
    /// motion meets no fault.
    pub open spec fn spec_can_play(&self, registry: Seq<Motion>, id: MotionId) -> bool {
        forall|s: Scene|
            s.motions@ == registry ==> #[trigger] spec_play(
                s,
                id,
                spec_trial_world(self.tree()),
                Alpha::spec_full(),
                s.motions@.len(),
            ) is Ok
    }

    /// The object `object`, stored as `object_id` inside `around` open
    /// components, fits the authoring tree: adding it meets no fault.
    pub open spec fn spec_fits(&self, object_id: ObjectId, object: DynamicObject, around: nat) -> bool {
        (AddObject { object_id, object, rooted: around == 0 }).spec_trigger(
            spec_trial_world(self.tree()),
        ) is Ok
    }

    /// The registry `registry` is what `self` holds, then `motions`, then a
    /// motion that runs those at once, each for `duration`.
    pub open spec fn spec_animated(
        &self,
        motions: Seq<Motion>,
        duration: Time,
        registry: Seq<Motion>,
    ) -> bool {
        let first = self.motions().len();
        let id = first + motions.len();
        &&& registry.len() == id + 1
        &&& registry.subrange(0, first as int) == self.motions()
        &&& registry.subrange(first as int, id as int) == motions
        &&& registry[id as int] matches Motion::Concurrently(items) && items@ == Seq::new(
            motions.len(),
            |i: int| ((first + i) as usize, duration),
        )
    }

    /// The authoring tree.
    pub closed spec fn tree(&self) -> TreeView {
        self.state.world@.objects
    }

    /// The builder is consistent. Every builder that this module hands out
    /// is.
    pub closed spec fn wf(&self) -> bool {
        self.state.wf()
    }

    /// The scene so far holds the registry so far, and motions are named
    /// by their place in it.
    pub proof fn lemma_scene(&self)
        ensures
            self.scene().motions@ == self.motions(),
            self.next_id() == self.motions().len(),
    {
    }

    /// A builder with nothing registered and nothing played.
    pub fn new() -> (b: SceneBuilder)
        ensures
            b.wf(),
            b.motions().len() == 0,
            b.root_items().len() == 0,
            b.open_parts().len() == 0,
            b.tree() == TreeView::spec_new(),
    {
        SceneBuilder { state: BuilderState::new(), root_motions: Vec::new(), open: Vec::new() }
    }

    /// Whether a component is being built.
    pub fn in_component(&self) -> (b: bool)
        ensures
            b == (self.open_parts().len() > 0),
    {
        self.open.len() > 0
    }

    /// The tree as it stands when all that was played so far is over.
    pub fn objects(&self) -> (t: &ObjectTree)
        requires
            self.wf(),
        ensures
            t@ == self.tree(),
            t.wf(),
    {
        &self.state.world.objects
    }

    /// Registers a motion and returns its name. The motion is not played:
    /// it is there for other motions to name.
    pub fn add_motion(&mut self, motion: Motion) -> (id: MotionId)
        requires
            old(self).wf(),
        ensures
            final(self).wf(),
            id == old(self).next_id(),
            id == old(self).motions().len(),
            final(self).motions() == old(self).motions().push(motion),
            final(self).root_items() == old(self).root_items(),
            final(self).open_parts() == old(self).open_parts(),
            final(self).tree() == old(self).tree(),
    {
        let id: MotionId = self.state.scene.motions.len();
        self.state.scene.motions.push(motion);
        id
    }

    /// Registers a sequence of the given children.
    pub fn sequence(&mut self, items: Vec<Timed>) -> (id: MotionId)
        requires
            old(self).wf(),
        ensures
            final(self).wf(),
            id == old(self).next_id(),
            id == old(self).motions().len(),
            final(self).motions().len() == id + 1,
            final(self).motions().subrange(0, id as int) == old(self).motions(),
            final(self).motions()[id as int] matches Motion::Sequence(v) && v@ == items@,
            final(self).root_items() == old(self).root_items(),
            final(self).open_parts() == old(self).open_parts(),
            final(self).tree() == old(self).tree(),
    {
        let id = self.add_motion(Motion::Sequence(items));
        assert(self.motions().subrange(0, id as int) =~= old(self).motions());
        id
    }

    /// Registers a motion that runs the given children at once.
    pub fn concurrently(&mut self, items: Vec<Timed>) -> (id: MotionId)
        requires
            old(self).wf(),
        ensures
            final(self).wf(),
            id == old(self).next_id(),
            id == old(self).motions().len(),
            final(self).motions().len() == id + 1,
            final(self).motions().subrange(0, id as int) == old(self).motions(),
            final(self).motions()[id as int] matches Motion::Concurrently(v) && v@ == items@,
            final(self).root_items() == old(self).root_items(),
            final(self).open_parts() == old(self).open_parts(),
            final(self).tree() == old(self).tree(),
    {
        let id = self.add_motion(Motion::Concurrently(items));
        assert(self.motions().subrange(0, id as int) =~= old(self).motions());
        id
    }

    /// Registers a motion and plays it for `duration`, after all that was
    /// played before. The motion is run once to its end on the authoring
    /// tree; where that fails, the motion stays registered and is not
    /// played, and the authoring tree stays as it was. While a component is being built, only motions that take no
    /// time can be played: others are refused, and not registered.
    pub fn try_play(&mut self, motion: Motion, duration: Time) -> (r: Result<MotionId, Fault>)
        requires
            old(self).wf(),
        ensures
            final(self).wf(),
            final(self).open_parts() == old(self).open_parts(),
            old(self).open_parts().len() > 0 && duration != 0 ==> {
                &&& r == Err::<MotionId, Fault>(Fault::TimedInComponent)
                &&& final(self).motions() == old(self).motions()
                &&& final(self).root_items() == old(self).root_items()
                &&& final(self).tree() == old(self).tree()
            },
            old(self).open_parts().len() == 0 || duration == 0 ==> {
                &&& final(self).motions() == old(self).motions().push(motion)
                &&& match spec_play(
                    final(self).scene(),
                    old(self).next_id(),
                    spec_trial_world(old(self).tree()),
                    Alpha::spec_full(),
                    final(self).motions().len(),
                ) {
                    Ok(w) => {
                        &&& r == Ok::<MotionId, Fault>(old(self).next_id())
                        &&& final(self).tree() == w.objects
                        &&& final(self).root_items() == old(self).root_items().push(
                            (old(self).next_id(), duration),
                        )
                    },
                    Err(e) => {
                        &&& r == Err::<MotionId, Fault>(e)
                        &&& final(self).root_items() == old(self).root_items()
                        &&& final(self).tree() == old(self).tree()
                    },
                }
            },
    {
        if self.open.len() > 0 && duration != 0 {
            return Err(Fault::TimedInComponent);
        }
        let id = self.add_motion(motion);
        match self.state.try_emulate_motion(id) {
            Err(e) => Err(e),
            Ok(()) => {
                self.root_motions.push((id, duration));
                Ok(id)
            },
        }
    }

    /// Registers a motion and plays it for `duration`, after all that was
    /// played before. While a component is being built only motions that
    /// take no time can be played, and a motion must fit the authoring
    /// tree: it is run on it once, to its end.
    pub fn play(&mut self, motion: Motion, duration: Time) -> (id: MotionId)
        requires
            old(self).wf(),
            old(self).open_parts().len() == 0 || duration == 0,
            old(self).spec_can_play(old(self).motions().push(motion), old(self).next_id()),
        ensures
            final(self).wf(),
            final(self).open_parts() == old(self).open_parts(),
            id == old(self).next_id(),
            final(self).motions() == old(self).motions().push(motion),
            final(self).root_items() == old(self).root_items().push((id, duration)),
            spec_play(
                final(self).scene(),
                id,
                spec_trial_world(old(self).tree()),
                Alpha::spec_full(),
                final(self).motions().len(),
            ) matches Ok(w) && final(self).tree() == w.objects,
    {
        let r = self.try_play(motion, duration);
        proof {
            self.lemma_scene();
        }
        match r {
            Ok(id) => id,
            Err(_) => unreached(),
        }
    }

    /// Registers the motion of `animation` and plays it for the duration of
    /// the animation, its progress bent by the curve of the animation.
    pub fn try_play_animation(&mut self, animation: MotionAnimation) -> (r: Result<MotionId, Fault>)
        requires
            old(self).wf(),
        ensures
            final(self).wf(),
            final(self).open_parts() == old(self).open_parts(),
            old(self).open_parts().len() > 0 && animation.duration != 0 ==> {
                &&& r == Err::<MotionId, Fault>(Fault::TimedInComponent)
                &&& final(self).motions() == old(self).motions()
                &&& final(self).root_items() == old(self).root_items()
                &&& final(self).tree() == old(self).tree()
            },
            old(self).open_parts().len() == 0 || animation.duration == 0 ==> {
                &&& final(self).motions() == old(self).motions().push(animation.motion).push(
                    Motion::Eased(animation.easing, old(self).next_id()),
                )
                &&& match spec_play(
                    final(self).scene(),
                    (old(self).next_id() + 1) as usize,
                    spec_trial_world(old(self).tree()),
                    Alpha::spec_full(),
                    final(self).motions().len(),
                ) {
                    Ok(w) => {
                        &&& r == Ok::<MotionId, Fault>((old(self).next_id() + 1) as usize)
                        &&& final(self).tree() == w.objects
                        &&& final(self).root_items() == old(self).root_items().push(
                            ((old(self).next_id() + 1) as usize, animation.duration),
                        )
                    },
                    Err(e) => {
                        &&& r == Err::<MotionId, Fault>(e)
                        &&& final(self).root_items() == old(self).root_items()
                        &&& final(self).tree() == old(self).tree()
                    },
                }
            },
    {
        if self.open.len() > 0 && animation.duration != 0 {
            return Err(Fault::TimedInComponent);
        }
        let MotionAnimation { duration, motion, easing } = animation;
        proof {
            self.lemma_scene();
        }
        let inner = self.add_motion(motion);
        proof {
            self.lemma_scene();
        }
        self.try_play(Motion::Eased(easing, inner), duration)
    }

    /// Registers the motion of `animation` and plays it for the duration of
    /// the animation, its progress bent by the curve of the animation.
    pub fn play_animation(&mut self, animation: MotionAnimation) -> (id: MotionId)
        requires
            old(self).wf(),
            old(self).open_parts().len() == 0 || animation.duration == 0,
            old(self).spec_can_play(
                old(self).motions().push(animation.motion).push(
                    Motion::Eased(animation.easing, old(self).next_id()),
                ),
                (old(self).next_id() + 1) as usize,
            ),
        ensures
            final(self).wf(),
            final(self).open_parts() == old(self).open_parts(),
            id == old(self).next_id() + 1,
            final(self).motions() == old(self).motions().push(animation.motion).push(
                Motion::Eased(animation.easing, old(self).next_id()),
            ),
            final(self).root_items() == old(self).root_items().push((id, animation.duration)),
            spec_play(
                final(self).scene(),
                id,
                spec_trial_world(old(self).tree()),
                Alpha::spec_full(),
                final(self).motions().len(),
            ) matches Ok(w) && final(self).tree() == w.objects,
    {
        let r = self.try_play_animation(animation);
        proof {
            self.lemma_scene();
        }
        match r {
            Ok(id) => id,
            Err(_) => unreached(),
        }
    }

    /// Plays several motions at once, each for `duration`: registers them,
    /// and a motion that runs them concurrently, and plays that.
    pub fn try_animate(&mut self, motions: Vec<Motion>, duration: Time) -> (r: Result<MotionId, Fault>)
        requires
            old(self).wf(),
        ensures
            final(self).wf(),
            final(self).open_parts() == old(self).open_parts(),
            old(self).open_parts().len() > 0 && duration != 0 ==> r == Err::<MotionId, Fault>(
                Fault::TimedInComponent,
            ),
            old(self).open_parts().len() == 0 || duration == 0 ==> match spec_play(
                final(self).scene(),
                (old(self).next_id() + motions@.len()) as usize,
                spec_trial_world(old(self).tree()),
                Alpha::spec_full(),
                final(self).motions().len(),
            ) {
                Ok(w) => r is Ok && final(self).tree() == w.objects,
                Err(e) => r == Err::<MotionId, Fault>(e) && final(self).root_items() == old(self).root_items() && final(self).tree() == old(self).tree(),
            },
            old(self).open_parts().len() == 0 || duration == 0 ==> old(self).spec_animated(
                motions@,
                duration,
                final(self).motions(),
            ),
            r matches Ok(id) ==> {
                &&& id == old(self).next_id() + motions@.len()
                &&& final(self).root_items() == old(self).root_items().push((id, duration))
            },
    {
        if self.open.len() > 0 && duration != 0 {
            return Err(Fault::TimedInComponent);
        }
        let ghost first = self.next_id();
        let ghost before = self.motions();
        let ghost wanted = motions@;
        let mut motions = motions;
        let mut items: Vec<Timed> = Vec::new();
        let mut rest: Vec<Motion> = Vec::new();
        // Motions are taken from the back, so turn the list round first.
        while motions.len() > 0
            invariant
                rest@.len() + motions@.len() == wanted.len(),
                forall|i: int| 0 <= i < motions@.len() ==> motions@[i] == wanted[i],
                forall|i: int|
                    0 <= i < rest@.len() ==> rest@[i] == wanted[wanted.len() - 1 - i],
            decreases motions.len(),
        {
            let m = motions.pop().unwrap();
            rest.push(m);
        }
        proof {
            self.lemma_scene();
        }
        while rest.len() > 0
            invariant
                self.wf(),
                self.open_parts() == old(self).open_parts(),
                self.root_items() == old(self).root_items(),
                self.tree() == old(self).tree(),
                first == before.len(),
                items@.len() + rest@.len() == wanted.len(),
                self.next_id() == first + items@.len(),
                self.motions().len() == first + items@.len(),
                self.motions().subrange(0, first as int) == before,
                self.motions().subrange(first as int, first + items@.len()) == wanted.subrange(
                    0,
                    items@.len() as int,
                ),
                forall|i: int|
                    0 <= i < rest@.len() ==> rest@[i] == wanted[wanted.len() - 1 - i],
                items@ == Seq::new(items@.len(), |i: int| ((first + i) as usize, duration)),
            decreases rest.len(),
        {
            let ghost so_far = self.motions();
            let ghost done = items@.len();
            let m = rest.pop().unwrap();
            proof {
                self.lemma_scene();
            }
            let id = self.add_motion(m);
            items.push((id, duration));
            proof {
                self.lemma_scene();
                assert(self.motions().subrange(0, first as int) =~= so_far.subrange(
                    0,
                    first as int,
                ));
                assert(self.motions().subrange(first as int, first + done + 1) =~= wanted.subrange(
                    0,
                    (done + 1) as int,
                ));
                assert(items@ =~= Seq::new(
                    items@.len(),
                    |i: int| ((first + i) as usize, duration),
                ));
            }
        }
        let ghost registered = self.motions();
        let ghost listed = items@;
        let r = self.try_play(Motion::Concurrently(items), duration);
        proof {
            self.lemma_scene();
            old(self).lemma_scene();
            let id = registered.len() as int;
            assert(wanted.subrange(0, wanted.len() as int) =~= wanted);
            assert(self.motions().subrange(0, first as int) =~= registered.subrange(
                0,
                first as int,
            ));
            assert(self.motions().subrange(first as int, id) =~= registered.subrange(
                first as int,
                id,
            ));
        }
        r
    }

    /// Plays several motions at once, each for `duration`. While a
    /// component is being built the motions must take no time, and they
    /// must fit the authoring tree.
    pub fn animate(&mut self, motions: Vec<Motion>, duration: Time) -> (id: MotionId)
        requires
            old(self).wf(),
            old(self).open_parts().len() == 0 || duration == 0,
            forall|s: Scene|
                old(self).spec_animated(motions@, duration, s.motions@) ==> #[trigger] spec_play(
                    s,
                    (old(self).next_id() + motions@.len()) as usize,
                    spec_trial_world(old(self).tree()),
                    Alpha::spec_full(),
                    s.motions@.len(),
                ) is Ok,
        ensures
            final(self).wf(),
            final(self).open_parts() == old(self).open_parts(),
            id == old(self).next_id() + motions@.len(),
            old(self).spec_animated(motions@, duration, final(self).motions()),
            final(self).root_items() == old(self).root_items().push((id, duration)),
            spec_play(
                final(self).scene(),
                id,
                spec_trial_world(old(self).tree()),
                Alpha::spec_full(),
                final(self).motions().len(),
            ) matches Ok(w) && final(self).tree() == w.objects,
    {
        let r = self.try_animate(motions, duration);
        proof {
            self.lemma_scene();
        }
        match r {
            Ok(id) => id,
            Err(_) => unreached(),
        }
    }

    /// Opens a component: the objects that are added from now on are its
    /// parts, until it is closed.
    pub fn begin_component(&mut self)
        requires
            old(self).wf(),
        ensures
            final(self).wf(),
            final(self).open_parts() == old(self).open_parts().push(Seq::empty()),
            final(self).motions() == old(self).motions(),
            final(self).root_items() == old(self).root_items(),
            final(self).tree() == old(self).tree(),
    {
        self.open.push(Vec::new());
        assert(self.open_parts() =~= old(self).open_parts().push(Seq::empty()));
    }

    /// Adds an object under a name of the caller's choice. It takes no
    /// time. Outside of components the object goes under the root. A part
    /// of a component is stored without a parent, and is noted as a part of
    /// the innermost open component.
    pub fn try_add_object_as(&mut self, object_id: ObjectId, object: DynamicObject) -> (r: Result<
        MotionId,
        Fault,
    >)
        requires
            old(self).wf(),
        ensures
            final(self).wf(),
            final(self).motions().len() == old(self).motions().len() + 1,
            final(self).motions().subrange(0, old(self).motions().len() as int) == old(self).motions(),
            final(self).motions().last() matches Motion::AddObject(a) && a.object_id == object_id
                && a.rooted == (old(self).open_parts().len() == 0) && a.object.object_kind@
                == object.object_kind@ && a.object.transform == object.transform,
            match (AddObject {
                object_id,
                object,
                rooted: old(self).open_parts().len() == 0,
            }).spec_trigger(spec_trial_world(old(self).tree())) {
                Ok(w) => {
                    &&& r == Ok::<MotionId, Fault>(old(self).next_id())
                    &&& final(self).tree() == w.objects
                    &&& final(self).root_items() == old(self).root_items().push(
                        (old(self).next_id(), 0),
                    )
                    &&& final(self).open_parts() == if old(self).open_parts().len() == 0 {
                        old(self).open_parts()
                    } else {
                        old(self).open_parts().drop_last().push(
                            old(self).open_parts().last().push(object_id),
                        )
                    }
                },
                Err(e) => {
                    &&& r == Err::<MotionId, Fault>(e)
                    &&& final(self).root_items() == old(self).root_items()
                    &&& final(self).open_parts() == old(self).open_parts()
                    &&& final(self).tree() == old(self).tree()
                },
            },
    {
        let rooted: bool = self.open.len() == 0;
        let r = self.try_play(Motion::AddObject(AddObject { object_id, object, rooted }), 0);
        proof {
            assert(self.motions().subrange(0, old(self).motions().len() as int) =~= old(self).motions());
            self.lemma_scene();
            old(self).lemma_scene();
            assert(self.motions().last() is AddObject);
            lemma_play_add_object(
                self.scene(),
                old(self).next_id(),
                spec_trial_world(old(self).tree()),
                Alpha::spec_full(),
                self.motions().len(),
            );
        }
        if r.is_ok() && !rooted {
            let ghost before = self.open_parts();
            match self.open.pop() {
                Some(parts) => {
                    let mut parts = parts;
                    parts.push(object_id);
                    self.open.push(parts);
                    assert(self.open_parts() =~= before.drop_last().push(
                        before.last().push(object_id),
                    ));
                },
                None => {},
            }
        }
        r
    }

    /// Adds an object under a name of the caller's choice, as
    /// `try_add_object_as` does. The object must fit the authoring tree.
    pub fn add_object_as(&mut self, object_id: ObjectId, object: DynamicObject) -> (id: MotionId)
        requires
            old(self).wf(),
            (AddObject {
                object_id,
                object,
                rooted: old(self).open_parts().len() == 0,
            }).spec_trigger(spec_trial_world(old(self).tree())) is Ok,
        ensures
            final(self).wf(),
            id == old(self).next_id(),
            final(self).motions().len() == old(self).motions().len() + 1,
            final(self).motions().subrange(0, old(self).motions().len() as int) == old(self).motions(),
            final(self).motions().last() matches Motion::AddObject(a) && a.object_id == object_id
                && a.rooted == (old(self).open_parts().len() == 0) && a.object.object_kind@
                == object.object_kind@ && a.object.transform == object.transform
                && a.spec_trigger(spec_trial_world(old(self).tree())) is Ok && final(self).spec_added(
                old(self),
                a,
                Ok(object_id),
            ),
    {
        match self.try_add_object_as(object_id, object) {
            Ok(id) => id,
            Err(_) => unreached(),
        }
    }

    /// What adding an object made of the builder `before`, given the
    /// motion `a` that was registered for it: the object is tried out on
    /// the authoring tree; where that works it is played, taking no time,
    /// and is noted as a part of the innermost open component, if any.
    pub open spec fn spec_added(
        &self,
        before: &SceneBuilder,
        a: AddObject,
        r: Result<ObjectId, Fault>,
    ) -> bool {
        match a.spec_trigger(spec_trial_world(before.tree())) {
            Ok(w) => {
                &&& r == Ok::<ObjectId, Fault>(a.object_id)
                &&& self.tree() == w.objects
                &&& self.root_items() == before.root_items().push((before.next_id(), 0))
                &&& self.open_parts() == if before.open_parts().len() == 0 {
                    before.open_parts()
                } else {
                    before.open_parts().drop_last().push(
                        before.open_parts().last().push(a.object_id),
                    )
                }
            },
            Err(e) => {
                &&& r == Err::<ObjectId, Fault>(e)
                &&& self.root_items() == before.root_items()
                &&& self.open_parts() == before.open_parts()
                &&& self.tree() == before.tree()
            },
        }
    }

    /// Adds an object under a name drawn at random, and returns the name.
    /// Whatever the name, the object is added as `add_object_as` adds it.
    pub fn try_add_object(&mut self, object: DynamicObject) -> (r: Result<ObjectId, Fault>)
        requires
            old(self).wf(),
        ensures
            final(self).wf(),
            final(self).motions().len() == old(self).motions().len() + 1,
            final(self).motions().subrange(0, old(self).motions().len() as int) == old(self).motions(),
            final(self).motions().last() matches Motion::AddObject(a) && a.rooted == (old(self).open_parts().len() == 0) && a.object.object_kind@ == object.object_kind@
                && a.object.transform == object.transform && final(self).spec_added(
                old(self),
                a,
                r,
            ),
    {
        let object_id: ObjectId = random_id();
        match self.try_add_object_as(object_id, object) {
            Err(e) => Err(e),
            Ok(_) => Ok(object_id),
        }
    }

    /// Adds an object under a name drawn at random, and returns the name.
    /// The object must fit the authoring tree under whatever name.
    pub fn add_object(&mut self, object: DynamicObject) -> (id: ObjectId)
        requires
            old(self).wf(),
            forall|name: ObjectId| #[trigger]
                old(self).spec_fits(name, object, old(self).open_parts().len()),
        ensures
            final(self).wf(),
            final(self).motions().len() == old(self).motions().len() + 1,
            final(self).motions().subrange(0, old(self).motions().len() as int) == old(self).motions(),
            final(self).motions().last() matches Motion::AddObject(a) && a.object_id == id
                && a.rooted == (old(self).open_parts().len() == 0) && a.object.object_kind@
                == object.object_kind@ && a.object.transform == object.transform && final(self).spec_added(old(self), a, Ok(id)),
    {
        let r = self.try_add_object(object);
        proof {
            let a = self.motions().last()->AddObject_0;
            let same = AddObject {
                object_id: a.object_id,
                object,
                rooted: old(self).open_parts().len() == 0,
            };
            assert(old(self).spec_fits(a.object_id, object, old(self).open_parts().len()));
            assert(a.spec_trigger(spec_trial_world(old(self).tree())) == same.spec_trigger(
                spec_trial_world(old(self).tree()),
            ));
        }
        match r {
            Ok(id) => id,
            Err(_) => unreached(),
        }
    }

    /// Closes the innermost open component: adds a group of its parts,
    /// placed by `transform`, under a name of the caller's choice. The
    /// group is itself a part of the component around it, or goes under the
    /// root.
    pub fn try_end_component_as(&mut self, object_id: ObjectId, transform: DynamicTransform) -> (r:
        Result<Handle<()>, Fault>)
        requires
            old(self).wf(),
        ensures
            final(self).wf(),
            old(self).open_parts().len() == 0 ==> {
                &&& r is Err && r->Err_0 == Fault::NoComponent
                &&& final(self).motions() == old(self).motions()
                &&& final(self).root_items() == old(self).root_items()
                &&& final(self).open_parts() == old(self).open_parts()
                &&& final(self).tree() == old(self).tree()
            },
            old(self).open_parts().len() > 0 ==> {
                let around = old(self).open_parts().drop_last();
                let parts = old(self).open_parts().last();
                &&& final(self).motions().len() == old(self).motions().len() + 1
                &&& final(self).motions().subrange(0, old(self).motions().len() as int) == old(self).motions()
                &&& final(self).motions().last() matches Motion::AddObject(a) && a.object_id
                    == object_id && a.rooted == (around.len() == 0) && a.object.object_kind@
                    == KindView::Group(parts) && a.object.transform == transform
                    && match a.spec_trigger(spec_trial_world(old(self).tree())) {
                    Ok(w) => {
                        &&& r matches Ok(h) && h.object_id == object_id
                        &&& final(self).tree() == w.objects
                        &&& final(self).root_items() == old(self).root_items().push(
                            (old(self).next_id(), 0),
                        )
                        &&& final(self).open_parts() == if around.len() == 0 {
                            around
                        } else {
                            around.drop_last().push(around.last().push(object_id))
                        }
                    },
                    Err(e) => {
                        &&& r is Err && r->Err_0 == e
                        &&& final(self).root_items() == old(self).root_items()
                        &&& final(self).open_parts() == around
                        &&& final(self).tree() == old(self).tree()
                    },
                }
            },
    {
        match self.open.pop() {
            None => {
                assert(self.open_parts() =~= old(self).open_parts());
                Err(Fault::NoComponent)
            },
            Some(parts) => {
                assert(self.open_parts() =~= old(self).open_parts().drop_last());
                let group = DynamicObject::new_group(parts).with_transform(transform);
                match self.try_add_object_as(object_id, group) {
                    Err(e) => Err(e),
                    Ok(_) => Ok(Handle { inner: (), object_id }),
                }
            },
        }
    }

    /// What closing a component needs: the group of its parts, placed by
    /// `transform` and stored as `object_id`, fits the authoring tree.
    pub open spec fn spec_can_close(&self, object_id: ObjectId, transform: DynamicTransform) -> bool {
        &&& self.open_parts().len() > 0
        &&& forall|group: DynamicObject|
            group.object_kind@ == KindView::Group(self.open_parts().last()) && group.transform
                == transform ==> #[trigger] self.spec_fits(
                object_id,
                group,
                self.open_parts().drop_last().len(),
            )
    }

    /// Closes the innermost open component: adds a group of its parts,
    /// placed by `transform`, under a name of the caller's choice. A
    /// component must be open, and the group must fit the authoring tree.
    pub fn end_component_as(&mut self, object_id: ObjectId, transform: DynamicTransform) -> (h:
        Handle<()>)
        requires
            old(self).wf(),
            old(self).spec_can_close(object_id, transform),
        ensures
            final(self).wf(),
            h.object_id == object_id,
            final(self).motions().len() == old(self).motions().len() + 1,
            final(self).motions().subrange(0, old(self).motions().len() as int) == old(self).motions(),
            final(self).motions().last() matches Motion::AddObject(a) && a.object_id == object_id
                && a.rooted == (old(self).open_parts().len() == 1) && a.object.object_kind@
                == KindView::Group(old(self).open_parts().last()) && a.object.transform == transform
                && (a.spec_trigger(spec_trial_world(old(self).tree())) matches Ok(w) && final(self).tree() == w.objects),
            final(self).root_items() == old(self).root_items().push((old(self).next_id(), 0)),
            final(self).open_parts() == ({
                let around = old(self).open_parts().drop_last();
                if around.len() == 0 {
                    around
                } else {
                    around.drop_last().push(around.last().push(object_id))
                }
            }),
    {
        let r = self.try_end_component_as(object_id, transform);
        proof {
            let a = self.motions().last()->AddObject_0;
            let same = AddObject { object_id, object: a.object, rooted: a.rooted };
            assert(old(self).spec_fits(object_id, a.object, old(self).open_parts().drop_last().len()));
            assert(a.spec_trigger(spec_trial_world(old(self).tree())) == same.spec_trigger(
                spec_trial_world(old(self).tree()),
            ));
        }
        match r {
            Ok(h) => h,
            Err(_) => unreached(),
        }
    }

    /// Closes the innermost open component under a name drawn at random.
    pub fn try_end_component(&mut self, transform: DynamicTransform) -> (r: Result<Handle<()>, Fault>)
        requires
            old(self).wf(),
        ensures
            final(self).wf(),
            old(self).open_parts().len() == 0 ==> r is Err && r->Err_0 == Fault::NoComponent,
            old(self).open_parts().len() > 0 ==> {
                let around = old(self).open_parts().drop_last();
                let parts = old(self).open_parts().last();
                &&& final(self).motions().len() == old(self).motions().len() + 1
                &&& final(self).motions().subrange(0, old(self).motions().len() as int) == old(self).motions()
                &&& final(self).motions().last() matches Motion::AddObject(a) && a.rooted == (
                around.len() == 0) && a.object.object_kind@ == KindView::Group(parts)
                    && a.object.transform == transform && match a.spec_trigger(
                    spec_trial_world(old(self).tree()),
                ) {
                    Ok(w) => {
                        &&& r matches Ok(h) && h.object_id == a.object_id
                        &&& final(self).tree() == w.objects
                        &&& final(self).root_items() == old(self).root_items().push(
                            (old(self).next_id(), 0),
                        )
                        &&& final(self).open_parts() == if around.len() == 0 {
                            around
                        } else {
                            around.drop_last().push(around.last().push(a.object_id))
                        }
                    },
                    Err(e) => {
                        &&& r is Err && r->Err_0 == e
                        &&& final(self).root_items() == old(self).root_items()
                        &&& final(self).open_parts() == around
                        &&& final(self).tree() == old(self).tree()
                    },
                }
            },
    {
        let object_id: ObjectId = random_id();
        self.try_end_component_as(object_id, transform)
    }

    /// Closes the innermost open component under a name drawn at random. A
    /// component must be open, and the group of its parts must fit the
    /// authoring tree under whatever name.
    pub fn end_component(&mut self, transform: DynamicTransform) -> (h: Handle<()>)
        requires
            old(self).wf(),
            forall|name: ObjectId| #[trigger] old(self).spec_can_close(name, transform),
        ensures
            final(self).wf(),
            final(self).motions().len() == old(self).motions().len() + 1,
            final(self).motions().subrange(0, old(self).motions().len() as int) == old(self).motions(),
            final(self).motions().last() matches Motion::AddObject(a) && a.object_id == h.object_id
                && a.rooted == (old(self).open_parts().len() == 1) && a.object.object_kind@
                == KindView::Group(old(self).open_parts().last()) && a.object.transform == transform
                && (a.spec_trigger(spec_trial_world(old(self).tree())) matches Ok(w) && final(self).tree() == w.objects),
            final(self).root_items() == old(self).root_items().push((old(self).next_id(), 0)),
            final(self).open_parts() == ({
                let around = old(self).open_parts().drop_last();
                if around.len() == 0 {
                    around
                } else {
                    around.drop_last().push(around.last().push(h.object_id))
                }
            }),
    {
        let object_id: ObjectId = random_id();
        assert(self.spec_can_close(object_id, transform));
        self.end_component_as(object_id, transform)
    }

    /// A builder of motions for the object stored as `object_id`.
    pub fn animation(&self, object_id: ObjectId) -> (b: AnimationBuilder<'_>)
        requires
            self.wf(),
        ensures
            b.tree() == self.tree(),
            b.target() == object_id,
            b.built().len() == 0,
    {
        AnimationBuilder { object_id, animations: Vec::new(), state: &self.state }
    }

    /// The object moved so that the middle of its bounds comes to lie where
    /// its origin was, with its anchor on that middle: it then turns and
    /// scales about its own centre.
    pub fn try_with_centered_anchor(&self, object: Object) -> (r: Result<Object, Fault>)
        requires
            self.wf(),
        ensures
            match self.tree().spec_bounds(
                object@,
                Transform::spec_identity(),
                self.tree().objects.len(),
            ) {
                Ok(bb) => r is Ok && r->Ok_0@ == (ObjectView {
                    kind: object@.kind,
                    transform: Transform {
                        position: object.transform.position.spec_minus(bb.spec_center()),
                        anchor: bb.spec_center(),
                        ..object.transform
                    },
                }),
                Err(e) => r is Err && r->Err_0 == e,
            },
    {
        match self.state.world.objects.try_local_bounding_box_obj(&object) {
            Err(e) => Err(e),
            Ok(bb) => {
                let center: Point = bb.center();
                let mut object = object;
                object.transform.position = object.transform.position.minus(&center);
                object.transform.anchor = center;
                Ok(object)
            },
        }
    }

    /// The object moved so that the middle of its bounds comes to lie where
    /// its origin was, with its anchor on that middle. What the object
    /// holds must be stored in the authoring tree.
    pub fn with_centered_anchor(&self, object: Object) -> (o: Object)
        requires
            self.wf(),
            self.tree().spec_bounds(
                object@,
                Transform::spec_identity(),
                self.tree().objects.len(),
            ) is Ok,
        ensures
            self.tree().spec_bounds(
                object@,
                Transform::spec_identity(),
                self.tree().objects.len(),
            ) matches Ok(bb) && o@ == (ObjectView {
                kind: object@.kind,
                transform: Transform {
                    position: object.transform.position.spec_minus(bb.spec_center()),
                    anchor: bb.spec_center(),
                    ..object.transform
                },
            }),
    {
        match self.try_with_centered_anchor(object) {
            Ok(o) => o,
            Err(_) => unreached(),
        }
    }

    /// Finishes the scene: all that was played becomes one sequence, which
    /// is registered last and is the root. The scene takes as long as that
    /// sequence.
    pub fn finish(self) -> (s: Scene)
        ensures
            s.motions@.len() == self.motions().len() + 1,
            s.motions@.subrange(0, self.motions().len() as int) == self.motions(),
            s.motions@.last() matches Motion::Sequence(items) && items@ == self.root_items(),
            s.root == self.motions().len(),
            s.length == spec_scene_length(total_duration(self.root_items())),
    {
        let SceneBuilder { state, root_motions, open } = self;
        let BuilderState { scene, world } = state;
        let Scene { motions, root, length } = scene;
        let mut motions = motions;
        let total: u128 = total_of(&root_motions);
        let length: Time = if total >= 0xffff_ffff {
            0xffff_ffff
        } else {
            total as u32
        };
        let root: MotionId = motions.len();
        motions.push(Motion::Sequence(root_motions));
        assert(motions@.subrange(0, root as int) =~= self.motions());
        Scene { motions, root, length }
    }
}

impl ObjectBuilder {
    /// Takes an object in hand, under a name of the caller's choice.
    pub fn named(object_id: ObjectId, object: Object) -> (b: ObjectBuilder)
        ensures
            b.object_id == object_id,
            b.object == object,
    {
        ObjectBuilder { object_id, object }
    }

    /// Takes an object in hand, under a name drawn at random.
    pub fn new(object: Object) -> (b: ObjectBuilder)
        ensures
            b.object == object,
    {
        ObjectBuilder { object_id: random_id(), object }
    }

    /// The same object at another placement.
    pub fn with_transform(self, transform: Transform) -> (b: ObjectBuilder)
        ensures
            b.object_id == self.object_id,
            b.object@ == (ObjectView { kind: self.object@.kind, transform }),
    {
        let mut b = self;
        b.object.transform = transform;
        b
    }

    /// The same object with another scale.
    pub fn with_scale(self, scale: Scalar) -> (b: ObjectBuilder)
        ensures
            b.object_id == self.object_id,
            b.object@ == (ObjectView {
                kind: self.object@.kind,
                transform: Transform { scale, ..self.object.transform },
            }),
    {
        let mut b = self;
        b.object.transform.scale = scale;
        b
    }

    /// The same object with another rotation.
    pub fn with_rotation(self, rotation: Scalar) -> (b: ObjectBuilder)
        ensures
            b.object_id == self.object_id,
            b.object@ == (ObjectView {
                kind: self.object@.kind,
                transform: Transform { rotation, ..self.object.transform },
            }),
    {
        let mut b = self;
        b.object.transform.rotation = rotation;
        b
    }

    /// The same object at another position.
    pub fn with_position(self, position: Point) -> (b: ObjectBuilder)
        ensures
            b.object_id == self.object_id,
            b.object@ == (ObjectView {
                kind: self.object@.kind,
                transform: Transform { position, ..self.object.transform },
            }),
    {
        let mut b = self;
        b.object.transform.position = position;
        b
    }

    /// The same object with another anchor.
    pub fn with_anchor(self, anchor: Point) -> (b: ObjectBuilder)
        ensures
            b.object_id == self.object_id,
            b.object@ == (ObjectView {
                kind: self.object@.kind,
                transform: Transform { anchor, ..self.object.transform },
            }),
    {
        let mut b = self;
        b.object.transform.anchor = anchor;
        b
    }

    /// The object moved so that the middle of its bounds comes to lie where
    /// its origin was, with its anchor on that middle. The bounds are
    /// taken in the authoring tree of `builder`.
    pub fn try_with_centered_anchor(self, builder: &SceneBuilder) -> (r: Result<ObjectBuilder, Fault>)
        requires
            builder.wf(),
        ensures
            match builder.tree().spec_bounds(
                self.object@,
                Transform::spec_identity(),
                builder.tree().objects.len(),
            ) {
                Ok(bb) => r matches Ok(b) && b.object_id == self.object_id && b.object@ == (ObjectView {
                    kind: self.object@.kind,
                    transform: Transform {
                        position: self.object.transform.position.spec_minus(bb.spec_center()),
                        anchor: bb.spec_center(),
                        ..self.object.transform
                    },
                }),
                Err(e) => r is Err && r->Err_0 == e,
            },
    {
        let ObjectBuilder { object_id, object } = self;
        match builder.try_with_centered_anchor(object) {
            Err(e) => Err(e),
            Ok(object) => Ok(ObjectBuilder { object_id, object }),
        }
    }

    /// The object moved so that the middle of its bounds comes to lie where
    /// its origin was, with its anchor on that middle. What the object
    /// holds must be stored in the authoring tree of `builder`.
    pub fn with_centered_anchor(self, builder: &SceneBuilder) -> (b: ObjectBuilder)
        requires
            builder.wf(),
            builder.tree().spec_bounds(
                self.object@,
                Transform::spec_identity(),
                builder.tree().objects.len(),
            ) is Ok,
        ensures
            b.object_id == self.object_id,
            builder.tree().spec_bounds(
                self.object@,
                Transform::spec_identity(),
                builder.tree().objects.len(),
            ) matches Ok(bb) && b.object@ == (ObjectView {
                kind: self.object@.kind,
                transform: Transform {
                    position: self.object.transform.position.spec_minus(bb.spec_center()),
                    anchor: bb.spec_center(),
                    ..self.object.transform
                },
            }),
    {
        match self.try_with_centered_anchor(builder) {
            Ok(b) => b,
            Err(_) => unreached(),
        }
    }

    /// Adds the object to the scene, as `add_object_as` adds it, and
    /// returns its name.
    pub fn try_add(self, builder: &mut SceneBuilder) -> (r: Result<ObjectId, Fault>)
        requires
            old(builder).wf(),
        ensures
            final(builder).wf(),
            final(builder).motions().len() == old(builder).motions().len() + 1,
            final(builder).motions().subrange(0, old(builder).motions().len() as int) == old(builder).motions(),
            final(builder).motions().last() matches Motion::AddObject(a) && a.object_id
                == self.object_id && a.rooted == (old(builder).open_parts().len() == 0)
                && a.object.object_kind@ == self.object@.kind && a.object.transform
                == DynamicTransform::spec_literal(self.object.transform) && final(builder).spec_added(old(builder), a, r),
    {
        let ObjectBuilder { object_id, object } = self;
        match builder.try_add_object_as(object_id, DynamicObject::fixed(object)) {
            Err(e) => Err(e),
            Ok(_) => Ok(object_id),
        }
    }

    /// Adds the object to the scene and returns its name. Outside of
    /// components the authoring tree must have a root group to put the
    /// object under.
    pub fn add(self, builder: &mut SceneBuilder) -> (id: ObjectId)
        requires
            old(builder).wf(),
            old(builder).tree().spec_add(
                self.object_id,
                self.object@,
                old(builder).open_parts().len() == 0,
            ) is Ok,
        ensures
            final(builder).wf(),
            id == self.object_id,
            final(builder).motions().len() == old(builder).motions().len() + 1,
            final(builder).motions().subrange(0, old(builder).motions().len() as int) == old(builder).motions(),
            final(builder).motions().last() matches Motion::AddObject(a) && a.object_id
                == self.object_id && a.rooted == (old(builder).open_parts().len() == 0)
                && a.object.object_kind@ == self.object@.kind && a.object.transform
                == DynamicTransform::spec_literal(self.object.transform) && final(builder).spec_added(old(builder), a, Ok(id)),
            old(builder).tree().spec_add(
                self.object_id,
                self.object@,
                old(builder).open_parts().len() == 0,
            ) == Ok::<TreeView, Fault>(final(builder).tree()),
    {
        match self.try_add(builder) {
            Ok(id) => id,
            Err(_) => unreached(),
        }
    }
}

impl<H> Handle<H> {
    /// The motion that moves the object from where it is to `pos`.
    pub fn move_to(&self, pos: DynamicPoint) -> (m: MoveTo)
        ensures
            m.to == pos,
            m.object_id == self.object_id,
    {
        MoveTo { to: pos, object_id: self.object_id }
    }

    /// The motion that moves the object from `from` to `to`.
    pub fn mv(&self, from: DynamicPoint, to: DynamicPoint) -> (m: Move)
        ensures
            m.from == from,
            m.to == to,
            m.object_id == self.object_id,
    {
        Move { from, to, object_id: self.object_id }
    }

    /// The motion that lets the object appear.
    pub fn fade_in(&self) -> (m: FadeIn)
        ensures
            m.object_id == self.object_id,
    {
        FadeIn { object_id: self.object_id }
    }
}

impl<'a> AnimationBuilder<'a> {
    /// The authoring tree that the motions start from.
    pub closed spec fn tree(&self) -> TreeView {
        self.state.world@.objects
    }

    /// The object that the motions are for.
    pub closed spec fn target(&self) -> ObjectId {
        self.object_id
    }

    /// The motions collected so far.
    pub closed spec fn built(&self) -> Seq<Motion> {
        self.animations@
    }

    /// Hands out the motions collected.
    pub fn finish(self) -> (motions: Vec<Motion>)
        ensures
            motions@ == self.built(),
    {
        self.animations
    }

    /// The motion that takes the target from where it stands to the
    /// placement `f` of where it stands.
    pub open spec fn spec_step(&self, f: spec_fn(Transform) -> Transform) -> Result<
        AnimateTransform,
        Fault,
    > {
        match self.tree().spec_transform_of(self.target()) {
            Err(e) => Err(e),
            Ok(t) => Ok(AnimateTransform { object_id: self.target(), from: t, to: f(t) }),
        }
    }

    fn step(self, to: Transform, Ghost(f): Ghost<spec_fn(Transform) -> Transform>) -> (r: Result<
        AnimationBuilder<'a>,
        Fault,
    >)
        requires
            self.tree().spec_transform_of(self.target()) matches Ok(t) ==> to == f(t),
        ensures
            match self.spec_step(f) {
                Err(e) => r is Err && r->Err_0 == e,
                Ok(a) => r matches Ok(b) && b.tree() == self.tree() && b.target() == self.target()
                    && b.built().len() == self.built().len() + 1 && b.built().subrange(
                    0,
                    self.built().len() as int,
                ) == self.built() && b.built().last() == Motion::AnimateTransform(a),
            },
    {
        match self.state.world.objects.try_transform_of(self.object_id) {
            Err(e) => Err(e),
            Ok(from) => {
                let mut b = self;
                let ghost before = b.animations@;
                b.animations.push(
                    Motion::AnimateTransform(
                        AnimateTransform { object_id: b.object_id, from, to },
                    ),
                );
                assert(b.animations@.subrange(0, before.len() as int) =~= before);
                Ok(b)
            },
        }
    }

    fn here(&self) -> (t: Transform)
        ensures
            self.tree().spec_transform_of(self.target()) matches Ok(x) ==> t == x,
    {
        match self.state.world.objects.try_transform_of(self.object_id) {
            Err(_) => Transform::identity(),
            Ok(t) => t,
        }
    }

    /// Adds the motion that moves the target to `end`.
    pub fn try_translate(self, end: Point) -> (r: Result<AnimationBuilder<'a>, Fault>)
        ensures
            match self.spec_step(|t: Transform| Transform { position: end, ..t }) {
                Err(e) => r is Err && r->Err_0 == e,
                Ok(a) => r matches Ok(b) && b.tree() == self.tree() && b.target() == self.target()
                    && b.built().len() == self.built().len() + 1 && b.built().subrange(
                    0,
                    self.built().len() as int,
                ) == self.built() && b.built().last() == Motion::AnimateTransform(a),
            },
    {
        let to: Transform = self.here().with_position(end);
        self.step(to, Ghost(|t: Transform| Transform { position: end, ..t }))
    }

    /// Adds the motion that moves the target to `end`. The target must be stored in the authoring tree.
    pub fn translate(self, end: Point) -> (b: AnimationBuilder<'a>)
        requires
            self.tree().objects.contains_key(self.target()),
        ensures
            b.tree() == self.tree(),
            b.target() == self.target(),
            self.spec_step(|t: Transform| Transform { position: end, ..t }) matches Ok(a) && b.built() == self.built().push(
                Motion::AnimateTransform(a),
            ),
    {
        let ghost before = self.built();
        match self.try_translate(end) {
            Ok(b) => {
                assert(b.built() =~= before.push(b.built().last()));
                b
            },
            Err(_) => unreached(),
        }
    }

    /// Adds the motion that turns the target to `rotation`.
    pub fn try_rotate(self, rotation: Scalar) -> (r: Result<AnimationBuilder<'a>, Fault>)
        ensures
            match self.spec_step(|t: Transform| Transform { rotation, ..t }) {
                Err(e) => r is Err && r->Err_0 == e,
                Ok(a) => r matches Ok(b) && b.tree() == self.tree() && b.target() == self.target()
                    && b.built().len() == self.built().len() + 1 && b.built().subrange(
                    0,
                    self.built().len() as int,
                ) == self.built() && b.built().last() == Motion::AnimateTransform(a),
            },
    {
        let to: Transform = self.here().with_rotation(rotation);
        self.step(to, Ghost(|t: Transform| Transform { rotation, ..t }))
    }

    /// Adds the motion that turns the target to `rotation`. The target must be stored in the authoring tree.
    pub fn rotate(self, rotation: Scalar) -> (b: AnimationBuilder<'a>)
        requires
            self.tree().objects.contains_key(self.target()),
        ensures
            b.tree() == self.tree(),
            b.target() == self.target(),
            self.spec_step(|t: Transform| Transform { rotation, ..t }) matches Ok(a) && b.built() == self.built().push(
                Motion::AnimateTransform(a),
            ),
    {
        let ghost before = self.built();
        match self.try_rotate(rotation) {
            Ok(b) => {
                assert(b.built() =~= before.push(b.built().last()));
                b
            },
            Err(_) => unreached(),
        }
    }

    /// Adds the motion that scales the target to `scale`.
    pub fn try_scale(self, scale: Scalar) -> (r: Result<AnimationBuilder<'a>, Fault>)
        ensures
            match self.spec_step(|t: Transform| Transform { scale, ..t }) {
                Err(e) => r is Err && r->Err_0 == e,
                Ok(a) => r matches Ok(b) && b.tree() == self.tree() && b.target() == self.target()
                    && b.built().len() == self.built().len() + 1 && b.built().subrange(
                    0,
                    self.built().len() as int,
                ) == self.built() && b.built().last() == Motion::AnimateTransform(a),
            },
    {
        let to: Transform = self.here().with_scale(scale);
        self.step(to, Ghost(|t: Transform| Transform { scale, ..t }))
    }

    /// Adds the motion that scales the target to `scale`. The target must be stored in the authoring tree.
    pub fn scale(self, scale: Scalar) -> (b: AnimationBuilder<'a>)
        requires
            self.tree().objects.contains_key(self.target()),
        ensures
            b.tree() == self.tree(),
            b.target() == self.target(),
            self.spec_step(|t: Transform| Transform { scale, ..t }) matches Ok(a) && b.built() == self.built().push(
                Motion::AnimateTransform(a),
            ),
    {
        let ghost before = self.built();
        match self.try_scale(scale) {
            Ok(b) => {
                assert(b.built() =~= before.push(b.built().last()));
                b
            },
            Err(_) => unreached(),
        }
    }

    /// Adds the motion that moves the target so that its centre comes to
    /// lie on the point that `pos` picks on the bounds of its own target.
    pub fn try_move_to(self, pos: Alignment) -> (r: Result<AnimationBuilder<'a>, Fault>)
        ensures
            match pos.spec_position(self.target(), self.tree()) {
                Err(e) => r is Err && r->Err_0 == e,
                Ok(end) => match self.spec_step(|t: Transform| Transform { position: end, ..t }) {
                    Err(e) => r is Err && r->Err_0 == e,
                    Ok(a) => r matches Ok(b) && b.tree() == self.tree() && b.target()
                        == self.target() && b.built().len() == self.built().len() + 1
                        && b.built().subrange(0, self.built().len() as int)
                        == self.built() && b.built().last() == Motion::AnimateTransform(a),
                },
            },
    {
        match pos.try_position(self.object_id, &self.state.world.objects) {
            Err(e) => Err(e),
            Ok(end) => self.try_translate(end),
        }
    }

    /// Adds the motion that moves the target so that its centre comes to
    /// lie on the point that `pos` picks. The target of the motion and the
    /// target of `pos`, with all below them, must be stored in the
    /// authoring tree.
    pub fn move_to(self, pos: Alignment) -> (b: AnimationBuilder<'a>)
        requires
            pos.spec_position(self.target(), self.tree()) is Ok,
            self.tree().objects.contains_key(self.target()),
        ensures
            b.tree() == self.tree(),
            b.target() == self.target(),
            pos.spec_position(self.target(), self.tree()) matches Ok(end) && (self.spec_step(
                |t: Transform| Transform { position: end, ..t },
            ) matches Ok(a) && b.built() == self.built().push(Motion::AnimateTransform(a))),
    {
        let ghost before = self.built();
        match self.try_move_to(pos) {
            Ok(b) => {
                assert(b.built() =~= before.push(b.built().last()));
                b
            },
            Err(_) => unreached(),
        }
    }

    /// Adds the motion that lets the target appear.
    pub fn fade_in(self) -> (b: AnimationBuilder<'a>)
        ensures
            b.tree() == self.tree(),
            b.target() == self.target(),
            b.built() == self.built().push(
                Motion::FadeIn(FadeIn { object_id: self.target() }),
            ),
    {
        let mut b = self;
        b.animations.push(Motion::FadeIn(FadeIn { object_id: b.object_id }));
        b
    }
}

} // verus!
