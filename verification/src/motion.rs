//! Motions: what a timeline is made of.
//!
//! A motion changes a world, given how far it has progressed. Leaf effects
//! change one object or one variable. Composite motions hand progress on to
//! other motions of the same registry, which they name by index: a motion
//! may be shared, and may be named before it is registered.

use vstd::prelude::*;
use vstd::pervasive::unreached;
use crate::alpha::{Alpha, Scalar, Time};
use crate::dynamics::{DynamicObject, DynamicPoint, DynamicScalar, DynamicTransform};
use crate::easing::Easing;
use crate::fault::Fault;
use crate::geometry::{Point, Transform};
use crate::object::{KindView, Model, Object, ObjectId, ObjectKind, ObjectView};
use crate::object_tree::TreeView;
use crate::properties::{
    PointProperty,
    Position,
    PropertyType,
    ScalarProperty,
    TransformProperty,
};
use crate::timing::{MotionId, Timed, Window};
use crate::world::{Variable, World, WorldView};

verus! {

/// Where an animated property starts from.
pub enum Start<T> {
    /// Nowhere: the target is written as it is, whatever the progress.
    Immediate,
    /// A given value.
    From(T),
    /// The value that the property has when the motion runs.
    Current,
}

/// A start that is lent, not owned.
pub enum StartRef<'a, T> {
    Immediate,
    From(&'a T),
    Current,
}

/// Writes a property of an object: a value as it is, or one between a
/// start and a target, by the progress of the motion.
pub enum PropertyMotion {
    Point(PointProperty, Start<DynamicPoint>, DynamicPoint),
    Scalar(ScalarProperty, Start<DynamicScalar>, DynamicScalar),
    Transform(TransformProperty, Start<DynamicTransform>, DynamicTransform),
}

/// Stores an object. It takes no time.
pub struct AddObject {
    pub object_id: ObjectId,
    pub object: DynamicObject,
    pub rooted: bool,
}

/// Moves an object from one point to another.
pub struct Move {
    pub from: DynamicPoint,
    pub to: DynamicPoint,
    pub object_id: ObjectId,
}

/// Moves an object from where it is to a point.
pub struct MoveTo {
    pub to: DynamicPoint,
    pub object_id: ObjectId,
}

/// Takes an object from one placement to another.
#[derive(Clone, Copy, Debug)]
pub struct AnimateTransform {
    pub object_id: ObjectId,
    pub from: Transform,
    pub to: Transform,
}

/// Places an object. It takes no time.
pub struct SetTransform {
    pub object_id: ObjectId,
    pub transform: DynamicTransform,
}

/// Writes a variable. It takes no time.
pub struct SetVariable {
    pub var: Variable,
    pub value: DynamicScalar,
}

/// Lets an object, and all below it, appear: scales the alpha channel of
/// every fill and stroke by the progress of the motion.
#[derive(Clone, Copy, Debug)]
pub struct FadeIn {
    pub object_id: ObjectId,
}

/// Maps a window of the progress it is given onto a window of the progress
/// of another motion. Before the window opens the other motion is not run
/// at all; after it is over the other motion stays at the end of its window.
#[derive(Clone, Copy, Debug)]
pub struct Keyframe {
    pub from: Window,
    pub to: Window,
    pub motion: MotionId,
}

/// Runs another motion to its end, from a point in time on.
#[derive(Clone, Copy, Debug)]
pub struct Trigger {
    pub time: Alpha,
    pub motion: MotionId,
}

/// A whole scene, played inside another at its own speed and placed as one
/// group.
pub struct EmbededScene {
    pub scene: Scene,
    pub transform: DynamicTransform,
    /// In millionths: `UNIT` plays the scene at its own pace.
    pub speed: Scalar,
    pub object_id: ObjectId,
    pub rooted: bool,
}

/// A leaf effect of the user's own: what it does to a world is for the
/// user to say and to keep.
pub trait Effect {
    /// The world after the effect has run at progress `alpha`.
    spec fn spec_apply(&self, w: WorldView, alpha: Alpha) -> Result<WorldView, Fault>;

    /// Runs the effect on `world` at progress `alpha`, or says which fault
    /// that is.
    fn try_animate(&self, world: &mut World, alpha: Alpha) -> (r: Result<(), Fault>)
        requires
            old(world).wf(),
            alpha.wf(),
        ensures
            final(world).wf(),
            match self.spec_apply(old(world)@, alpha) {
                Ok(w) => r is Ok && final(world)@ == w,
                Err(e) => r == Err::<(), Fault>(e),
            },
    ;
}

/// Runs an effect on a world that it fits.
pub fn animate_effect(effect: &dyn Effect, world: &mut World, alpha: Alpha)
    requires
        old(world).wf(),
        alpha.wf(),
        effect.spec_apply(old(world)@, alpha) is Ok,
    ensures
        final(world).wf(),
        effect.spec_apply(old(world)@, alpha) == Ok::<WorldView, Fault>(final(world)@),
{
    match effect.try_animate(world, alpha) {
        Ok(()) => {},
        Err(_) => unreached(),
    }
}

/// Something that changes a world, given how far it has progressed.
pub enum Motion {
    /// One child after the other, each for its duration.
    Sequence(Vec<Timed>),
    /// All children at once, each for its duration.
    Concurrently(Vec<Timed>),
    Keyframe(Keyframe),
    Trigger(Trigger),
    /// Another motion, its progress bent by a curve.
    Eased(Easing, MotionId),
    EmbeddedScene(EmbededScene),
    AddObject(AddObject),
    Move(Move),
    MoveTo(MoveTo),
    AnimateTransform(AnimateTransform),
    SetTransform(SetTransform),
    SetVariable(SetVariable),
    FadeIn(FadeIn),
    Property(PropertyMotion),
    /// An effect that is not one of the above.
    Effect(Box<dyn Effect>),
    /// Nothing, for as long as it is given.
    Wait,
}

/// A motion with the time it takes and the curve that bends its progress.
pub struct MotionAnimation {
    pub duration: Time,
    pub motion: Motion,
    pub easing: Easing,
}

/// A finished timeline: a registry of motions, the one to start from, and
/// the time the whole takes.
pub struct Scene {
    pub motions: Vec<Motion>,
    pub root: MotionId,
    pub length: Time,
}

/// The tree after the object stored as `id`, and all below it, have faded
/// to `a`. An object is taken out of the tree while those below it fade and
/// is stored again afterwards, so a group that holds itself misses itself.
pub open spec fn spec_fade(tree: TreeView, a: Alpha, id: ObjectId, depth: nat) -> Result<
    TreeView,
    Fault,
>
    decreases depth, 1nat, 0nat,
{
    if !tree.objects.contains_key(id) {
        Err(Fault::MissingObject(id))
    } else {
        let object = tree.objects[id];
        let rest = tree.spec_remove(id);
        match object.kind {
            KindView::Model(m) => rest.spec_add(
                id,
                ObjectView {
                    kind: KindView::Model(Model { material: m.material.spec_faded(a), ..m }),
                    transform: object.transform,
                },
                false,
            ),
            KindView::Group(c) => match spec_fade_children(rest, a, c, c.len(), depth) {
                Err(e) => Err(e),
                Ok(t) => t.spec_add(id, object, false),
            },
        }
    }
}

/// The tree after the first `n` of `children` have faded.
pub open spec fn spec_fade_children(
    tree: TreeView,
    a: Alpha,
    children: Seq<ObjectId>,
    n: nat,
    depth: nat,
) -> Result<TreeView, Fault>
    decreases depth, 0nat, n,
{
    if n == 0 {
        Ok(tree)
    } else {
        match spec_fade_children(tree, a, children, (n - 1) as nat, depth) {
            Err(e) => Err(e),
            Ok(t) => if depth == 0 {
                Err(Fault::TooDeep)
            } else {
                spec_fade(t, a, children[n - 1], (depth - 1) as nat)
            },
        }
    }
}

/// Once a child has failed to fade, the group fails in the same way.
pub proof fn lemma_fade_children_err(
    tree: TreeView,
    a: Alpha,
    children: Seq<ObjectId>,
    i: nat,
    n: nat,
    depth: nat,
)
    requires
        i <= n,
    ensures
        spec_fade_children(tree, a, children, i, depth) is Err ==> spec_fade_children(
            tree,
            a,
            children,
            n,
            depth,
        ) == spec_fade_children(tree, a, children, i, depth),
    decreases n,
{
    if i < n {
        lemma_fade_children_err(tree, a, children, i, (n - 1) as nat, depth);
    }
}

/// Fades the object stored as `object_id`, and all below it, to `alpha`.
/// Groups may be nested `depth` deep.
#[verifier::loop_isolation(false)]
pub fn try_fade_in(world: &mut World, alpha: Alpha, object_id: ObjectId, depth: usize) -> (r: Result<
    (),
    Fault,
>)
    requires
        old(world).wf(),
        alpha.wf(),
    ensures
        final(world).wf(),
        match spec_fade(old(world)@.objects, alpha, object_id, depth as nat) {
            Ok(t) => r is Ok && final(world)@ == old(world)@.with_objects(t),
            Err(e) => r == Err::<(), Fault>(e),
        },
    decreases depth,
{
    let ghost start = world@;
    match world.objects.remove(object_id) {
        None => Err(Fault::MissingObject(object_id)),
        Some(object) => {
            let ghost rest = world@.objects;
            let Object { object_kind, transform } = object;
            match object_kind {
                ObjectKind::Model(m) => {
                    let faded = Model {
                        shape: m.shape,
                        bounds: m.bounds,
                        material: m.material.faded(alpha),
                    };
                    world.objects.try_add(
                        object_id,
                        Object { object_kind: ObjectKind::Model(faded), transform },
                        false,
                    )
                },
                ObjectKind::Group(children) => {
                    let mut i: usize = 0;
                    while i < children.len()
                        invariant
                            i <= children.len(),
                            world.wf(),
                            world@.render_size == start.render_size,
                            world@.variables == start.variables,
                            spec_fade_children(rest, alpha, children@, i as nat, depth as nat)
                                == Ok::<TreeView, Fault>(world@.objects),
                        decreases children.len() - i,
                    {
                        proof {
                            lemma_fade_children_err(
                                rest,
                                alpha,
                                children@,
                                (i + 1) as nat,
                                children@.len(),
                                depth as nat,
                            );
                        }
                        if depth == 0 {
                            return Err(Fault::TooDeep);
                        }
                        match try_fade_in(world, alpha, children[i], depth - 1) {
                            Err(e) => {
                                return Err(e);
                            },
                            Ok(()) => {},
                        }
                        i = i + 1;
                    }
                    world.objects.try_add(
                        object_id,
                        Object { object_kind: ObjectKind::Group(children), transform },
                        false,
                    )
                },
            }
        },
    }
}

/// Fades the object stored as `object_id`, and all below it, to `alpha`.
/// Fading what is not stored is a fault of the scene.
pub fn fade_in(world: &mut World, alpha: Alpha, object_id: ObjectId)
    requires
        old(world).wf(),
        alpha.wf(),
        spec_fade(old(world)@.objects, alpha, object_id, old(world)@.objects.objects.len()) is Ok,
    ensures
        final(world).wf(),
        spec_fade(old(world)@.objects, alpha, object_id, old(world)@.objects.objects.len())
            matches Ok(t) && final(world)@ == old(world)@.with_objects(t),
{
    let depth: usize = world.objects.len();
    match try_fade_in(world, alpha, object_id, depth) {
        Ok(()) => {},
        Err(_) => unreached(),
    }
}

impl<T> Start<T> {
    /// The same start, lent.
    pub fn by_ref(&self) -> (r: StartRef<'_, T>)
        ensures
            r.spec_owned() == *self,
    {
        match self {
            Start::Immediate => StartRef::Immediate,
            Start::From(f) => StartRef::From(f),
            Start::Current => StartRef::Current,
        }
    }
}

impl<'a, T> StartRef<'a, T> {
    /// The same start, owned.
    pub open spec fn spec_owned(self) -> Start<T> {
        match self {
            StartRef::Immediate => Start::Immediate,
            StartRef::From(f) => Start::From(*f),
            StartRef::Current => Start::Current,
        }
    }
}

/// The world after the point that stands between `start` and `to`, as far
/// as `alpha` says, has been written to the property.
pub open spec fn spec_write_point(
    p: PointProperty,
    start: Start<DynamicPoint>,
    to: DynamicPoint,
    w: WorldView,
    alpha: Alpha,
) -> Result<WorldView, Fault> {
    match start {
        Start::Immediate => match to.spec_get(w) {
            Err(e) => Err(e),
            Ok(b) => p.spec_update(w, b),
        },
        Start::From(from) => match from.spec_get(w) {
            Err(e) => Err(e),
            Ok(a) => match to.spec_get(w) {
                Err(e) => Err(e),
                Ok(b) => p.spec_update(w, a.spec_interpolate(b, alpha)),
            },
        },
        Start::Current => match p.spec_get(w) {
            Err(e) => Err(e),
            Ok(a) => match to.spec_get(w) {
                Err(e) => Err(e),
                Ok(b) => p.spec_update(w, a.spec_interpolate(b, alpha)),
            },
        },
    }
}

/// The world after the number that stands between `start` and `to`, as far
/// as `alpha` says, has been written to the property.
pub open spec fn spec_write_scalar(
    p: ScalarProperty,
    start: Start<DynamicScalar>,
    to: DynamicScalar,
    w: WorldView,
    alpha: Alpha,
) -> Result<WorldView, Fault> {
    match start {
        Start::Immediate => match to.spec_get(w) {
            Err(e) => Err(e),
            Ok(b) => p.spec_update(w, b),
        },
        Start::From(from) => match from.spec_get(w) {
            Err(e) => Err(e),
            Ok(a) => match to.spec_get(w) {
                Err(e) => Err(e),
                Ok(b) => p.spec_update(w, crate::alpha::spec_lerp(a as int, b as int, alpha) as i64),
            },
        },
        Start::Current => match p.spec_get(w) {
            Err(e) => Err(e),
            Ok(a) => match to.spec_get(w) {
                Err(e) => Err(e),
                Ok(b) => p.spec_update(w, crate::alpha::spec_lerp(a as int, b as int, alpha) as i64),
            },
        },
    }
}

/// The world after the placement that stands between `start` and `to`, as
/// far as `alpha` says, has been written to the property.
pub open spec fn spec_write_transform(
    p: TransformProperty,
    start: Start<DynamicTransform>,
    to: DynamicTransform,
    w: WorldView,
    alpha: Alpha,
) -> Result<WorldView, Fault> {
    match start {
        Start::Immediate => match to.spec_get(w) {
            Err(e) => Err(e),
            Ok(b) => p.spec_update(w, b),
        },
        Start::From(from) => match from.spec_get(w) {
            Err(e) => Err(e),
            Ok(a) => match to.spec_get(w) {
                Err(e) => Err(e),
                Ok(b) => p.spec_update(w, a.spec_interpolate(b, alpha)),
            },
        },
        Start::Current => match p.spec_get(w) {
            Err(e) => Err(e),
            Ok(a) => match to.spec_get(w) {
                Err(e) => Err(e),
                Ok(b) => p.spec_update(w, a.spec_interpolate(b, alpha)),
            },
        },
    }
}

/// Resolves start and target against the world, start first, and writes
/// the point between them to the property.
pub fn try_write_point(
    p: PointProperty,
    start: StartRef<'_, DynamicPoint>,
    to: &DynamicPoint,
    world: &mut World,
    alpha: Alpha,
) -> (r: Result<(), Fault>)
    requires
        old(world).wf(),
        alpha.wf(),
    ensures
        final(world).wf(),
        match spec_write_point(p, start.spec_owned(), *to, old(world)@, alpha) {
            Ok(w) => r is Ok && final(world)@ == w,
            Err(e) => r == Err::<(), Fault>(e) && final(world)@ == old(world)@,
        },
{
    let from: Option<Point> = match start {
        StartRef::Immediate => None,
        StartRef::From(f) => match f.try_get(world) {
            Err(e) => {
                return Err(e);
            },
            Ok(a) => Some(a),
        },
        StartRef::Current => match p.try_get(world) {
            Err(e) => {
                return Err(e);
            },
            Ok(a) => Some(a),
        },
    };
    match to.try_get(world) {
        Err(e) => Err(e),
        Ok(b) => match from {
            None => p.try_update(world, b),
            Some(a) => p.try_update(world, a.interpolate(&b, alpha)),
        },
    }
}

/// Writes the value between `start` and `to`, as `try_write_point` does, to the
/// property of an object that is stored.
pub fn write_point(
    p: PointProperty,
    start: StartRef<'_, DynamicPoint>,
    to: &DynamicPoint,
    world: &mut World,
    alpha: Alpha,
)
    requires
        old(world).wf(),
        alpha.wf(),
        spec_write_point(p, start.spec_owned(), *to, old(world)@, alpha) is Ok,
    ensures
        final(world).wf(),
        spec_write_point(p, start.spec_owned(), *to, old(world)@, alpha) == Ok::<WorldView, Fault>(
            final(world)@,
        ),
{
    match try_write_point(p, start, to, world, alpha) {
        Ok(()) => {},
        Err(_) => unreached(),
    }
}

/// Resolves start and target against the world, start first, and writes
/// the number between them to the property.
pub fn try_write_scalar(
    p: ScalarProperty,
    start: StartRef<'_, DynamicScalar>,
    to: &DynamicScalar,
    world: &mut World,
    alpha: Alpha,
) -> (r: Result<(), Fault>)
    requires
        old(world).wf(),
        alpha.wf(),
    ensures
        final(world).wf(),
        match spec_write_scalar(p, start.spec_owned(), *to, old(world)@, alpha) {
            Ok(w) => r is Ok && final(world)@ == w,
            Err(e) => r == Err::<(), Fault>(e) && final(world)@ == old(world)@,
        },
{
    let from: Option<Scalar> = match start {
        StartRef::Immediate => None,
        StartRef::From(f) => match f.try_get(world) {
            Err(e) => {
                return Err(e);
            },
            Ok(a) => Some(a),
        },
        StartRef::Current => match p.try_get(world) {
            Err(e) => {
                return Err(e);
            },
            Ok(a) => Some(a),
        },
    };
    match to.try_get(world) {
        Err(e) => Err(e),
        Ok(b) => match from {
            None => p.try_update(world, b),
            Some(a) => p.try_update(world, crate::alpha::lerp(a, b, alpha)),
        },
    }
}

/// Writes the value between `start` and `to`, as `try_write_scalar` does, to the
/// property of an object that is stored.
pub fn write_scalar(
    p: ScalarProperty,
    start: StartRef<'_, DynamicScalar>,
    to: &DynamicScalar,
    world: &mut World,
    alpha: Alpha,
)
    requires
        old(world).wf(),
        alpha.wf(),
        spec_write_scalar(p, start.spec_owned(), *to, old(world)@, alpha) is Ok,
    ensures
        final(world).wf(),
        spec_write_scalar(p, start.spec_owned(), *to, old(world)@, alpha) == Ok::<WorldView, Fault>(
            final(world)@,
        ),
{
    match try_write_scalar(p, start, to, world, alpha) {
        Ok(()) => {},
        Err(_) => unreached(),
    }
}

/// Resolves start and target against the world, start first, and writes
/// the placement between them to the property.
pub fn try_write_transform(
    p: TransformProperty,
    start: StartRef<'_, DynamicTransform>,
    to: &DynamicTransform,
    world: &mut World,
    alpha: Alpha,
) -> (r: Result<(), Fault>)
    requires
        old(world).wf(),
        alpha.wf(),
    ensures
        final(world).wf(),
        match spec_write_transform(p, start.spec_owned(), *to, old(world)@, alpha) {
            Ok(w) => r is Ok && final(world)@ == w,
            Err(e) => r == Err::<(), Fault>(e) && final(world)@ == old(world)@,
        },
{
    let from: Option<Transform> = match start {
        StartRef::Immediate => None,
        StartRef::From(f) => match f.try_get(world) {
            Err(e) => {
                return Err(e);
            },
            Ok(a) => Some(a),
        },
        StartRef::Current => match p.try_get(world) {
            Err(e) => {
                return Err(e);
            },
            Ok(a) => Some(a),
        },
    };
    match to.try_get(world) {
        Err(e) => Err(e),
        Ok(b) => match from {
            None => p.try_update(world, b),
            Some(a) => p.try_update(world, a.interpolate(&b, alpha)),
        },
    }
}

/// Writes the value between `start` and `to`, as `try_write_transform` does, to the
/// property of an object that is stored.
pub fn write_transform(
    p: TransformProperty,
    start: StartRef<'_, DynamicTransform>,
    to: &DynamicTransform,
    world: &mut World,
    alpha: Alpha,
)
    requires
        old(world).wf(),
        alpha.wf(),
        spec_write_transform(p, start.spec_owned(), *to, old(world)@, alpha) is Ok,
    ensures
        final(world).wf(),
        spec_write_transform(p, start.spec_owned(), *to, old(world)@, alpha) == Ok::<WorldView, Fault>(
            final(world)@,
        ),
{
    match try_write_transform(p, start, to, world, alpha) {
        Ok(()) => {},
        Err(_) => unreached(),
    }
}

impl PropertyMotion {
    /// The world after the property has been written.
    pub open spec fn spec_animate(self, w: WorldView, alpha: Alpha) -> Result<WorldView, Fault> {
        match self {
            PropertyMotion::Point(p, start, to) => spec_write_point(p, start, to, w, alpha),
            PropertyMotion::Scalar(p, start, to) => spec_write_scalar(p, start, to, w, alpha),
            PropertyMotion::Transform(p, start, to) => spec_write_transform(p, start, to, w, alpha),
        }
    }

    /// Resolves start and target against the world, start first, and
    /// writes the property.
    pub fn try_animate(&self, world: &mut World, alpha: Alpha) -> (r: Result<(), Fault>)
        requires
            old(world).wf(),
            alpha.wf(),
        ensures
            final(world).wf(),
            match self.spec_animate(old(world)@, alpha) {
                Ok(w) => r is Ok && final(world)@ == w,
                Err(e) => r == Err::<(), Fault>(e) && final(world)@ == old(world)@,
            },
    {
        match self {
            PropertyMotion::Point(p, start, to) => try_write_point(*p, start.by_ref(), to, world, alpha),
            PropertyMotion::Scalar(p, start, to) => try_write_scalar(
                *p,
                start.by_ref(),
                to,
                world,
                alpha,
            ),
            PropertyMotion::Transform(p, start, to) => try_write_transform(
                *p,
                start.by_ref(),
                to,
                world,
                alpha,
            ),
        }
    }

    /// Writes the property of an object that is stored, from values that the
    /// world holds.
    pub fn animate(&self, world: &mut World, alpha: Alpha)
        requires
            old(world).wf(),
            alpha.wf(),
            self.spec_animate(old(world)@, alpha) is Ok,
        ensures
            final(world).wf(),
            self.spec_animate(old(world)@, alpha) == Ok::<WorldView, Fault>(final(world)@),
    {
        match self.try_animate(world, alpha) {
            Ok(()) => {},
            Err(_) => unreached(),
        }
    }
}

impl Motion {
    /// The motion, to take `duration`, with its progress left as it is.
    pub fn with_duration(self, duration: Time) -> (a: MotionAnimation)
        ensures
            a.duration == duration,
            a.motion == self,
            a.easing == Easing::Linear,
    {
        MotionAnimation { motion: self, duration, easing: Easing::Linear }
    }

    /// The motions that this one hands its progress on to, in their order.
    pub open spec fn spec_children(self) -> Seq<MotionId> {
        match self {
            Motion::Sequence(items) => items@.map_values(|t: Timed| t.0),
            Motion::Concurrently(items) => items@.map_values(|t: Timed| t.0),
            Motion::Keyframe(k) => seq![k.motion],
            Motion::Trigger(t) => seq![t.motion],
            Motion::Eased(_, m) => seq![m],
            _ => Seq::empty(),
        }
    }
}

impl MotionAnimation {
    /// The same motion over the same time, bent by `easing`.
    pub fn with_easing(self, easing: Easing) -> (a: MotionAnimation)
        ensures
            a.duration == self.duration,
            a.motion == self.motion,
            a.easing == easing,
    {
        let MotionAnimation { duration, motion, easing: _ } = self;
        MotionAnimation { duration, motion, easing }
    }

    /// The time that the motion takes.
    pub fn duration(&self) -> (d: Time)
        ensures
            d == self.duration,
    {
        self.duration
    }
}

/// What a user interface shows of a motion: a name, and the motions below
/// it.
pub trait MotionGenericUi {
    /// The motions below this one, in their order.
    spec fn spec_ui_children(&self) -> Seq<MotionId>;

    /// The name that is shown for the motion.
    spec fn spec_ui_label(&self) -> Seq<char>;

    /// A name for the kind of motion.
    fn label(&self) -> (l: &'static str)
        ensures
            l@ == self.spec_ui_label(),
    ;

    /// The motions below this one, in their order; none for a leaf.
    fn children(&self) -> (c: Vec<MotionId>)
        ensures
            c@ == self.spec_ui_children(),
    ;
}

/// The names of the children of a composite motion.
pub fn names_of(items: &Vec<Timed>) -> (out: Vec<MotionId>)
    ensures
        out@ == items@.map_values(|t: Timed| t.0),
{
    let mut out: Vec<MotionId> = Vec::new();
    let mut i: usize = 0;
    while i < items.len()
        invariant
            i <= items.len(),
            out@ == items@.subrange(0, i as int).map_values(|t: Timed| t.0),
        decreases items.len() - i,
    {
        out.push(items[i].0);
        i = i + 1;
        assert(out@ =~= items@.subrange(0, i as int).map_values(|t: Timed| t.0));
    }
    assert(items@.subrange(0, i as int) =~= items@);
    out
}

impl MotionGenericUi for Motion {
    open spec fn spec_ui_children(&self) -> Seq<MotionId> {
        self.spec_children()
    }

    open spec fn spec_ui_label(&self) -> Seq<char> {
        match self {
            Motion::Sequence(_) => "Sequence"@,
            Motion::Concurrently(_) => "Concurrently"@,
            Motion::Keyframe(_) => "Keyframe"@,
            Motion::Trigger(_) => "Trigger"@,
            Motion::Eased(_, _) => "Eased"@,
            Motion::EmbeddedScene(_) => "Embedded Scene"@,
            Motion::AddObject(_) => "Add Object"@,
            Motion::Move(_) => "Move"@,
            Motion::MoveTo(_) => "Move To"@,
            Motion::AnimateTransform(_) => "Animate Transform"@,
            Motion::SetTransform(_) => "Set Transform"@,
            Motion::SetVariable(_) => "Set Variable"@,
            Motion::FadeIn(_) => "Fade In"@,
            Motion::Property(_) => "Property"@,
            Motion::Effect(_) => "Effect"@,
            Motion::Wait => "Noop"@,
        }
    }

    fn label(&self) -> (l: &'static str) {
        match self {
            Motion::Sequence(_) => "Sequence",
            Motion::Concurrently(_) => "Concurrently",
            Motion::Keyframe(_) => "Keyframe",
            Motion::Trigger(_) => "Trigger",
            Motion::Eased(_, _) => "Eased",
            Motion::EmbeddedScene(_) => "Embedded Scene",
            Motion::AddObject(_) => "Add Object",
            Motion::Move(_) => "Move",
            Motion::MoveTo(_) => "Move To",
            Motion::AnimateTransform(_) => "Animate Transform",
            Motion::SetTransform(_) => "Set Transform",
            Motion::SetVariable(_) => "Set Variable",
            Motion::FadeIn(_) => "Fade In",
            Motion::Property(_) => "Property",
            Motion::Effect(_) => "Effect",
            Motion::Wait => "Noop",
        }
    }

    fn children(&self) -> (c: Vec<MotionId>) {
        match self {
            Motion::Sequence(items) => names_of(items),
            Motion::Concurrently(items) => names_of(items),
            Motion::Keyframe(k) => {
                let mut c: Vec<MotionId> = Vec::new();
                c.push(k.motion);
                assert(c@ =~= seq![k.motion]);
                c
            },
            Motion::Trigger(t) => {
                let mut c: Vec<MotionId> = Vec::new();
                c.push(t.motion);
                assert(c@ =~= seq![t.motion]);
                c
            },
            Motion::Eased(_, m) => {
                let mut c: Vec<MotionId> = Vec::new();
                c.push(*m);
                assert(c@ =~= seq![*m]);
                c
            },
            _ => Vec::new(),
        }
    }
}

impl PointProperty {
    /// The motion that writes `value` to the property.
    pub fn set(self, value: DynamicPoint) -> (m: PropertyMotion)
        ensures
            m == PropertyMotion::Point(self, Start::Immediate, value),
    {
        PropertyMotion::Point(self, Start::Immediate, value)
    }

    /// The motion that takes the property from `from` to `to`.
    pub fn animate_from(self, from: DynamicPoint, to: DynamicPoint) -> (m: PropertyMotion)
        ensures
            m == PropertyMotion::Point(self, Start::From(from), to),
    {
        PropertyMotion::Point(self, Start::From(from), to)
    }

    /// The motion that takes the property from where it stands to `to`.
    pub fn animate(self, to: DynamicPoint) -> (m: PropertyMotion)
        ensures
            m == PropertyMotion::Point(self, Start::Current, to),
    {
        PropertyMotion::Point(self, Start::Current, to)
    }
}

impl ScalarProperty {
    /// The motion that writes `value` to the property.
    pub fn set(self, value: DynamicScalar) -> (m: PropertyMotion)
        ensures
            m == PropertyMotion::Scalar(self, Start::Immediate, value),
    {
        PropertyMotion::Scalar(self, Start::Immediate, value)
    }

    /// The motion that takes the property from `from` to `to`.
    pub fn animate_from(self, from: DynamicScalar, to: DynamicScalar) -> (m: PropertyMotion)
        ensures
            m == PropertyMotion::Scalar(self, Start::From(from), to),
    {
        PropertyMotion::Scalar(self, Start::From(from), to)
    }

    /// The motion that takes the property from where it stands to `to`.
    pub fn animate(self, to: DynamicScalar) -> (m: PropertyMotion)
        ensures
            m == PropertyMotion::Scalar(self, Start::Current, to),
    {
        PropertyMotion::Scalar(self, Start::Current, to)
    }
}

impl TransformProperty {
    /// The motion that writes `value` to the property.
    pub fn set(self, value: DynamicTransform) -> (m: PropertyMotion)
        ensures
            m == PropertyMotion::Transform(self, Start::Immediate, value),
    {
        PropertyMotion::Transform(self, Start::Immediate, value)
    }

    /// The motion that takes the property from `from` to `to`.
    pub fn animate_from(self, from: DynamicTransform, to: DynamicTransform) -> (m: PropertyMotion)
        ensures
            m == PropertyMotion::Transform(self, Start::From(from), to),
    {
        PropertyMotion::Transform(self, Start::From(from), to)
    }

    /// The motion that takes the property from where it stands to `to`.
    pub fn animate(self, to: DynamicTransform) -> (m: PropertyMotion)
        ensures
            m == PropertyMotion::Transform(self, Start::Current, to),
    {
        PropertyMotion::Transform(self, Start::Current, to)
    }
}

impl AddObject {
    /// The world after the object, placed as the world stands, has been
    /// stored.
    pub open spec fn spec_trigger(self, w: WorldView) -> Result<WorldView, Fault> {
        match self.object.spec_get(w) {
            Err(e) => Err(e),
            Ok(o) => match w.objects.spec_add(self.object_id, o, self.rooted) {
                Err(e) => Err(e),
                Ok(t) => Ok(w.with_objects(t)),
            },
        }
    }

    /// Resolves the object against the world and stores it.
    pub fn try_trigger(&self, world: &mut World) -> (r: Result<(), Fault>)
        requires
            old(world).wf(),
        ensures
            final(world).wf(),
            match self.spec_trigger(old(world)@) {
                Ok(w) => r is Ok && final(world)@ == w,
                Err(e) => r == Err::<(), Fault>(e) && final(world)@ == old(world)@,
            },
    {
        match self.object.try_get(world) {
            Err(e) => Err(e),
            Ok(object) => world.objects.try_add(self.object_id, object, self.rooted),
        }
    }

    /// Resolves the object against the world and stores it. Storing under
    /// a root that is not a group is a fault of the scene.
    pub fn trigger(&self, world: &mut World)
        requires
            old(world).wf(),
            self.spec_trigger(old(world)@) is Ok,
        ensures
            final(world).wf(),
            self.spec_trigger(old(world)@) == Ok::<WorldView, Fault>(final(world)@),
    {
        match self.try_trigger(world) {
            Ok(()) => {},
            Err(_) => unreached(),
        }
    }
}

impl Move {
    /// The same motion, as the animation of a property.
    pub open spec fn spec_motion(self) -> PropertyMotion {
        PropertyMotion::Point(
            PointProperty::Position(Position(self.object_id)),
            Start::From(self.from),
            self.to,
        )
    }

    /// Puts the object at the point between the two ends that matches the
    /// progress.
    pub fn try_animate(&self, world: &mut World, alpha: Alpha) -> (r: Result<(), Fault>)
        requires
            old(world).wf(),
            alpha.wf(),
        ensures
            final(world).wf(),
            match self.spec_motion().spec_animate(old(world)@, alpha) {
                Ok(w) => r is Ok && final(world)@ == w,
                Err(e) => r == Err::<(), Fault>(e) && final(world)@ == old(world)@,
            },
    {
        try_write_point(
            PointProperty::Position(Position(self.object_id)),
            StartRef::From(&self.from),
            &self.to,
            world,
            alpha,
        )
    }

    /// Puts the object at the point between the two ends that matches the
    /// progress. Moving an object that is not stored is a fault of the scene.
    pub fn animate(&self, world: &mut World, alpha: Alpha)
        requires
            old(world).wf(),
            alpha.wf(),
            self.spec_motion().spec_animate(old(world)@, alpha) is Ok,
        ensures
            final(world).wf(),
            self.spec_motion().spec_animate(old(world)@, alpha) == Ok::<WorldView, Fault>(final(world)@),
    {
        match self.try_animate(world, alpha) {
            Ok(()) => {},
            Err(_) => unreached(),
        }
    }
}

impl MoveTo {
    /// The same motion, as the animation of a property.
    pub open spec fn spec_motion(self) -> PropertyMotion {
        PropertyMotion::Point(
            PointProperty::Position(Position(self.object_id)),
            Start::Current,
            self.to,
        )
    }

    /// Puts the object between where it is and the target, by the
    /// progress.
    pub fn try_animate(&self, world: &mut World, alpha: Alpha) -> (r: Result<(), Fault>)
        requires
            old(world).wf(),
            alpha.wf(),
        ensures
            final(world).wf(),
            match self.spec_motion().spec_animate(old(world)@, alpha) {
                Ok(w) => r is Ok && final(world)@ == w,
                Err(e) => r == Err::<(), Fault>(e) && final(world)@ == old(world)@,
            },
    {
        try_write_point(
            PointProperty::Position(Position(self.object_id)),
            StartRef::Current,
            &self.to,
            world,
            alpha,
        )
    }

    /// Puts the object between where it is and the target, by the progress.
    /// Moving an object that is not stored is a fault of the scene.
    pub fn animate(&self, world: &mut World, alpha: Alpha)
        requires
            old(world).wf(),
            alpha.wf(),
            self.spec_motion().spec_animate(old(world)@, alpha) is Ok,
        ensures
            final(world).wf(),
            self.spec_motion().spec_animate(old(world)@, alpha) == Ok::<WorldView, Fault>(final(world)@),
    {
        match self.try_animate(world, alpha) {
            Ok(()) => {},
            Err(_) => unreached(),
        }
    }
}

impl AnimateTransform {
    /// The same motion, as the animation of a property.
    pub open spec fn spec_motion(self) -> PropertyMotion {
        PropertyMotion::Transform(
            TransformProperty(self.object_id),
            Start::From(DynamicTransform::spec_literal(self.from)),
            DynamicTransform::spec_literal(self.to),
        )
    }

    /// Gives the object the placement between the two ends that matches
    /// the progress.
    pub fn try_animate(&self, world: &mut World, alpha: Alpha) -> (r: Result<(), Fault>)
        requires
            old(world).wf(),
            alpha.wf(),
        ensures
            final(world).wf(),
            match self.spec_motion().spec_animate(old(world)@, alpha) {
                Ok(w) => r is Ok && final(world)@ == w,
                Err(e) => r == Err::<(), Fault>(e) && final(world)@ == old(world)@,
            },
    {
        let from = DynamicTransform::from(self.from);
        let to = DynamicTransform::from(self.to);
        try_write_transform(
            TransformProperty(self.object_id),
            StartRef::From(&from),
            &to,
            world,
            alpha,
        )
    }

    /// Gives the object the placement between the two ends that matches the
    /// progress. Placing an object that is not stored is a fault of the scene.
    pub fn animate(&self, world: &mut World, alpha: Alpha)
        requires
            old(world).wf(),
            alpha.wf(),
            self.spec_motion().spec_animate(old(world)@, alpha) is Ok,
        ensures
            final(world).wf(),
            self.spec_motion().spec_animate(old(world)@, alpha) == Ok::<WorldView, Fault>(final(world)@),
    {
        match self.try_animate(world, alpha) {
            Ok(()) => {},
            Err(_) => unreached(),
        }
    }
}

impl SetTransform {
    /// The same motion, as the writing of a property.
    pub open spec fn spec_motion(self) -> PropertyMotion {
        PropertyMotion::Transform(TransformProperty(self.object_id), Start::Immediate, self.transform)
    }

    /// Places the object as the world stands.
    pub fn try_trigger(&self, world: &mut World) -> (r: Result<(), Fault>)
        requires
            old(world).wf(),
        ensures
            final(world).wf(),
            match self.spec_motion().spec_animate(old(world)@, Alpha::spec_full()) {
                Ok(w) => r is Ok && final(world)@ == w,
                Err(e) => r == Err::<(), Fault>(e) && final(world)@ == old(world)@,
            },
    {
        try_write_transform(
            TransformProperty(self.object_id),
            StartRef::Immediate,
            &self.transform,
            world,
            Alpha::full(),
        )
    }

    /// Places the object as the world stands. Placing an object that is not
    /// stored is a fault of the scene.
    pub fn trigger(&self, world: &mut World)
        requires
            old(world).wf(),
            self.spec_motion().spec_animate(old(world)@, Alpha::spec_full()) is Ok,
        ensures
            final(world).wf(),
            self.spec_motion().spec_animate(old(world)@, Alpha::spec_full()) == Ok::<WorldView, Fault>(final(world)@),
    {
        match self.try_trigger(world) {
            Ok(()) => {},
            Err(_) => unreached(),
        }
    }
}

impl SetVariable {
    /// The world after the value, as the world stands, has been written to
    /// the variable.
    pub open spec fn spec_trigger(self, w: WorldView) -> Result<WorldView, Fault> {
        match self.value.spec_get(w) {
            Err(e) => Err(e),
            Ok(v) => Ok(WorldView { variables: w.variables.insert(self.var, v), ..w }),
        }
    }

    /// Resolves the value against the world and writes it to the variable.
    pub fn try_trigger(&self, world: &mut World) -> (r: Result<(), Fault>)
        requires
            old(world).wf(),
        ensures
            final(world).wf(),
            match self.spec_trigger(old(world)@) {
                Ok(w) => r is Ok && final(world)@ == w,
                Err(e) => r == Err::<(), Fault>(e) && final(world)@ == old(world)@,
            },
    {
        match self.value.try_get(world) {
            Err(e) => Err(e),
            Ok(v) => {
                world.update_variable(self.var, v);
                Ok(())
            },
        }
    }

    /// Resolves the value against the world and writes it to the variable.
    pub fn trigger(&self, world: &mut World)
        requires
            old(world).wf(),
            self.spec_trigger(old(world)@) is Ok,
        ensures
            final(world).wf(),
            self.spec_trigger(old(world)@) == Ok::<WorldView, Fault>(final(world)@),
    {
        match self.try_trigger(world) {
            Ok(()) => {},
            Err(_) => unreached(),
        }
    }
}

impl FadeIn {
    /// The world after the object and all below it have faded.
    pub open spec fn spec_animate(self, w: WorldView, alpha: Alpha) -> Result<WorldView, Fault> {
        match spec_fade(w.objects, alpha, self.object_id, w.objects.objects.len()) {
            Err(e) => Err(e),
            Ok(t) => Ok(w.with_objects(t)),
        }
    }

    /// Fades the object, and all below it, to `alpha`.
    pub fn try_animate(&self, world: &mut World, alpha: Alpha) -> (r: Result<(), Fault>)
        requires
            old(world).wf(),
            alpha.wf(),
        ensures
            final(world).wf(),
            match self.spec_animate(old(world)@, alpha) {
                Ok(w) => r is Ok && final(world)@ == w,
                Err(e) => r == Err::<(), Fault>(e),
            },
    {
        let depth: usize = world.objects.len();
        try_fade_in(world, alpha, self.object_id, depth)
    }

    /// Fades the object, and all below it, to `alpha`. Fading what is not
    /// stored is a fault of the scene.
    pub fn animate(&self, world: &mut World, alpha: Alpha)
        requires
            old(world).wf(),
            alpha.wf(),
            self.spec_animate(old(world)@, alpha) is Ok,
        ensures
            final(world).wf(),
            self.spec_animate(old(world)@, alpha) == Ok::<WorldView, Fault>(final(world)@),
    {
        match self.try_animate(world, alpha) {
            Ok(()) => {},
            Err(_) => unreached(),
        }
    }
}

impl Effect for PropertyMotion {
    open spec fn spec_apply(&self, w: WorldView, alpha: Alpha) -> Result<WorldView, Fault> {
        self.spec_animate(w, alpha)
    }

    fn try_animate(&self, world: &mut World, alpha: Alpha) -> (r: Result<(), Fault>) {
        PropertyMotion::try_animate(self, world, alpha)
    }
}

impl Effect for AddObject {
    open spec fn spec_apply(&self, w: WorldView, alpha: Alpha) -> Result<WorldView, Fault> {
        self.spec_trigger(w)
    }

    fn try_animate(&self, world: &mut World, alpha: Alpha) -> (r: Result<(), Fault>) {
        self.try_trigger(world)
    }
}

impl Effect for Move {
    open spec fn spec_apply(&self, w: WorldView, alpha: Alpha) -> Result<WorldView, Fault> {
        self.spec_motion().spec_animate(w, alpha)
    }

    fn try_animate(&self, world: &mut World, alpha: Alpha) -> (r: Result<(), Fault>) {
        Move::try_animate(self, world, alpha)
    }
}

impl Effect for MoveTo {
    open spec fn spec_apply(&self, w: WorldView, alpha: Alpha) -> Result<WorldView, Fault> {
        self.spec_motion().spec_animate(w, alpha)
    }

    fn try_animate(&self, world: &mut World, alpha: Alpha) -> (r: Result<(), Fault>) {
        MoveTo::try_animate(self, world, alpha)
    }
}

impl Effect for AnimateTransform {
    open spec fn spec_apply(&self, w: WorldView, alpha: Alpha) -> Result<WorldView, Fault> {
        self.spec_motion().spec_animate(w, alpha)
    }

    fn try_animate(&self, world: &mut World, alpha: Alpha) -> (r: Result<(), Fault>) {
        AnimateTransform::try_animate(self, world, alpha)
    }
}

impl Effect for SetTransform {
    open spec fn spec_apply(&self, w: WorldView, alpha: Alpha) -> Result<WorldView, Fault> {
        self.spec_motion().spec_animate(w, Alpha::spec_full())
    }

    fn try_animate(&self, world: &mut World, alpha: Alpha) -> (r: Result<(), Fault>) {
        self.try_trigger(world)
    }
}

impl Effect for SetVariable {
    open spec fn spec_apply(&self, w: WorldView, alpha: Alpha) -> Result<WorldView, Fault> {
        self.spec_trigger(w)
    }

    fn try_animate(&self, world: &mut World, alpha: Alpha) -> (r: Result<(), Fault>) {
        self.try_trigger(world)
    }
}

impl Effect for FadeIn {
    open spec fn spec_apply(&self, w: WorldView, alpha: Alpha) -> Result<WorldView, Fault> {
        self.spec_animate(w, alpha)
    }

    fn try_animate(&self, world: &mut World, alpha: Alpha) -> (r: Result<(), Fault>) {
        FadeIn::try_animate(self, world, alpha)
    }
}

} // verus!
