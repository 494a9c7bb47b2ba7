//! Handles on the fields of an object's placement: each can be read from
//! the world and written back to it.

use vstd::prelude::*;
use vstd::pervasive::unreached;
use crate::alpha::{Alpha, Scalar, lerp, spec_lerp};
use crate::fault::Fault;
use crate::geometry::{Point, Transform};
use crate::object::ObjectId;
use crate::world::{World, WorldView};

verus! {

/// The position of an object.
#[derive(Clone, Copy, Debug, PartialEq, Eq, Structural)]
pub struct Position(pub ObjectId);

/// The scale of an object.
#[derive(Clone, Copy, Debug, PartialEq, Eq, Structural)]
pub struct Scale(pub ObjectId);

/// The rotation of an object.
#[derive(Clone, Copy, Debug, PartialEq, Eq, Structural)]
pub struct Rotation(pub ObjectId);

/// The anchor of an object.
#[derive(Clone, Copy, Debug, PartialEq, Eq, Structural)]
pub struct Anchor(pub ObjectId);

/// The whole placement of an object.
#[derive(Clone, Copy, Debug, PartialEq, Eq, Structural)]
pub struct TransformProperty(pub ObjectId);

/// A field of a placement that holds a point.
#[derive(Clone, Copy, Debug, PartialEq, Eq, Structural)]
pub enum PointProperty {
    Position(Position),
    Anchor(Anchor),
}

/// A field of a placement that holds a number.
#[derive(Clone, Copy, Debug, PartialEq, Eq, Structural)]
pub enum ScalarProperty {
    Scale(Scale),
    Rotation(Rotation),
}

/// A value that can stand anywhere between two of its kind.
pub trait Interpolatable: Sized {
    /// The value the fraction `alpha` of the way from `self` to `other`.
    spec fn spec_between(&self, other: &Self, alpha: Alpha) -> Self;

    /// The value the fraction `alpha` of the way from `self` to `other`.
    fn interpolate(&self, other: &Self, alpha: Alpha) -> (r: Self)
        requires
            alpha.wf(),
        ensures
            r == self.spec_between(other, alpha),
    ;
}

impl Interpolatable for Scalar {
    open spec fn spec_between(&self, other: &Scalar, alpha: Alpha) -> Scalar {
        spec_lerp(*self as int, *other as int, alpha) as i64
    }

    fn interpolate(&self, other: &Scalar, alpha: Alpha) -> (r: Scalar) {
        lerp(*self, *other, alpha)
    }
}

impl Interpolatable for Point {
    open spec fn spec_between(&self, other: &Point, alpha: Alpha) -> Point {
        self.spec_interpolate(*other, alpha)
    }

    fn interpolate(&self, other: &Point, alpha: Alpha) -> (r: Point) {
        Point { x: lerp(self.x, other.x, alpha), y: lerp(self.y, other.y, alpha) }
    }
}

impl Interpolatable for Transform {
    open spec fn spec_between(&self, other: &Transform, alpha: Alpha) -> Transform {
        self.spec_interpolate(*other, alpha)
    }

    fn interpolate(&self, other: &Transform, alpha: Alpha) -> (r: Transform) {
        Transform {
            position: Point {
                x: lerp(self.position.x, other.position.x, alpha),
                y: lerp(self.position.y, other.position.y, alpha),
            },
            rotation: lerp(self.rotation, other.rotation, alpha),
            scale: lerp(self.scale, other.scale, alpha),
            anchor: Point {
                x: lerp(self.anchor.x, other.anchor.x, alpha),
                y: lerp(self.anchor.y, other.anchor.y, alpha),
            },
        }
    }
}

/// Something of an object that can be read from the world and written back
/// to it.
pub trait PropertyType {
    type Value;

    /// The value that the property has in `w`.
    spec fn spec_get(&self, w: WorldView) -> Result<Self::Value, Fault>;

    /// The world after `value` has been written to the property.
    spec fn spec_update(&self, w: WorldView, value: Self::Value) -> Result<WorldView, Fault>;

    /// Reads the property. Reading from an object that is not there is a
    /// fault.
    fn try_get(&self, world: &World) -> (r: Result<Self::Value, Fault>)
        ensures
            r == self.spec_get(world@),
    ;

    /// Writes the property. A world that does not hold the object stays as
    /// it is.
    fn try_update(&self, world: &mut World, value: Self::Value) -> (r: Result<(), Fault>)
        requires
            old(world).wf(),
        ensures
            final(world).wf(),
            match self.spec_update(old(world)@, value) {
                Ok(w) => r is Ok && final(world)@ == w,
                Err(e) => r == Err::<(), Fault>(e) && final(world)@ == old(world)@,
            },
    ;

    /// Reads the property of an object that is stored.
    fn get(&self, world: &World) -> (v: Self::Value)
        requires
            self.spec_get(world@) is Ok,
        ensures
            self.spec_get(world@) == Ok::<Self::Value, Fault>(v),
    {
        match self.try_get(world) {
            Ok(v) => v,
            Err(_) => unreached(),
        }
    }

    /// Writes the property of an object that is stored.
    fn update(&self, world: &mut World, value: Self::Value)
        requires
            old(world).wf(),
            self.spec_update(old(world)@, value) is Ok,
        ensures
            final(world).wf(),
            self.spec_update(old(world)@, value) == Ok::<WorldView, Fault>(final(world)@),
    {
        match self.try_update(world, value) {
            Ok(()) => {},
            Err(_) => unreached(),
        }
    }
}

impl WorldView {
    /// The world with the object stored as `id` placed by `f` of its
    /// placement so far.
    pub open spec fn spec_retransform(
        self,
        id: ObjectId,
        f: spec_fn(Transform) -> Transform,
    ) -> Result<WorldView, Fault> {
        if self.objects.objects.contains_key(id) {
            Ok(
                self.with_objects(
                    self.objects.spec_with_transform(id, f(self.objects.objects[id].transform)),
                ),
            )
        } else {
            Err(Fault::MissingObject(id))
        }
    }
}

impl PropertyType for TransformProperty {
    type Value = Transform;

    open spec fn spec_get(&self, w: WorldView) -> Result<Transform, Fault> {
        w.objects.spec_transform_of(self.0)
    }

    open spec fn spec_update(&self, w: WorldView, value: Transform) -> Result<WorldView, Fault> {
        w.spec_retransform(self.0, |t: Transform| value)
    }

    fn try_get(&self, world: &World) -> (r: Result<Transform, Fault>) {
        world.objects.try_transform_of(self.0)
    }

    fn try_update(&self, world: &mut World, value: Transform) -> (r: Result<(), Fault>) {
        world.objects.try_set_transform(self.0, value)
    }
}

impl TransformProperty {
    /// The position of the same object.
    pub fn position(&self) -> (p: Position)
        ensures
            p == Position(self.0),
    {
        Position(self.0)
    }

    /// The scale of the same object.
    pub fn scale(&self) -> (p: Scale)
        ensures
            p == Scale(self.0),
    {
        Scale(self.0)
    }

    /// The rotation of the same object.
    pub fn rotation(&self) -> (p: Rotation)
        ensures
            p == Rotation(self.0),
    {
        Rotation(self.0)
    }

    /// The anchor of the same object.
    pub fn anchor(&self) -> (p: Anchor)
        ensures
            p == Anchor(self.0),
    {
        Anchor(self.0)
    }
}

impl PropertyType for Position {
    type Value = Point;

    open spec fn spec_get(&self, w: WorldView) -> Result<Point, Fault> {
        match w.objects.spec_transform_of(self.0) {
            Ok(t) => Ok(t.position),
            Err(e) => Err(e),
        }
    }

    open spec fn spec_update(&self, w: WorldView, value: Point) -> Result<WorldView, Fault> {
        w.spec_retransform(self.0, |t: Transform| Transform { position: value, ..t })
    }

    fn try_get(&self, world: &World) -> (r: Result<Point, Fault>) {
        match world.objects.try_transform_of(self.0) {
            Ok(t) => Ok(t.position),
            Err(e) => Err(e),
        }
    }

    fn try_update(&self, world: &mut World, value: Point) -> (r: Result<(), Fault>) {
        match world.objects.try_transform_of(self.0) {
            Err(e) => Err(e),
            Ok(t) => world.objects.try_set_transform(self.0, t.with_position(value)),
        }
    }
}

impl PropertyType for Anchor {
    type Value = Point;

    open spec fn spec_get(&self, w: WorldView) -> Result<Point, Fault> {
        match w.objects.spec_transform_of(self.0) {
            Ok(t) => Ok(t.anchor),
            Err(e) => Err(e),
        }
    }

    open spec fn spec_update(&self, w: WorldView, value: Point) -> Result<WorldView, Fault> {
        w.spec_retransform(self.0, |t: Transform| Transform { anchor: value, ..t })
    }

    fn try_get(&self, world: &World) -> (r: Result<Point, Fault>) {
        match world.objects.try_transform_of(self.0) {
            Ok(t) => Ok(t.anchor),
            Err(e) => Err(e),
        }
    }

    fn try_update(&self, world: &mut World, value: Point) -> (r: Result<(), Fault>) {
        match world.objects.try_transform_of(self.0) {
            Err(e) => Err(e),
            Ok(t) => world.objects.try_set_transform(self.0, t.with_anchor(value)),
        }
    }
}

impl PropertyType for Scale {
    type Value = Scalar;

    open spec fn spec_get(&self, w: WorldView) -> Result<Scalar, Fault> {
        match w.objects.spec_transform_of(self.0) {
            Ok(t) => Ok(t.scale),
            Err(e) => Err(e),
        }
    }

    open spec fn spec_update(&self, w: WorldView, value: Scalar) -> Result<WorldView, Fault> {
        w.spec_retransform(self.0, |t: Transform| Transform { scale: value, ..t })
    }

    fn try_get(&self, world: &World) -> (r: Result<Scalar, Fault>) {
        match world.objects.try_transform_of(self.0) {
            Ok(t) => Ok(t.scale),
            Err(e) => Err(e),
        }
    }

    fn try_update(&self, world: &mut World, value: Scalar) -> (r: Result<(), Fault>) {
        match world.objects.try_transform_of(self.0) {
            Err(e) => Err(e),
            Ok(t) => world.objects.try_set_transform(self.0, t.with_scale(value)),
        }
    }
}

impl PropertyType for Rotation {
    type Value = Scalar;

    open spec fn spec_get(&self, w: WorldView) -> Result<Scalar, Fault> {
        match w.objects.spec_transform_of(self.0) {
            Ok(t) => Ok(t.rotation),
            Err(e) => Err(e),
        }
    }

    open spec fn spec_update(&self, w: WorldView, value: Scalar) -> Result<WorldView, Fault> {
        w.spec_retransform(self.0, |t: Transform| Transform { rotation: value, ..t })
    }

    fn try_get(&self, world: &World) -> (r: Result<Scalar, Fault>) {
        match world.objects.try_transform_of(self.0) {
            Ok(t) => Ok(t.rotation),
            Err(e) => Err(e),
        }
    }

    fn try_update(&self, world: &mut World, value: Scalar) -> (r: Result<(), Fault>) {
        match world.objects.try_transform_of(self.0) {
            Err(e) => Err(e),
            Ok(t) => world.objects.try_set_transform(self.0, t.with_rotation(value)),
        }
    }
}

impl PropertyType for PointProperty {
    type Value = Point;

    open spec fn spec_get(&self, w: WorldView) -> Result<Point, Fault> {
        match self {
            PointProperty::Position(p) => p.spec_get(w),
            PointProperty::Anchor(p) => p.spec_get(w),
        }
    }

    open spec fn spec_update(&self, w: WorldView, value: Point) -> Result<WorldView, Fault> {
        match self {
            PointProperty::Position(p) => p.spec_update(w, value),
            PointProperty::Anchor(p) => p.spec_update(w, value),
        }
    }

    fn try_get(&self, world: &World) -> (r: Result<Point, Fault>) {
        match self {
            PointProperty::Position(p) => p.try_get(world),
            PointProperty::Anchor(p) => p.try_get(world),
        }
    }

    fn try_update(&self, world: &mut World, value: Point) -> (r: Result<(), Fault>) {
        match self {
            PointProperty::Position(p) => p.try_update(world, value),
            PointProperty::Anchor(p) => p.try_update(world, value),
        }
    }
}

impl PropertyType for ScalarProperty {
    type Value = Scalar;

    open spec fn spec_get(&self, w: WorldView) -> Result<Scalar, Fault> {
        match self {
            ScalarProperty::Scale(p) => p.spec_get(w),
            ScalarProperty::Rotation(p) => p.spec_get(w),
        }
    }

    open spec fn spec_update(&self, w: WorldView, value: Scalar) -> Result<WorldView, Fault> {
        match self {
            ScalarProperty::Scale(p) => p.spec_update(w, value),
            ScalarProperty::Rotation(p) => p.spec_update(w, value),
        }
    }

    fn try_get(&self, world: &World) -> (r: Result<Scalar, Fault>) {
        match self {
            ScalarProperty::Scale(p) => p.try_get(world),
            ScalarProperty::Rotation(p) => p.try_get(world),
        }
    }

    fn try_update(&self, world: &mut World, value: Scalar) -> (r: Result<(), Fault>) {
        match self {
            ScalarProperty::Scale(p) => p.try_update(world, value),
            ScalarProperty::Rotation(p) => p.try_update(world, value),
        }
    }
}

} // verus!
