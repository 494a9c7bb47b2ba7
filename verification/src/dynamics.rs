//! Values that are resolved against the world at the moment they are used.

use vstd::prelude::*;
use vstd::pervasive::unreached;
use vstd::std_specs::convert::FromSpecImpl;
use crate::alpha::Scalar;
use crate::fault::Fault;
use crate::geometry::{Point, Transform};
use crate::object::{KindView, Object, ObjectId, ObjectKind, ObjectView};
use crate::properties::{
    Anchor,
    PointProperty,
    Position,
    PropertyType,
    Rotation,
    Scale,
    ScalarProperty,
    TransformProperty,
};
use crate::spacing::{Alignment, Pixels};
use crate::world::{Variable, World, WorldView};

verus! {

/// A value of type `T` that is read off the world when it is needed.
pub trait Dynamic<T> {
    /// The value in the world `w`.
    spec fn spec_get(&self, w: WorldView) -> Result<T, Fault>;

    /// The value as the world stands, or the fault that reading it is.
    fn try_get(&self, world: &World) -> (r: Result<T, Fault>)
        ensures
            r == self.spec_get(world@),
    ;

    /// The value as the world stands. Reading what the world does not
    /// hold is a fault of the scene.
    fn get(&self, world: &World) -> (v: T)
        requires
            self.spec_get(world@) is Ok,
        ensures
            self.spec_get(world@) == Ok::<T, Fault>(v),
    {
        match self.try_get(world) {
            Ok(v) => v,
            Err(_) => unreached(),
        }
    }
}

/// A value that is read off the world in a way of the user's own.
#[verifier::reject_recursive_types(T)]
pub struct OwnedDynamic<T>(pub Box<dyn Dynamic<T>>);

/// A number that is given, read from a variable, or derived from the world.
pub enum DynamicScalar {
    Literal(Scalar),
    Variable(Variable),
    /// A length in pixels of the render surface.
    Pixels(Pixels),
    /// The scale or the rotation that an object has when the value is read.
    Property(ScalarProperty),
    /// A number that is derived in a way of the user's own.
    Derived(OwnedDynamic<Scalar>),
}

/// A point that is given, read from two variables, or derived from the
/// bounds of an object.
pub enum DynamicPoint {
    Literal(Point),
    Variables(Variable, Variable),
    /// A point on the bounds that an object has when the value is read.
    Aligned(Alignment),
    /// The position or the anchor that an object has when the value is
    /// read.
    Property(PointProperty),
    /// A point that is derived in a way of the user's own.
    Derived(OwnedDynamic<Point>),
}

/// A placement whose fields are resolved one by one.
pub struct DynamicTransform {
    pub position: DynamicPoint,
    pub scale: DynamicScalar,
    pub rotation: DynamicScalar,
    pub anchor: DynamicPoint,
}

/// An object whose placement is resolved when the object is added.
pub struct DynamicObject {
    pub object_kind: ObjectKind,
    pub transform: DynamicTransform,
}

impl<T> OwnedDynamic<T> {
    /// Takes a value of the user's own in, as it is.
    pub fn new(dynamic: Box<dyn Dynamic<T>>) -> (d: OwnedDynamic<T>)
        ensures
            d == OwnedDynamic(dynamic),
    {
        OwnedDynamic(dynamic)
    }

    /// The value as the world stands.
    pub fn try_get(&self, world: &World) -> (r: Result<T, Fault>)
        ensures
            r == self.0.spec_get(world@),
    {
        self.0.try_get(world)
    }

    /// The value as the world stands. Reading what the world does not hold is a fault of the
    /// scene.
    pub fn get(&self, world: &World) -> (v: T)
        requires
            self.0.spec_get(world@) is Ok,
        ensures
            self.0.spec_get(world@) == Ok::<T, Fault>(v),
    {
        match self.try_get(world) {
            Ok(v) => v,
            Err(_) => unreached(),
        }
    }
}

impl Dynamic<Scalar> for Scalar {
    open spec fn spec_get(&self, w: WorldView) -> Result<Scalar, Fault> {
        Ok(*self)
    }

    fn try_get(&self, world: &World) -> (r: Result<Scalar, Fault>) {
        Ok(*self)
    }
}

impl Dynamic<Scalar> for Variable {
    open spec fn spec_get(&self, w: WorldView) -> Result<Scalar, Fault> {
        w.spec_get_variable(*self)
    }

    fn try_get(&self, world: &World) -> (r: Result<Scalar, Fault>) {
        world.try_get_variable(*self)
    }
}

impl Dynamic<Scalar> for Pixels {
    open spec fn spec_get(&self, w: WorldView) -> Result<Scalar, Fault> {
        Ok(Pixels::spec_get(*self, w))
    }

    fn try_get(&self, world: &World) -> (r: Result<Scalar, Fault>) {
        Ok(Pixels::get(self, world))
    }
}

impl Dynamic<Point> for Point {
    open spec fn spec_get(&self, w: WorldView) -> Result<Point, Fault> {
        Ok(*self)
    }

    fn try_get(&self, world: &World) -> (r: Result<Point, Fault>) {
        Ok(*self)
    }
}

impl Dynamic<Point> for Alignment {
    open spec fn spec_get(&self, w: WorldView) -> Result<Point, Fault> {
        Alignment::spec_get(*self, w.objects)
    }

    fn try_get(&self, world: &World) -> (r: Result<Point, Fault>) {
        Alignment::try_get(self, world)
    }
}

impl Dynamic<Transform> for Transform {
    open spec fn spec_get(&self, w: WorldView) -> Result<Transform, Fault> {
        Ok(*self)
    }

    fn try_get(&self, world: &World) -> (r: Result<Transform, Fault>) {
        Ok(*self)
    }
}

impl Dynamic<Scalar> for DynamicScalar {
    open spec fn spec_get(&self, w: WorldView) -> Result<Scalar, Fault> {
        DynamicScalar::spec_get(*self, w)
    }

    fn try_get(&self, world: &World) -> (r: Result<Scalar, Fault>) {
        DynamicScalar::try_get(self, world)
    }
}

impl Dynamic<Point> for DynamicPoint {
    open spec fn spec_get(&self, w: WorldView) -> Result<Point, Fault> {
        DynamicPoint::spec_get(*self, w)
    }

    fn try_get(&self, world: &World) -> (r: Result<Point, Fault>) {
        DynamicPoint::try_get(self, world)
    }
}

impl Dynamic<Transform> for DynamicTransform {
    open spec fn spec_get(&self, w: WorldView) -> Result<Transform, Fault> {
        DynamicTransform::spec_get(*self, w)
    }

    fn try_get(&self, world: &World) -> (r: Result<Transform, Fault>) {
        DynamicTransform::try_get(self, world)
    }
}

impl DynamicScalar {
    /// The number in the world `w`.
    pub open spec fn spec_get(self, w: WorldView) -> Result<Scalar, Fault> {
        match self {
            DynamicScalar::Literal(v) => Ok(v),
            DynamicScalar::Variable(var) => w.spec_get_variable(var),
            DynamicScalar::Pixels(p) => Ok(p.spec_get(w)),
            DynamicScalar::Property(p) => p.spec_get(w),
            DynamicScalar::Derived(d) => d.0.spec_get(w),
        }
    }

    /// The value as the world stands.
    pub fn try_get(&self, world: &World) -> (r: Result<Scalar, Fault>)
        ensures
            r == self.spec_get(world@),
    {
        match self {
            DynamicScalar::Literal(v) => Ok(*v),
            DynamicScalar::Variable(var) => world.try_get_variable(*var),
            DynamicScalar::Pixels(p) => Ok(p.get(world)),
            DynamicScalar::Property(p) => p.try_get(world),
            DynamicScalar::Derived(d) => d.0.try_get(world),
        }
    }

    /// The number as the world stands. Reading what the world does not hold is a fault of the
    /// scene.
    pub fn get(&self, world: &World) -> (v: Scalar)
        requires
            self.spec_get(world@) is Ok,
        ensures
            self.spec_get(world@) == Ok::<Scalar, Fault>(v),
    {
        match self.try_get(world) {
            Ok(v) => v,
            Err(_) => unreached(),
        }
    }
}

impl DynamicPoint {
    /// The point in the world `w`.
    pub open spec fn spec_get(self, w: WorldView) -> Result<Point, Fault> {
        match self {
            DynamicPoint::Literal(p) => Ok(p),
            DynamicPoint::Variables(vx, vy) => match w.spec_get_variable(vx) {
                Err(e) => Err(e),
                Ok(x) => match w.spec_get_variable(vy) {
                    Err(e) => Err(e),
                    Ok(y) => Ok(Point { x, y }),
                },
            },
            DynamicPoint::Aligned(a) => a.spec_get(w.objects),
            DynamicPoint::Property(p) => p.spec_get(w),
            DynamicPoint::Derived(d) => d.0.spec_get(w),
        }
    }

    /// The point as the world stands.
    pub fn try_get(&self, world: &World) -> (r: Result<Point, Fault>)
        ensures
            r == self.spec_get(world@),
    {
        match self {
            DynamicPoint::Literal(p) => Ok(*p),
            DynamicPoint::Variables(vx, vy) => match world.try_get_variable(*vx) {
                Err(e) => Err(e),
                Ok(x) => match world.try_get_variable(*vy) {
                    Err(e) => Err(e),
                    Ok(y) => Ok(Point { x, y }),
                },
            },
            DynamicPoint::Aligned(a) => a.try_get(world),
            DynamicPoint::Property(p) => p.try_get(world),
            DynamicPoint::Derived(d) => d.0.try_get(world),
        }
    }

    /// The point as the world stands. Reading what the world does not hold is a fault of the
    /// scene.
    pub fn get(&self, world: &World) -> (v: Point)
        requires
            self.spec_get(world@) is Ok,
        ensures
            self.spec_get(world@) == Ok::<Point, Fault>(v),
    {
        match self.try_get(world) {
            Ok(v) => v,
            Err(_) => unreached(),
        }
    }
}

impl DynamicTransform {
    /// Position, scale, rotation and anchor, resolved in that order.
    pub open spec fn spec_get(self, w: WorldView) -> Result<Transform, Fault> {
        match self.position.spec_get(w) {
            Err(e) => Err(e),
            Ok(position) => match self.scale.spec_get(w) {
                Err(e) => Err(e),
                Ok(scale) => match self.rotation.spec_get(w) {
                    Err(e) => Err(e),
                    Ok(rotation) => match self.anchor.spec_get(w) {
                        Err(e) => Err(e),
                        Ok(anchor) => Ok(Transform { position, rotation, scale, anchor }),
                    },
                },
            },
        }
    }

    /// The placement whose fields are the given ones, whatever the world.
    pub open spec fn spec_literal(t: Transform) -> DynamicTransform {
        DynamicTransform {
            position: DynamicPoint::Literal(t.position),
            scale: DynamicScalar::Literal(t.scale),
            rotation: DynamicScalar::Literal(t.rotation),
            anchor: DynamicPoint::Literal(t.anchor),
        }
    }

    /// The placement that the object stored as `id` has when the value is
    /// read.
    pub open spec fn spec_of(id: ObjectId) -> DynamicTransform {
        DynamicTransform {
            position: DynamicPoint::Property(PointProperty::Position(Position(id))),
            scale: DynamicScalar::Property(ScalarProperty::Scale(Scale(id))),
            rotation: DynamicScalar::Property(ScalarProperty::Rotation(Rotation(id))),
            anchor: DynamicPoint::Property(PointProperty::Anchor(Anchor(id))),
        }
    }

    /// The placement of another object, followed as it changes.
    pub fn of(property: TransformProperty) -> (d: DynamicTransform)
        ensures
            d == DynamicTransform::spec_of(property.0),
    {
        DynamicTransform {
            position: DynamicPoint::Property(PointProperty::Position(Position(property.0))),
            scale: DynamicScalar::Property(ScalarProperty::Scale(Scale(property.0))),
            rotation: DynamicScalar::Property(ScalarProperty::Rotation(Rotation(property.0))),
            anchor: DynamicPoint::Property(PointProperty::Anchor(Anchor(property.0))),
        }
    }

    /// The placement as the world stands.
    pub fn try_get(&self, world: &World) -> (r: Result<Transform, Fault>)
        ensures
            r == self.spec_get(world@),
    {
        match self.position.try_get(world) {
            Err(e) => Err(e),
            Ok(position) => match self.scale.try_get(world) {
                Err(e) => Err(e),
                Ok(scale) => match self.rotation.try_get(world) {
                    Err(e) => Err(e),
                    Ok(rotation) => match self.anchor.try_get(world) {
                        Err(e) => Err(e),
                        Ok(anchor) => Ok(Transform { position, rotation, scale, anchor }),
                    },
                },
            },
        }
    }

    /// The placement as the world stands. Reading what the world does not hold is a fault of the
    /// scene.
    pub fn get(&self, world: &World) -> (v: Transform)
        requires
            self.spec_get(world@) is Ok,
        ensures
            self.spec_get(world@) == Ok::<Transform, Fault>(v),
    {
        match self.try_get(world) {
            Ok(v) => v,
            Err(_) => unreached(),
        }
    }
}

impl From<Transform> for DynamicTransform {
    fn from(t: Transform) -> (d: DynamicTransform) {
        let d = DynamicTransform {
            position: DynamicPoint::Literal(t.position),
            scale: DynamicScalar::Literal(t.scale),
            rotation: DynamicScalar::Literal(t.rotation),
            anchor: DynamicPoint::Literal(t.anchor),
        };
        d
    }
}

impl FromSpecImpl<Transform> for DynamicTransform {
    open spec fn obeys_from_spec() -> bool {
        true
    }

    open spec fn from_spec(t: Transform) -> DynamicTransform {
        DynamicTransform {
            position: DynamicPoint::Literal(t.position),
            scale: DynamicScalar::Literal(t.scale),
            rotation: DynamicScalar::Literal(t.rotation),
            anchor: DynamicPoint::Literal(t.anchor),
        }
    }
}

impl DynamicObject {
    /// The object with its placement resolved.
    pub open spec fn spec_get(self, w: WorldView) -> Result<ObjectView, Fault> {
        match self.transform.spec_get(w) {
            Err(e) => Err(e),
            Ok(transform) => Ok(ObjectView { kind: self.object_kind@, transform }),
        }
    }

    /// An object that is placed the same way in every world.
    pub fn fixed(object: Object) -> (d: DynamicObject)
        ensures
            d.object_kind@ == object@.kind,
            d.transform == DynamicTransform::spec_literal(object.transform),
    {
        let Object { object_kind, transform } = object;
        DynamicObject { object_kind, transform: DynamicTransform::from(transform) }
    }

    /// A group of the given children at the identity placement.
    pub fn new_group(objects: Vec<ObjectId>) -> (d: DynamicObject)
        ensures
            d.object_kind@ == KindView::Group(objects@),
            d.transform == DynamicTransform::spec_literal(Transform::spec_identity()),
    {
        DynamicObject {
            object_kind: ObjectKind::Group(objects),
            transform: DynamicTransform::from(Transform::identity()),
        }
    }

    /// The same object with another placement.
    pub fn with_transform(self, transform: DynamicTransform) -> (d: DynamicObject)
        ensures
            d.object_kind@ == self.object_kind@,
            d.transform == transform,
    {
        let mut d = self;
        d.transform = transform;
        d
    }

    /// The object as the world stands.
    pub fn try_get(&self, world: &World) -> (r: Result<Object, Fault>)
        ensures
            match self.spec_get(world@) {
                Ok(o) => r is Ok && r->Ok_0@ == o,
                Err(e) => r is Err && r->Err_0 == e,
            },
    {
        match self.transform.try_get(world) {
            Err(e) => Err(e),
            Ok(transform) => Ok(Object { object_kind: self.object_kind.duplicate(), transform }),
        }
    }

    /// The object as the world stands. Reading what the world does not
    /// hold is a fault of the scene.
    pub fn get(&self, world: &World) -> (o: Object)
        requires
            self.spec_get(world@) is Ok,
        ensures
            self.spec_get(world@) == Ok::<ObjectView, Fault>(o@),
    {
        match self.try_get(world) {
            Ok(o) => o,
            Err(_) => unreached(),
        }
    }
}

} // verus!
