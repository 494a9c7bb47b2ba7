use enimate::alpha::{lerp, Alpha};
use enimate::building::SceneBuilder;
use enimate::dynamics::{
    Dynamic, DynamicObject, DynamicPoint, DynamicScalar, DynamicTransform, OwnedDynamic,
};
use enimate::properties::{PointProperty, Position, Rotation, ScalarProperty, TransformProperty};
use enimate::spacing::{Alignment, Pixels};
use enimate::geometry::Transform;
use enimate::fault::Fault;
use enimate::geometry::{Point, Rect};
use enimate::motion::{animate_effect, AddObject, Effect, Motion, Move, Scene};
use enimate::object::{Color, FillMaterial, Material, Object, Premultiplied};
use enimate::object_tree::ObjectTree;
use enimate::trig::UNIT;
use enimate::world::{World, WorldView};
use std::collections::HashMap;

const SIZE: (i64, i64) = (1600 * UNIT, 900 * UNIT);

fn square(shape: usize) -> Object {
    Object::new_model(
        shape,
        Rect::from_min_max(Point::new(-10, -10), Point::new(10, 10)),
        Material::from(FillMaterial::new(Color::new(255, 0, 0, 255))),
    )
}

/// Lets an object rise twice as fast as it goes along.
struct Throw {
    object_id: usize,
}

impl Effect for Throw {
    // The ghost side of the effect: it is never run.
    fn spec_apply(&self, _: WorldView, _: Alpha) -> Result<WorldView, Fault> {
        unreachable!()
    }

    fn try_animate(&self, world: &mut World, alpha: Alpha) -> Result<(), Fault> {
        let t = world.objects.try_transform_of(self.object_id)?;
        let x = lerp(0, 100, alpha);
        world.objects.try_set_transform(self.object_id, t.with_position(Point::new(x, 2 * x)))
    }
}

#[test]
fn effects_of_the_users_own_run_like_any_other() {
    let mut b = SceneBuilder::new();
    b.add_object_as(1, DynamicObject::fixed(square(11)));
    b.play(Motion::Effect(Box::new(Throw { object_id: 1 })), 10);
    let scene = b.finish();
    let tree = scene.render_at(3, SIZE);
    assert_eq!(tree.transform_of(1).position, Point::new(30, 60));
    let tree = scene.render_at(10, SIZE);
    assert_eq!(tree.transform_of(1).position, Point::new(100, 200));
}

#[test]
fn a_failing_effect_fails_the_scene() {
    let scene = Scene {
        motions: vec![Motion::Effect(Box::new(Throw { object_id: 5 }))],
        root: 0,
        length: 10,
    };
    assert_eq!(scene.try_render_at(3, SIZE).err(), Some(Fault::MissingObject(5)));
}

#[test]
fn the_leaf_motions_are_effects() {
    let mut world = World::new(ObjectTree::new(), SIZE, HashMap::new());
    let add = AddObject { object_id: 1, object: DynamicObject::fixed(square(11)), rooted: true };
    animate_effect(&add, &mut world, Alpha::zero());
    assert!(world.objects.contains(1));
    let mv = Move {
        from: DynamicPoint::Literal(Point::new(0, 0)),
        to: DynamicPoint::Literal(Point::new(8, 0)),
        object_id: 1,
    };
    let effect: Box<dyn Effect> = Box::new(mv);
    effect.try_animate(&mut world, Alpha { num: 1, den: 4 }).unwrap();
    assert_eq!(world.objects.transform_of(1).position, Point::new(2, 0));
}

#[test]
fn colours_are_premultiplied_for_the_painter() {
    let opaque = Color::new(200, 100, 50, 255);
    assert_eq!(opaque.premultiplied(), Premultiplied { r: 200, g: 100, b: 50, a: 255 });
    let clear = Color::new(200, 100, 50, 0);
    assert_eq!(clear.premultiplied(), Premultiplied { r: 0, g: 0, b: 0, a: 0 });
    let half = Color::new(255, 255, 255, 128).premultiplied();
    assert_eq!(half.a, 128);
    assert!(half.r < 255);
}

/// The middle between two objects.
struct Between(usize, usize);

impl Dynamic<Point> for Between {
    // The ghost side of the value: it is never run.
    fn spec_get(&self, _: WorldView) -> Result<Point, Fault> {
        unreachable!()
    }

    fn try_get(&self, world: &World) -> Result<Point, Fault> {
        let a = world.objects.try_transform_of(self.0)?.position;
        let b = world.objects.try_transform_of(self.1)?.position;
        Ok(a.interpolate(&b, Alpha { num: 1, den: 2 }))
    }
}

fn two_squares() -> World {
    let mut tree = ObjectTree::new();
    tree.add(1, square(11).with_transform(Transform::identity().with_position(Point::new(0, 0))), true);
    let there = Transform { rotation: 30_000, ..Transform::identity().with_position(Point::new(10, 20)) };
    tree.add(2, square(12).with_transform(there), true);
    World::new(tree, SIZE, HashMap::new())
}

#[test]
fn values_of_the_users_own_are_read_like_any_other() {
    let world = two_squares();
    let middle = DynamicPoint::Derived(OwnedDynamic(Box::new(Between(1, 2))));
    assert_eq!(middle.try_get(&world), Ok(Point::new(5, 10)));
    let missing = DynamicPoint::Derived(OwnedDynamic(Box::new(Between(1, 9))));
    assert_eq!(missing.try_get(&world), Err(Fault::MissingObject(9)));
    assert_eq!(OwnedDynamic(Box::new(Between(2, 2))).try_get(&world), Ok(Point::new(10, 20)));
    let owned = OwnedDynamic::new(Box::new(Between(1, 2)));
    assert_eq!(owned.get(&world), Point::new(5, 10));
}

#[test]
fn properties_of_objects_are_dynamic_values() {
    let world = two_squares();
    let p = DynamicPoint::Property(PointProperty::Position(Position(2)));
    assert_eq!(p.try_get(&world), Ok(Point::new(10, 20)));
    let r = DynamicScalar::Property(ScalarProperty::Rotation(Rotation(2)));
    assert_eq!(r.try_get(&world), Ok(30_000));
    let follow = DynamicTransform::of(TransformProperty(2));
    assert_eq!(
        follow.try_get(&world),
        Ok(Transform { rotation: 30_000, ..Transform::identity().with_position(Point::new(10, 20)) })
    );
    assert_eq!(
        DynamicTransform::of(TransformProperty(7)).try_get(&world),
        Err(Fault::MissingObject(7))
    );
}

#[test]
fn plain_values_are_dynamic_values_too() {
    let mut world = two_squares();
    world.update_variable(4, 44);
    assert_eq!(Dynamic::<i64>::try_get(&7i64, &world), Ok(7));
    assert_eq!(Dynamic::<i64>::try_get(&4usize, &world), Ok(44));
    assert_eq!(Dynamic::<i64>::try_get(&5usize, &world), Err(Fault::MissingVariable(5)));
    assert_eq!(Dynamic::<i64>::try_get(&Pixels(2), &world), Ok(200));
    assert_eq!(Dynamic::<Point>::try_get(&Point::new(1, 2), &world), Ok(Point::new(1, 2)));
    // The second square is turned by 30 degrees: its corners reach 13.65
    // units from its centre, which rounds to 14 below and 13 above.
    assert_eq!(Dynamic::<Point>::try_get(&Alignment::new(2).left(), &world), Ok(Point::new(-4, 19)));
    assert_eq!(Dynamic::<Point>::try_get(&Alignment::new(1).left(), &world), Ok(Point::new(-10, 0)));
    assert_eq!(
        Dynamic::<Transform>::try_get(&Transform::identity(), &world),
        Ok(Transform::identity())
    );
    assert_eq!(Dynamic::<i64>::try_get(&DynamicScalar::Literal(3), &world), Ok(3));
    assert_eq!(
        Dynamic::<Point>::try_get(&DynamicPoint::Variables(4, 4), &world),
        Ok(Point::new(44, 44))
    );
    assert_eq!(
        Dynamic::<Transform>::try_get(&DynamicTransform::from(Transform::identity()), &world),
        Ok(Transform::identity())
    );
}
