use enimate::alpha::{floor_div, saturate, Alpha};
use enimate::building::SceneBuilder;
use enimate::dynamics::{DynamicObject, DynamicTransform};
use enimate::fault::Fault;
use enimate::geometry::{Point, Rect, Transform};
use enimate::motion::{
    animate_effect, fade_in, names_of, try_fade_in, AddObject, EmbededScene, Motion, Scene,
};
use enimate::object::{copy_ids, Color, FillMaterial, Material, Object, ObjectKind};
use enimate::object_tree::ObjectTree;
use enimate::scene::{embedded_duration, inner_time};
use enimate::trig::UNIT;
use enimate::world::World;
use std::collections::HashMap;

const SIZE: (i64, i64) = (1600 * UNIT, 900 * UNIT);

fn square(shape: usize) -> Object {
    Object::new_model(
        shape,
        Rect::from_min_max(Point::new(-10, -10), Point::new(10, 10)),
        Material::from(FillMaterial::new(Color::new(255, 0, 0, 200))),
    )
}

fn at(x: i64, y: i64) -> Transform {
    Transform::identity().with_position(Point::new(x, y))
}

#[test]
fn wide_values_saturate() {
    assert_eq!(saturate(5), 5);
    assert_eq!(saturate(i64::MAX as i128 + 1), i64::MAX);
    assert_eq!(saturate(i64::MIN as i128 - 1), i64::MIN);
}

#[test]
fn division_rounds_towards_negative_infinity() {
    assert_eq!(floor_div(7, 2), 3);
    assert_eq!(floor_div(-7, 2), -4);
    assert_eq!(floor_div(-8, 2), -4);
    assert_eq!(floor_div(-1, 5), -1);
    assert_eq!(floor_div(0, 5), 0);
}

#[test]
fn progress_is_read_off_on_a_clock() {
    assert_eq!(Alpha { num: 1, den: 3 }.ticks(10), 3);
    assert_eq!(Alpha { num: 3, den: 3 }.ticks(10), 10);
    assert_eq!(Alpha { num: 0, den: 3 }.ticks(10), 0);
    assert!(Alpha { num: 3, den: 3 }.at_end());
    assert!(!Alpha { num: 2, den: 3 }.at_end());
    assert!(Alpha::full().at_end());
    assert!(!Alpha::zero().at_end());
}

#[test]
fn points_add_and_subtract_with_saturation() {
    let p = Point::new(i64::MAX - 1, 5);
    assert_eq!(p.plus(&Point::new(5, 5)), Point::new(i64::MAX, 10));
    assert_eq!(Point::new(i64::MIN, 0).minus(&Point::new(1, -1)), Point::new(i64::MIN, 1));
    assert_eq!(Point::new(10, -10).scaled(UNIT / 2), Point::new(5, -5));
    assert_eq!(
        Point::new(0, 0).interpolate(&Point::new(9, -9), Alpha { num: 1, den: 3 }),
        Point::new(3, -3)
    );
}

#[test]
fn the_time_inside_an_embedded_scene() {
    let half = Alpha { num: 1, den: 2 };
    assert_eq!(inner_time(5000, half, UNIT), 2500);
    assert_eq!(inner_time(5000, half, UNIT / 2), 1250);
    assert_eq!(inner_time(5000, half, 4 * UNIT), 5000);
    assert_eq!(inner_time(5000, half, 0), 0);
    assert_eq!(inner_time(5000, half, -UNIT), 0);
    assert_eq!(inner_time(3, Alpha { num: 1, den: 3 }, UNIT / 2), 0);
}

#[test]
fn the_time_an_embedded_scene_takes() {
    assert_eq!(embedded_duration(5000, UNIT), 5000);
    assert_eq!(embedded_duration(5000, 2 * UNIT), 2500);
    assert_eq!(embedded_duration(5000, UNIT / 4), 20_000);
    assert_eq!(embedded_duration(5000, 3 * UNIT), 1666);
    assert_eq!(embedded_duration(5000, 0), u32::MAX);
    assert_eq!(embedded_duration(5000, -UNIT), u32::MAX);
    assert_eq!(embedded_duration(u32::MAX, 1), u32::MAX);
}

#[test]
fn lists_of_names_are_copied() {
    assert_eq!(copy_ids(&vec![3, 1, 2]), vec![3, 1, 2]);
    assert_eq!(names_of(&vec![(7, 100), (5, 0)]), vec![7, 5]);
    let group = ObjectKind::Group(vec![4, 5]);
    match group.duplicate() {
        ObjectKind::Group(c) => assert_eq!(c, vec![4, 5]),
        ObjectKind::Model(_) => panic!("a group"),
    }
    let object = square(3).with_transform(at(1, 2));
    let copy = object.duplicate();
    assert_eq!(copy.transform, at(1, 2));
    match copy.object_kind {
        ObjectKind::Model(m) => assert_eq!(m.shape, 3),
        ObjectKind::Group(_) => panic!("a model"),
    }
}

#[test]
fn render_object_appends_to_what_is_there() {
    let mut tree = ObjectTree::new();
    tree.add(1, square(11).with_transform(at(1, 0)), false);
    tree.add(2, square(12).with_transform(at(2, 0)), false);
    let mut out = Vec::new();
    tree.render_object(2, at(10, 0), &mut out);
    tree.render_object(1, at(10, 0), &mut out);
    let ids: Vec<usize> = out.iter().map(|i| i.id).collect();
    assert_eq!(ids, vec![2, 1]);
    assert_eq!(out[0].transform.position, Point::new(12, 0));
    assert_eq!(tree.try_render_object(3, at(0, 0), 5, &mut out), Err(Fault::MissingObject(3)));
}

#[test]
fn bounds_of_an_object_that_is_not_stored() {
    let mut tree = ObjectTree::new();
    tree.add(1, square(11).with_transform(at(100, 0)), false);
    let group = Object::new_group(vec![1]).with_transform(at(0, 50));
    assert_eq!(
        tree.try_local_bounding_box_obj(&group),
        Ok(Rect::from_min_max(Point::new(90, 40), Point::new(110, 60)))
    );
    assert_eq!(
        tree.try_bounding_box_with_transform(&group, at(1, 1), 1),
        Ok(Rect::from_min_max(Point::new(91, 41), Point::new(111, 61)))
    );
    assert_eq!(tree.try_bounding_box_with_transform(&group, at(1, 1), 0), Err(Fault::TooDeep));
    let mut boxes = HashMap::new();
    assert_eq!(
        tree.try_bounding_boxes_dp(1, at(0, 0), &mut boxes, 0),
        Ok(Rect::from_min_max(Point::new(90, -10), Point::new(110, 10)))
    );
    assert_eq!(boxes.len(), 1);
}

#[test]
fn fading_goes_through_groups_and_keeps_the_links() {
    let mut tree = ObjectTree::new();
    tree.add(1, square(11), false);
    tree.add(5, Object::new_group(vec![1]), true);
    let mut world = World::new(tree, SIZE, HashMap::new());
    fade_in(&mut world, Alpha { num: 1, den: 4 }, 5);
    match &world.objects.get(1).unwrap().object_kind {
        ObjectKind::Model(m) => assert_eq!(m.material.fill.unwrap().color.a, 50),
        ObjectKind::Group(_) => panic!("a model"),
    }
    assert_eq!(world.objects.parent(1), Some(5));
    assert_eq!(world.objects.parent(5), Some(0));
    assert_eq!(world.objects.len(), 3);
    assert_eq!(try_fade_in(&mut world, Alpha::full(), 9, 2), Err(Fault::MissingObject(9)));
    assert_eq!(try_fade_in(&mut world, Alpha::full(), 5, 0), Err(Fault::TooDeep));
}

#[test]
fn a_group_that_holds_itself_misses_itself_when_it_fades() {
    let mut tree = ObjectTree::new();
    tree.add(5, Object::new_group(vec![5]), true);
    let mut world = World::new(tree, SIZE, HashMap::new());
    assert_eq!(try_fade_in(&mut world, Alpha::full(), 5, 10), Err(Fault::MissingObject(5)));
}

#[test]
fn a_scene_without_length_shows_all_at_once() {
    let mut b = SceneBuilder::new();
    b.add_object_as(1, DynamicObject::fixed(square(11)));
    b.add_object_as(2, DynamicObject::fixed(square(12)));
    let scene = b.finish();
    assert_eq!(scene.length(), 0);
    assert_eq!(scene.time_to_alpha(0), Alpha::full());
    let tree = scene.render_at(0, SIZE);
    assert!(tree.contains(1) && tree.contains(2));
}

#[test]
fn time_becomes_progress() {
    let scene = Scene { motions: vec![Motion::Wait], root: 0, length: 400 };
    assert_eq!(scene.time_to_alpha(100), Alpha { num: 100, den: 400 });
    assert_eq!(scene.time_to_alpha(400), Alpha { num: 400, den: 400 });
    assert_eq!(scene.time_to_alpha(4000), Alpha { num: 400, den: 400 });
}

#[test]
fn motions_can_be_played_one_by_one() {
    let scene = Scene {
        motions: vec![
            Motion::AddObject(AddObject {
                object_id: 1,
                object: DynamicObject::fixed(square(11)),
                rooted: true,
            }),
            Motion::Sequence(vec![(0, 0)]),
        ],
        root: 1,
        length: 0,
    };
    let mut world = World::new(ObjectTree::new(), SIZE, HashMap::new());
    assert_eq!(scene.try_play(1, &mut world, 0), Err(Fault::TooDeep));
    scene.play(1, &mut world);
    assert!(world.objects.contains(1));
    scene.play_at(0, &mut world, Alpha::zero());
    assert_eq!(scene.try_play(2, &mut world, 5), Err(Fault::MissingMotion(2)));
}

#[test]
fn an_embedded_scene_is_an_effect() {
    let mut b = SceneBuilder::new();
    b.add_object_as(1, DynamicObject::fixed(square(11).with_transform(at(4, 0))));
    let inner = b.finish();
    let embedded = EmbededScene {
        scene: inner,
        transform: DynamicTransform::from(Transform { scale: 2 * UNIT, ..at(100, 0) }),
        speed: UNIT,
        object_id: 9,
        rooted: false,
    };
    let mut world = World::new(ObjectTree::new(), SIZE, HashMap::new());
    animate_effect(&embedded, &mut world, Alpha::full());
    assert!(world.objects.contains(9) && world.objects.contains(1));
    assert_eq!(world.objects.parent(1), Some(9));
    assert_eq!(world.objects.parent(9), None);
    assert_eq!(
        world.objects.try_local_bounding_box(9),
        Ok(Rect::from_min_max(Point::new(88, -20), Point::new(128, 20)))
    );
}
