use enimate::alpha::Alpha;
use enimate::building::SceneBuilder;
use enimate::dynamics::{DynamicObject, DynamicPoint, DynamicScalar, DynamicTransform};
use enimate::easing::Easing;
use enimate::fault::Fault;
use enimate::geometry::{Point, Rect, Transform};
use enimate::motion::{
    AddObject, AnimateTransform, EmbededScene, FadeIn, Keyframe, Motion, Move, MoveTo, Scene,
    SetTransform, SetVariable, Trigger,
};
use enimate::object::{
    Color, FillMaterial, Material, Object, ObjectKind, StrokeMaterial,
};
use enimate::object_tree::ObjectTree;
use enimate::spacing::Alignment;
use enimate::timing::Window;
use enimate::trig::UNIT;

const SIZE: (i64, i64) = (1600 * UNIT, 900 * UNIT);

fn square(shape: usize) -> Object {
    Object::new_model(
        shape,
        Rect::from_min_max(Point::new(-UNIT, -UNIT), Point::new(UNIT, UNIT)),
        Material {
            fill: Some(FillMaterial::new(Color::new(255, 0, 0, 255))),
            stroke: Some(StrokeMaterial::new(Color::new(0, 0, 255, 200), 100)),
        },
    )
}

fn at(x: i64, y: i64) -> Transform {
    Transform::identity().with_position(Point::new(x, y))
}

fn position(tree: &ObjectTree, id: usize) -> Point {
    tree.transform_of(id).position
}

fn children_of(tree: &ObjectTree, id: usize) -> Vec<usize> {
    match &tree.get(id).unwrap().object_kind {
        ObjectKind::Group(c) => c.clone(),
        ObjectKind::Model(_) => panic!("not a group"),
    }
}

fn fill_alpha(tree: &ObjectTree, id: usize) -> u8 {
    match &tree.get(id).unwrap().object_kind {
        ObjectKind::Model(m) => m.material.fill.unwrap().color.a,
        ObjectKind::Group(_) => panic!("not a model"),
    }
}

fn stroke_alpha(tree: &ObjectTree, id: usize) -> u8 {
    match &tree.get(id).unwrap().object_kind {
        ObjectKind::Model(m) => m.material.stroke.unwrap().color.a,
        ObjectKind::Group(_) => panic!("not a model"),
    }
}

#[test]
fn the_null_scene_shows_an_empty_root() {
    let scene = Scene::null();
    assert_eq!(scene.length(), 0);
    let tree = scene.render_at(0, SIZE);
    assert_eq!(tree.len(), 1);
    assert_eq!(tree.render(), vec![]);
}

#[test]
fn two_objects_and_a_wait() {
    let mut b = SceneBuilder::new();
    b.add_object_as(1, DynamicObject::fixed(square(11).with_transform(at(1, 2))));
    b.add_object_as(2, DynamicObject::fixed(square(12).with_transform(at(3, 4))));
    b.play(Motion::Wait, 5000);
    let scene = b.finish();
    assert_eq!(scene.length(), 5000);

    let first = scene.render_at(0, SIZE);
    assert!(first.contains(1) && first.contains(2));
    assert_eq!(children_of(&first, 0), vec![1, 2]);

    let last = scene.render_at(5000, SIZE);
    assert!(last.contains(1) && last.contains(2));
    assert_eq!(children_of(&last, 0), vec![1, 2]);
    assert_eq!(first.render(), last.render());
    assert_eq!(position(&last, 1), Point::new(1, 2));
    assert_eq!(position(&last, 2), Point::new(3, 4));
}

fn keyframed() -> Scene {
    let mut b = SceneBuilder::new();
    b.add_object_as(1, DynamicObject::fixed(square(11)));
    let slide = b.add_motion(Motion::AnimateTransform(AnimateTransform {
        object_id: 1,
        from: at(0, 0),
        to: at(10 * UNIT, 0),
    }));
    b.play(
        Motion::Keyframe(Keyframe {
            from: Window::new(2000, 3000, 5000),
            to: Window::whole(1000),
            motion: slide,
        }),
        5000,
    );
    b.finish()
}

#[test]
fn a_slide_inside_a_keyframe_window() {
    let scene = keyframed();
    assert_eq!(scene.length(), 5000);
    assert_eq!(position(&scene.render_at(1000, SIZE), 1), Point::new(0, 0));
    assert_eq!(position(&scene.render_at(2500, SIZE), 1), Point::new(5 * UNIT, 0));
    assert_eq!(position(&scene.render_at(10_000, SIZE), 1), Point::new(10 * UNIT, 0));
}

#[test]
fn rendering_twice_gives_the_same_tree() {
    let scene = keyframed();
    for time in [0u32, 1999, 2000, 2750, 3000, 5000, 7000] {
        let a = scene.render_at(time, SIZE);
        let b = scene.render_at(time, SIZE);
        assert_eq!(a.render(), b.render());
        assert_eq!(a.bounding_boxes(), b.bounding_boxes());
        assert_eq!(a.len(), b.len());
    }
}

#[test]
fn seeking_backwards_is_as_good_as_forwards() {
    let scene = keyframed();
    let late = scene.render_at(2900, SIZE);
    let early = scene.render_at(2100, SIZE);
    let late_again = scene.render_at(2900, SIZE);
    assert_eq!(position(&early, 1), Point::new(UNIT, 0));
    assert_eq!(position(&late, 1), position(&late_again, 1));
    assert_eq!(position(&late, 1), Point::new(9 * UNIT, 0));
}

#[test]
fn a_sequence_does_not_add_what_is_not_due() {
    let mut b = SceneBuilder::new();
    b.play(Motion::Wait, 1000);
    b.add_object_as(1, DynamicObject::fixed(square(11)));
    b.play(Motion::Wait, 1000);
    let scene = b.finish();
    assert!(!scene.render_at(999, SIZE).contains(1));
    assert!(scene.render_at(1000, SIZE).contains(1));
    assert!(scene.render_at(2000, SIZE).contains(1));
}

#[test]
fn a_sequence_goes_from_child_to_child() {
    let mut b = SceneBuilder::new();
    b.add_object_as(1, DynamicObject::fixed(square(11)));
    b.play(
        Motion::Move(Move {
            from: DynamicPoint::Literal(Point::new(0, 0)),
            to: DynamicPoint::Literal(Point::new(100, 0)),
            object_id: 1,
        }),
        100,
    );
    b.play(
        Motion::Move(Move {
            from: DynamicPoint::Literal(Point::new(100, 0)),
            to: DynamicPoint::Literal(Point::new(100, 300)),
            object_id: 1,
        }),
        300,
    );
    let scene = b.finish();
    assert_eq!(scene.length(), 400);
    assert_eq!(position(&scene.render_at(99, SIZE), 1), Point::new(99, 0));
    assert_eq!(position(&scene.render_at(100, SIZE), 1), Point::new(100, 0));
    assert_eq!(position(&scene.render_at(399, SIZE), 1), Point::new(100, 299));
    assert_eq!(position(&scene.render_at(400, SIZE), 1), Point::new(100, 300));
}

#[test]
fn shorter_concurrent_children_hold_their_end() {
    let mut b = SceneBuilder::new();
    b.add_object_as(1, DynamicObject::fixed(square(11)));
    b.add_object_as(2, DynamicObject::fixed(square(12)));
    let short = b.add_motion(Motion::Move(Move {
        from: DynamicPoint::Literal(Point::new(0, 0)),
        to: DynamicPoint::Literal(Point::new(200, 0)),
        object_id: 1,
    }));
    let long = b.add_motion(Motion::Move(Move {
        from: DynamicPoint::Literal(Point::new(0, 0)),
        to: DynamicPoint::Literal(Point::new(0, 400)),
        object_id: 2,
    }));
    let both = b.concurrently(vec![(short, 200), (long, 400)]);
    b.play(Motion::Eased(Easing::Linear, both), 400);
    let scene = b.finish();
    let t = scene.render_at(100, SIZE);
    assert_eq!(position(&t, 1), Point::new(100, 0));
    assert_eq!(position(&t, 2), Point::new(0, 100));
    let t = scene.render_at(200, SIZE);
    assert_eq!(position(&t, 1), Point::new(200, 0));
    assert_eq!(position(&t, 2), Point::new(0, 200));
    let t = scene.render_at(300, SIZE);
    assert_eq!(position(&t, 1), Point::new(200, 0));
    assert_eq!(position(&t, 2), Point::new(0, 300));
}

#[test]
fn a_trigger_fires_at_its_time_and_ever_after() {
    let mut b = SceneBuilder::new();
    let add = b.add_motion(Motion::AddObject(AddObject {
        object_id: 1,
        object: DynamicObject::fixed(square(11)),
        rooted: true,
    }));
    b.play(Motion::Trigger(Trigger { time: Alpha { num: 1, den: 2 }, motion: add }), 1000);
    let scene = b.finish();
    assert!(!scene.render_at(499, SIZE).contains(1));
    assert!(scene.render_at(500, SIZE).contains(1));
    assert!(scene.render_at(1000, SIZE).contains(1));
}

#[test]
fn move_to_starts_where_the_object_is() {
    let mut b = SceneBuilder::new();
    b.add_object_as(1, DynamicObject::fixed(square(11).with_transform(at(10, 10))));
    b.play(
        Motion::MoveTo(MoveTo { to: DynamicPoint::Literal(Point::new(20, 30)), object_id: 1 }),
        10,
    );
    let scene = b.finish();
    assert_eq!(position(&scene.render_at(0, SIZE), 1), Point::new(10, 10));
    assert_eq!(position(&scene.render_at(5, SIZE), 1), Point::new(15, 20));
    assert_eq!(position(&scene.render_at(10, SIZE), 1), Point::new(20, 30));
}

#[test]
fn fade_in_scales_fill_and_stroke_through_groups() {
    let mut b = SceneBuilder::new();
    b.add_object_as(1, DynamicObject::fixed(square(11)));
    let group = b.add_motion(Motion::AddObject(AddObject {
        object_id: 5,
        object: DynamicObject::new_group(vec![1]),
        rooted: false,
    }));
    b.play(Motion::Eased(Easing::Linear, group), 0);
    b.play(Motion::FadeIn(FadeIn { object_id: 5 }), 1000);
    let scene = b.finish();
    let t = scene.render_at(0, SIZE);
    assert_eq!(fill_alpha(&t, 1), 0);
    assert_eq!(stroke_alpha(&t, 1), 0);
    let t = scene.render_at(500, SIZE);
    assert_eq!(fill_alpha(&t, 1), 127);
    assert_eq!(stroke_alpha(&t, 1), 100);
    let t = scene.render_at(1000, SIZE);
    assert_eq!(fill_alpha(&t, 1), 255);
    assert_eq!(stroke_alpha(&t, 1), 200);
    assert_eq!(t.parent(1), Some(5));
}

#[test]
fn variables_feed_dynamic_values() {
    let scene = Scene {
        motions: vec![
            Motion::SetVariable(SetVariable { var: 7, value: DynamicScalar::Literal(42) }),
            Motion::SetVariable(SetVariable { var: 8, value: DynamicScalar::Variable(7) }),
            Motion::AddObject(AddObject {
                object_id: 1,
                object: DynamicObject::fixed(square(11)),
                rooted: true,
            }),
            Motion::SetTransform(SetTransform {
                object_id: 1,
                transform: DynamicTransform {
                    position: DynamicPoint::Variables(7, 8),
                    scale: DynamicScalar::Literal(UNIT),
                    rotation: DynamicScalar::Literal(0),
                    anchor: DynamicPoint::Literal(Point::zero()),
                },
            }),
            Motion::Sequence(vec![(0, 0), (1, 0), (2, 0), (3, 0)]),
        ],
        root: 4,
        length: 0,
    };
    assert_eq!(position(&scene.render_at(0, SIZE), 1), Point::new(42, 42));
}

#[test]
fn the_builder_tries_motions_out_without_variables() {
    let mut b = SceneBuilder::new();
    b.play(Motion::SetVariable(SetVariable { var: 7, value: DynamicScalar::Literal(42) }), 0);
    let r = b.try_play(
        Motion::SetVariable(SetVariable { var: 8, value: DynamicScalar::Variable(7) }),
        0,
    );
    assert_eq!(r, Err(Fault::MissingVariable(7)));
    let scene = b.finish();
    // Two motions are registered, one is played, and the root comes last.
    assert_eq!(scene.motions.len(), 3);
    assert_eq!(scene.root, 2);
    match &scene.motions[2] {
        Motion::Sequence(items) => assert_eq!(items, &vec![(0usize, 0u32)]),
        _ => panic!("the root is a sequence"),
    }
}

#[test]
fn reading_an_unset_variable_is_a_fault() {
    let scene = Scene {
        motions: vec![Motion::SetVariable(SetVariable {
            var: 1,
            value: DynamicScalar::Variable(2),
        })],
        root: 0,
        length: 10,
    };
    assert_eq!(scene.try_render_at(0, SIZE).err(), Some(Fault::MissingVariable(2)));
    let tree = scene.render_with_input(0, SIZE, &vec![(2, 5), (2, 6)]);
    assert_eq!(tree.len(), 1);
}

#[test]
fn moving_what_is_not_there_is_a_fault() {
    let scene = Scene {
        motions: vec![Motion::MoveTo(MoveTo {
            to: DynamicPoint::Literal(Point::zero()),
            object_id: 9,
        })],
        root: 0,
        length: 10,
    };
    assert_eq!(scene.try_render_at(0, SIZE).err(), Some(Fault::MissingObject(9)));
}

#[test]
fn naming_a_motion_that_is_not_there_is_a_fault() {
    let scene = Scene { motions: vec![Motion::Sequence(vec![(5, 10)])], root: 0, length: 10 };
    assert_eq!(scene.try_render_at(0, SIZE).err(), Some(Fault::MissingMotion(5)));
    let scene = Scene { motions: vec![], root: 0, length: 10 };
    assert_eq!(scene.try_render_at(0, SIZE).err(), Some(Fault::MissingMotion(0)));
}

#[test]
fn a_motion_that_names_itself_is_too_deep() {
    let scene = Scene { motions: vec![Motion::Eased(Easing::Linear, 0)], root: 0, length: 10 };
    assert_eq!(scene.try_render_at(0, SIZE).err(), Some(Fault::TooDeep));
}

#[test]
fn motions_may_be_named_before_they_are_registered() {
    let scene = Scene {
        motions: vec![
            Motion::Sequence(vec![(1, 0), (2, 10)]),
            Motion::AddObject(AddObject {
                object_id: 1,
                object: DynamicObject::fixed(square(11)),
                rooted: true,
            }),
            Motion::Wait,
        ],
        root: 0,
        length: 10,
    };
    assert!(scene.render_at(0, SIZE).contains(1));
}

#[test]
fn alignment_reads_the_bounds_of_its_target() {
    let mut b = SceneBuilder::new();
    b.add_object_as(1, DynamicObject::fixed(square(11).with_transform(at(10 * UNIT, 0))));
    b.add_object_as(2, DynamicObject::fixed(square(12)));
    b.play(
        Motion::Move(Move {
            from: DynamicPoint::Aligned(Alignment::new(2)),
            to: DynamicPoint::Aligned(Alignment::new(1).left().bottom()),
            object_id: 2,
        }),
        100,
    );
    let scene = b.finish();
    assert_eq!(position(&scene.render_at(0, SIZE), 2), Point::new(0, 0));
    assert_eq!(
        position(&scene.render_at(100, SIZE), 2),
        Point::new(9 * UNIT, UNIT)
    );
}

#[test]
fn an_embedded_scene_plays_inside_a_group() {
    let scene = keyframed();
    let embedded = EmbededScene {
        scene,
        transform: DynamicTransform::from(Transform {
            position: Point::new(-2 * UNIT, 0),
            rotation: 0,
            scale: UNIT / 2,
            anchor: Point::zero(),
        }),
        speed: 2 * UNIT,
        object_id: 77,
        rooted: true,
    };
    assert_eq!(embedded.duration(), 2500);
    let mut b = SceneBuilder::new();
    b.play(Motion::EmbeddedScene(embedded), 2500);
    let outer = b.finish();
    assert_eq!(outer.length(), 2500);

    // A quarter of the way through the outer scene the inner one stands at
    // 5000 * 1/4 * 2 = 2500 of its 5000 ticks.
    let tree = outer.render_at(625, SIZE);
    assert_eq!(children_of(&tree, 0), vec![77]);
    assert_eq!(children_of(&tree, 77), vec![1]);
    assert_eq!(position(&tree, 1), Point::new(5 * UNIT, 0));
    assert_eq!(tree.parent(1), Some(77));
    let items = tree.render();
    assert_eq!(items.len(), 2);
    assert_eq!(items[0].transform.position, Point::new(UNIT / 2, 0));
    assert_eq!(items[0].transform.scale, UNIT / 2);
}
