use enimate::alpha::Alpha;
use enimate::building::{BuilderState, Handle, ObjectBuilder, SceneBuilder};
use enimate::dynamics::{DynamicObject, DynamicPoint, DynamicScalar, DynamicTransform};
use enimate::easing::Easing;
use enimate::fault::Fault;
use enimate::geometry::{Point, Rect, Transform};
use enimate::motion::{
    AddObject, AnimateTransform, FadeIn, Motion, MotionGenericUi, Start, PropertyMotion,
};
use enimate::object::{Color, FillMaterial, Material, Object, ObjectKind};
use enimate::object_tree::ObjectTree;
use enimate::properties::{
    Anchor, Interpolatable, PointProperty, Position, PropertyType, Rotation, Scale,
    ScalarProperty, TransformProperty,
};
use enimate::spacing::{Alignment, HorizontalAlignment, Pixels, VerticalAlignment, UNIT_GRID_HEIGHT};
use enimate::trig::UNIT;
use enimate::utils::{rotate_vec_around_0, rotate_vec_around_vector};
use enimate::world::World;
use std::collections::HashMap;

const SIZE: (i64, i64) = (1600 * UNIT, 900 * UNIT);

fn square(shape: usize) -> Object {
    Object::new_model(
        shape,
        Rect::from_min_max(Point::new(-10, -10), Point::new(10, 10)),
        Material::from(FillMaterial::new(Color::new(255, 0, 0, 255))),
    )
}

fn at(x: i64, y: i64) -> Transform {
    Transform::identity().with_position(Point::new(x, y))
}

fn children_of(tree: &ObjectTree, id: usize) -> Vec<usize> {
    match &tree.get(id).unwrap().object_kind {
        ObjectKind::Group(c) => c.clone(),
        ObjectKind::Model(_) => panic!("not a group"),
    }
}

#[test]
fn motions_are_named_in_the_order_they_are_registered() {
    let mut b = SceneBuilder::new();
    assert_eq!(b.add_motion(Motion::Wait), 0);
    assert_eq!(b.add_motion(Motion::Wait), 1);
    assert_eq!(b.sequence(vec![(0, 10), (1, 20)]), 2);
    assert_eq!(b.concurrently(vec![(0, 10), (1, 20)]), 3);
    assert_eq!(b.try_play(Motion::Eased(Easing::EaseIn, 2), 30), Ok(4));
    let scene = b.finish();
    assert_eq!(scene.root, 5);
    assert_eq!(scene.length(), 30);
    assert_eq!(scene.motions.len(), 6);
    assert_eq!(scene.motions[5].children(), vec![4]);
    assert_eq!(scene.motions[4].children(), vec![2]);
    assert_eq!(scene.motions[2].children(), vec![0, 1]);
    assert_eq!(scene.motions[0].children(), Vec::<usize>::new());
    assert_eq!(scene.motions[2].label(), "Sequence");
    assert_eq!(scene.motions[0].label(), "Noop");
}

#[test]
fn the_authoring_tree_follows_what_is_played() {
    let mut b = SceneBuilder::new();
    b.add_object_as(1, DynamicObject::fixed(square(11)));
    assert_eq!(b.objects().try_transform_of(1), Ok(Transform::identity()));
    b.play(
        Motion::AnimateTransform(AnimateTransform { object_id: 1, from: at(0, 0), to: at(50, 0) }),
        100,
    );
    assert_eq!(b.objects().try_transform_of(1), Ok(at(50, 0)));
}

#[test]
fn random_names_are_handed_back() {
    let mut b = SceneBuilder::new();
    let id = b.add_object(DynamicObject::fixed(square(11)));
    assert!(b.objects().contains(id));
    let scene = b.finish();
    match &scene.motions[0] {
        Motion::AddObject(a) => {
            assert_eq!(a.object_id, id);
            assert!(a.rooted);
        }
        _ => panic!("an object was added"),
    }
    assert!(scene.render_at(0, SIZE).contains(id));
}

#[test]
fn a_component_is_a_group_of_its_parts() {
    let mut b = SceneBuilder::new();
    assert!(!b.in_component());
    b.begin_component();
    assert!(b.in_component());
    b.add_object_as(1, DynamicObject::fixed(square(11)));
    b.begin_component();
    b.add_object_as(2, DynamicObject::fixed(square(12)));
    let inner = b.end_component_as(20, DynamicTransform::from(at(5, 5)));
    assert_eq!(inner.object_id, 20);
    assert_eq!(b.try_play(Motion::Wait, 10), Err(Fault::TimedInComponent));
    let outer = b.end_component_as(10, DynamicTransform::from(at(100, 0)));
    assert!(!b.in_component());
    assert_eq!(
        b.try_end_component_as(30, DynamicTransform::from(at(0, 0))).err(),
        Some(Fault::NoComponent)
    );
    let scene = b.finish();
    let tree = scene.render_at(0, SIZE);
    assert_eq!(children_of(&tree, 0), vec![10]);
    assert_eq!(children_of(&tree, outer.object_id), vec![1, 20]);
    assert_eq!(children_of(&tree, 20), vec![2]);
    let items = tree.render();
    assert_eq!(items.len(), 2);
    assert_eq!(items[0].transform.position, Point::new(100, 0));
    assert_eq!(items[1].transform.position, Point::new(105, 5));
}

#[test]
fn handles_make_motions_for_their_object() {
    let h = Handle { inner: (), object_id: 7 };
    assert_eq!(h.fade_in().object_id, 7);
    let m = h.mv(DynamicPoint::Literal(Point::new(1, 2)), DynamicPoint::Literal(Point::new(3, 4)));
    assert_eq!(m.object_id, 7);
    assert!(matches!(m.from, DynamicPoint::Literal(p) if p == Point::new(1, 2)));
    assert!(matches!(m.to, DynamicPoint::Literal(p) if p == Point::new(3, 4)));
    let m = h.move_to(DynamicPoint::Aligned(Alignment::new(3).right()));
    assert_eq!(m.object_id, 7);
    assert!(matches!(m.to, DynamicPoint::Aligned(a) if a == Alignment::new(3).right()));
}

#[test]
fn animation_builders_start_from_the_authoring_tree() {
    let mut b = SceneBuilder::new();
    b.add_object_as(1, DynamicObject::fixed(square(11).with_transform(at(10, 0))));
    b.add_object_as(2, DynamicObject::fixed(square(12).with_transform(at(100, 100))));
    let motions = b
        .animation(1)
        .translate(Point::new(0, 50))
        .rotate(90_000)
        .scale(2 * UNIT)
        .move_to(Alignment::new(2).left().top())
        .fade_in()
        .finish();
    assert_eq!(motions.len(), 5);
    match &motions[0] {
        Motion::AnimateTransform(a) => {
            assert_eq!(a.from, at(10, 0));
            assert_eq!(a.to, at(0, 50));
        }
        _ => panic!("a translation"),
    }
    match &motions[1] {
        Motion::AnimateTransform(a) => assert_eq!(a.to, Transform { rotation: 90_000, ..at(10, 0) }),
        _ => panic!("a rotation"),
    }
    match &motions[2] {
        Motion::AnimateTransform(a) => assert_eq!(a.to, Transform { scale: 2 * UNIT, ..at(10, 0) }),
        _ => panic!("a scaling"),
    }
    match &motions[3] {
        // The top left corner of the target is (90, 90); the centre of the
        // source is (10, 0).
        Motion::AnimateTransform(a) => assert_eq!(a.to, at(80, 90)),
        _ => panic!("a move"),
    }
    match &motions[4] {
        Motion::FadeIn(FadeIn { object_id }) => assert_eq!(*object_id, 1),
        _ => panic!("a fade"),
    }
    assert_eq!(b.animation(9).try_translate(Point::zero()).err(), Some(Fault::MissingObject(9)));
}

#[test]
fn animate_plays_motions_at_once() {
    let mut b = SceneBuilder::new();
    b.add_object_as(1, DynamicObject::fixed(square(11)));
    b.add_object_as(2, DynamicObject::fixed(square(12)));
    let first = b.animation(1).translate(Point::new(100, 0)).finish();
    let second = b.animation(2).translate(Point::new(0, 100)).finish();
    let mut motions = first;
    motions.extend(second);
    let id = b.animate(motions, 100);
    assert_eq!(id, 4);
    let scene = b.finish();
    assert_eq!(scene.motions[4].children(), vec![2, 3]);
    let tree = scene.render_at(50, SIZE);
    assert_eq!(tree.transform_of(1).position, Point::new(50, 0));
    assert_eq!(tree.transform_of(2).position, Point::new(0, 50));
}

#[test]
fn centred_anchors_turn_an_object_about_its_middle() {
    let b = SceneBuilder::new();
    let object = Object::new_model(
        1,
        Rect::from_min_max(Point::new(0, 0), Point::new(40, 20)),
        Material::from(FillMaterial::new(Color::new(1, 2, 3, 255))),
    )
    .with_transform(at(7, 7));
    let centred = b.with_centered_anchor(object);
    // The bounds in the parent's frame run from (7, 7) to (47, 27).
    assert_eq!(centred.transform.anchor, Point::new(27, 17));
    assert_eq!(centred.transform.position, Point::new(-20, -10));
}

#[test]
fn builder_state_emulates_without_keeping_variables() {
    let mut state = BuilderState::new();
    state.scene.motions.push(Motion::AddObject(AddObject {
        object_id: 1,
        object: DynamicObject::fixed(square(11)),
        rooted: true,
    }));
    state.scene.motions.push(Motion::SetVariable(enimate::motion::SetVariable {
        var: 3,
        value: DynamicScalar::Literal(9),
    }));
    state.emulate_motion(0);
    state.emulate_motion(1);
    assert!(state.world.objects.contains(1));
    assert!(state.world.variables.is_empty());
    assert_eq!(state.try_emulate_motion(2), Err(Fault::MissingMotion(2)));
}

#[test]
fn properties_read_and_write_one_field() {
    let mut tree = ObjectTree::new();
    tree.add(1, square(11).with_transform(at(3, 4)), true);
    let mut world = World::new(tree, SIZE, HashMap::new());
    let t = TransformProperty(1);
    assert_eq!(t.position(), Position(1));
    assert_eq!(t.scale(), Scale(1));
    assert_eq!(t.rotation(), Rotation(1));
    assert_eq!(t.anchor(), Anchor(1));
    assert_eq!(Position(1).try_get(&world), Ok(Point::new(3, 4)));
    Position(1).update(&mut world, Point::new(5, 6));
    Scale(1).update(&mut world, 3 * UNIT);
    Rotation(1).update(&mut world, 45_000);
    Anchor(1).update(&mut world, Point::new(1, 1));
    let want = Transform {
        position: Point::new(5, 6),
        rotation: 45_000,
        scale: 3 * UNIT,
        anchor: Point::new(1, 1),
    };
    assert_eq!(t.try_get(&world), Ok(want));
    assert_eq!(Scale(1).try_get(&world), Ok(3 * UNIT));
    assert_eq!(Rotation(1).try_get(&world), Ok(45_000));
    assert_eq!(Anchor(1).try_get(&world), Ok(Point::new(1, 1)));
    assert_eq!(PointProperty::Anchor(Anchor(1)).try_get(&world), Ok(Point::new(1, 1)));
    assert_eq!(ScalarProperty::Rotation(Rotation(1)).try_get(&world), Ok(45_000));
    assert_eq!(Position(2).try_get(&world), Err(Fault::MissingObject(2)));
    assert_eq!(Position(2).try_update(&mut world, Point::zero()), Err(Fault::MissingObject(2)));
    t.update(&mut world, at(0, 0));
    assert_eq!(t.try_get(&world), Ok(at(0, 0)));
}

#[test]
fn property_motions_set_and_animate() {
    let mut tree = ObjectTree::new();
    tree.add(1, square(11).with_transform(at(10, 10)), true);
    let mut world = World::new(tree, SIZE, HashMap::new());
    let half = Alpha { num: 1, den: 2 };
    let p = PointProperty::Position(Position(1));
    p.animate(DynamicPoint::Literal(Point::new(20, 30))).animate(&mut world, half);
    assert_eq!(Position(1).try_get(&world), Ok(Point::new(15, 20)));
    p.animate_from(DynamicPoint::Literal(Point::zero()), DynamicPoint::Literal(Point::new(8, 8)))
        .animate(&mut world, half);
    assert_eq!(Position(1).try_get(&world), Ok(Point::new(4, 4)));
    p.set(DynamicPoint::Literal(Point::new(1, 1))).animate(&mut world, half);
    assert_eq!(Position(1).try_get(&world), Ok(Point::new(1, 1)));
    let s = ScalarProperty::Scale(Scale(1));
    s.animate(DynamicScalar::Literal(3 * UNIT)).animate(&mut world, half);
    assert_eq!(Scale(1).try_get(&world), Ok(2 * UNIT));
    s.set(DynamicScalar::Literal(UNIT)).animate(&mut world, half);
    assert_eq!(Scale(1).try_get(&world), Ok(UNIT));
    s.animate_from(DynamicScalar::Literal(0), DynamicScalar::Literal(10))
        .animate(&mut world, half);
    assert_eq!(Scale(1).try_get(&world), Ok(5));
    let t = TransformProperty(1);
    t.set(DynamicTransform::from(at(2, 2))).animate(&mut world, half);
    assert_eq!(t.try_get(&world), Ok(at(2, 2)));
    t.animate(DynamicTransform::from(at(4, 4))).animate(&mut world, half);
    assert_eq!(t.try_get(&world), Ok(at(3, 3)));
    t.animate_from(DynamicTransform::from(at(0, 0)), DynamicTransform::from(at(10, 0)))
        .animate(&mut world, half);
    assert_eq!(t.try_get(&world), Ok(at(5, 0)));
    match p.set(DynamicPoint::Literal(Point::zero())) {
        PropertyMotion::Point(_, Start::Immediate, _) => {}
        _ => panic!("a set writes at once"),
    }
}

#[test]
fn values_interpolate() {
    let half = Alpha { num: 1, den: 2 };
    assert_eq!(Interpolatable::interpolate(&0i64, &11, half), 5);
    assert_eq!(
        Interpolatable::interpolate(&Point::new(0, 0), &Point::new(10, -10), half),
        Point::new(5, -5)
    );
    assert_eq!(Interpolatable::interpolate(&at(0, 0), &at(10, 10), half), at(5, 5));
}

#[test]
fn alignment_chooses_one_of_nine_points() {
    let a = Alignment::new(3);
    assert_eq!(a.target, 3);
    assert_eq!(a.horizontal, HorizontalAlignment::Center);
    assert_eq!(a.vertical, VerticalAlignment::Center);
    assert_eq!(a.left().horizontal, HorizontalAlignment::Left);
    assert_eq!(a.left().center().horizontal, HorizontalAlignment::Center);
    assert_eq!(a.right().horizontal, HorizontalAlignment::Right);
    assert_eq!(a.top().vertical, VerticalAlignment::Top);
    assert_eq!(a.bottom().vertical, VerticalAlignment::Bottom);
    assert_eq!(a.right().bottom().target, 3);
    let bb = Rect::from_min_max(Point::new(0, 10), Point::new(20, 50));
    assert_eq!(a.pick(&bb), Point::new(10, 30));
    assert_eq!(a.left().top().pick(&bb), Point::new(0, 10));
    assert_eq!(a.right().bottom().pick(&bb), Point::new(20, 50));
}

#[test]
fn alignment_reads_the_world() {
    let mut tree = ObjectTree::new();
    tree.add(1, square(11).with_transform(at(100, 0)), true);
    tree.add(2, square(12).with_transform(at(0, 7)), true);
    let world = World::new(tree, SIZE, HashMap::new());
    assert_eq!(Alignment::new(1).left().try_get(&world), Ok(Point::new(90, 0)));
    assert_eq!(Alignment::new(9).try_get(&world), Err(Fault::MissingObject(9)));
    assert_eq!(
        Alignment::new(1).right().top().try_position(2, &world.objects),
        Ok(Point::new(110, -17))
    );
}

#[test]
fn pixels_scale_with_the_surface() {
    let world = World::new(ObjectTree::new(), (1600 * UNIT, 900 * UNIT), HashMap::new());
    assert_eq!(UNIT_GRID_HEIGHT, 9 * UNIT);
    assert_eq!(Pixels(3).get(&world), 300);
    assert_eq!(world.render_size(), (1600 * UNIT, 900 * UNIT));
}

#[test]
fn worlds_hold_variables() {
    let mut world = World::new(ObjectTree::new(), SIZE, HashMap::new());
    assert_eq!(world.try_get_variable(1), Err(Fault::MissingVariable(1)));
    world.update_variable(1, 10);
    world.update_variables(&vec![(2, 20), (1, 11), (2, 21)]);
    assert_eq!(world.try_get_variable(1), Ok(11));
    assert_eq!(world.try_get_variable(2), Ok(21));
    assert_eq!(DynamicScalar::Variable(2).try_get(&world), Ok(21));
    assert_eq!(DynamicScalar::Pixels(Pixels(1)).try_get(&world), Ok(100));
    assert_eq!(DynamicPoint::Variables(1, 2).try_get(&world), Ok(Point::new(11, 21)));
    assert_eq!(DynamicPoint::Variables(1, 5).try_get(&world), Err(Fault::MissingVariable(5)));
}

#[test]
fn points_turn_about_a_centre() {
    assert_eq!(rotate_vec_around_0(Point::new(10, 0), 90_000), Point::new(0, 10));
    assert_eq!(
        rotate_vec_around_vector(Point::new(20, 10), 90_000, Point::new(10, 10)),
        Point::new(10, 20)
    );
    assert_eq!(Transform::default(), Transform::identity());
}

#[test]
fn animations_carry_a_duration_and_a_curve() {
    let a = Motion::Wait.with_duration(300);
    assert_eq!(a.duration(), 300);
    assert_eq!(a.easing, Easing::Linear);
    let a = a.with_easing(Easing::EaseOut);
    assert_eq!(a.duration(), 300);
    assert_eq!(a.easing, Easing::EaseOut);
}

#[test]
fn objects_are_placed_step_by_step_and_added() {
    let mut b = SceneBuilder::new();
    let id = ObjectBuilder::named(4, square(11))
        .with_transform(at(1, 1))
        .with_position(Point::new(7, 7))
        .with_scale(2 * UNIT)
        .with_rotation(0)
        .with_anchor(Point::new(1, 0))
        .add(&mut b);
    assert_eq!(id, 4);
    let want = Transform {
        position: Point::new(7, 7),
        rotation: 0,
        scale: 2 * UNIT,
        anchor: Point::new(1, 0),
    };
    assert_eq!(b.objects().try_transform_of(4), Ok(want));
    let centred = ObjectBuilder::named(5, square(12).with_transform(at(7, 7)))
        .with_centered_anchor(&b);
    assert_eq!(centred.object.transform.anchor, Point::new(7, 7));
    assert_eq!(centred.object.transform.position, Point::new(0, 0));
    let drawn = ObjectBuilder::new(square(13));
    let name = drawn.object_id;
    assert_eq!(drawn.try_add(&mut b), Ok(name));
    assert!(b.objects().contains(name));
}

#[test]
fn a_failed_trial_leaves_the_authoring_tree_as_it_was() {
    let mut b = SceneBuilder::new();
    b.add_object_as(1, DynamicObject::fixed(square(11).with_transform(at(3, 3))));
    let first = b.add_motion(Motion::Move(enimate::motion::Move {
        from: DynamicPoint::Literal(Point::new(0, 0)),
        to: DynamicPoint::Literal(Point::new(50, 50)),
        object_id: 1,
    }));
    let second = b.add_motion(Motion::FadeIn(FadeIn { object_id: 9 }));
    let both = b.sequence(vec![(first, 0), (second, 0)]);
    // The first motion moves the object, the second meets a fault.
    let r = b.try_play(Motion::Eased(Easing::Linear, both), 0);
    assert_eq!(r, Err(Fault::MissingObject(9)));
    assert_eq!(b.objects().transform_of(1), at(3, 3));
    assert_eq!(b.objects().len(), 2);
    let scene = b.finish();
    // The motion stays registered and is not played.
    assert_eq!(scene.motions.len(), 6);
    assert_eq!(scene.motions[5].children(), vec![0]);
}
