use enimate::alpha::Alpha;
use enimate::fault::Fault;
use enimate::geometry::{Point, Rect, Transform};
use enimate::object::{
    Color, FillMaterial, Material, Model, Object, ObjectKind, StrokeMaterial,
};
use enimate::object_tree::{ObjectTree, RenderObjectKind};
use enimate::trig::UNIT;

fn red() -> Color {
    Color::new(255, 0, 0, 255)
}

fn square(shape: usize) -> Object {
    Object::new_model(
        shape,
        Rect::from_min_max(Point::new(-1, -1), Point::new(1, 1)),
        Material::from(FillMaterial::new(red())),
    )
}

fn at(x: i64, y: i64) -> Transform {
    Transform::identity().with_position(Point::new(x, y))
}

fn children_of(tree: &ObjectTree, id: usize) -> Vec<usize> {
    match &tree.get(id).unwrap().object_kind {
        ObjectKind::Group(c) => c.clone(),
        ObjectKind::Model(_) => panic!("not a group"),
    }
}

#[test]
fn a_new_tree_holds_an_empty_root() {
    let tree = ObjectTree::new();
    assert_eq!(tree.root(), 0);
    assert_eq!(tree.len(), 1);
    assert!(tree.contains(0));
    assert_eq!(children_of(&tree, 0), Vec::<usize>::new());
    assert_eq!(tree.render(), vec![]);
}

#[test]
fn rooted_objects_become_children_of_the_root_in_order() {
    let mut tree = ObjectTree::new();
    tree.add(7, square(1), true);
    tree.add(3, square(2), true);
    tree.add(9, square(3), false);
    assert_eq!(children_of(&tree, 0), vec![7, 3]);
    assert_eq!(tree.parent(7), Some(0));
    assert_eq!(tree.parent(3), Some(0));
    assert_eq!(tree.parent(9), None);
    assert_eq!(tree.len(), 4);
}

#[test]
fn groups_link_their_children() {
    let mut tree = ObjectTree::new();
    tree.add(1, square(1), false);
    tree.add(2, square(2), false);
    tree.add(5, Object::new_group(vec![1, 2]), true);
    assert_eq!(tree.parent(1), Some(5));
    assert_eq!(tree.parent(2), Some(5));
    assert_eq!(tree.parent(5), Some(0));
}

#[test]
fn rooting_under_a_model_is_a_fault() {
    let mut tree = ObjectTree::new();
    tree.add(0, square(1), false);
    assert_eq!(tree.try_add(4, square(2), true), Err(Fault::RootNotGroup));
    assert!(!tree.contains(4));
}

#[test]
fn rooting_without_a_root_is_a_fault() {
    let mut tree = ObjectTree::new();
    assert!(tree.remove(0).is_some());
    assert_eq!(tree.try_add(4, square(2), true), Err(Fault::MissingObject(0)));
}

#[test]
fn render_is_depth_first_and_later_siblings_come_later() {
    let mut tree = ObjectTree::new();
    tree.add(1, square(11).with_transform(at(1, 0)), false);
    tree.add(2, square(12).with_transform(at(2, 0)), false);
    tree.add(5, Object::new_group(vec![1, 2]).with_transform(at(10, 0)), true);
    tree.add(6, square(13).with_transform(at(0, 5)), true);
    let items = tree.render();
    let ids: Vec<usize> = items.iter().map(|i| i.id).collect();
    assert_eq!(ids, vec![1, 2, 6]);
    assert_eq!(items[0].transform.position, Point::new(11, 0));
    assert_eq!(items[1].transform.position, Point::new(12, 0));
    assert_eq!(items[2].transform.position, Point::new(0, 5));
    assert_eq!(items[0].shape, 11);
    assert_eq!(items[0].kind, RenderObjectKind::Fill);
    assert_eq!(items[0].color, red());
}

#[test]
fn a_model_draws_its_fill_before_its_stroke() {
    let mut tree = ObjectTree::new();
    let material = Material {
        fill: Some(FillMaterial::new(red())),
        stroke: Some(StrokeMaterial::new(Color::new(0, 0, 255, 255), 100)),
    };
    tree.add(1, Object::new_model(3, Rect::nothing(), material), true);
    let items = tree.render();
    assert_eq!(items.len(), 2);
    assert_eq!(items[0].kind, RenderObjectKind::Fill);
    assert_eq!(items[0].width, 0);
    assert_eq!(items[1].kind, RenderObjectKind::Stroke);
    assert_eq!(items[1].width, 100);
}

#[test]
fn a_model_without_paint_cannot_be_drawn() {
    let mut tree = ObjectTree::new();
    tree.add(1, Object::new_model(3, Rect::nothing(), Material::none()), true);
    assert_eq!(tree.try_render(), Err(Fault::Unpainted(1)));
}

#[test]
fn a_missing_child_is_a_fault() {
    let mut tree = ObjectTree::new();
    tree.add(5, Object::new_group(vec![42]), true);
    assert_eq!(tree.try_render(), Err(Fault::MissingObject(42)));
    assert_eq!(tree.try_local_bounding_box(5), Err(Fault::MissingObject(42)));
    assert!(tree.try_bounding_boxes().is_err());
}

#[test]
fn a_group_that_holds_itself_is_too_deep() {
    let mut tree = ObjectTree::new();
    tree.add(5, Object::new_group(vec![5]), true);
    assert_eq!(tree.try_render(), Err(Fault::TooDeep));
    assert_eq!(tree.try_local_bounding_box(5), Err(Fault::TooDeep));
}

#[test]
fn bounding_boxes_compose_the_placements() {
    let mut tree = ObjectTree::new();
    tree.add(1, square(11).with_transform(at(1, 0)), false);
    tree.add(2, square(12).with_transform(at(5, 5)), false);
    tree.add(5, Object::new_group(vec![1, 2]).with_transform(at(10, 0)), true);
    let local = tree.local_bounding_box(5);
    assert_eq!(local, Rect::from_min_max(Point::new(10, -1), Point::new(16, 6)));
    let boxes = tree.bounding_boxes();
    assert_eq!(boxes.len(), 4);
    assert_eq!(boxes[&1], Rect::from_min_max(Point::new(10, -1), Point::new(12, 1)));
    assert_eq!(boxes[&2], Rect::from_min_max(Point::new(14, 4), Point::new(16, 6)));
    assert_eq!(boxes[&5], local);
    assert_eq!(boxes[&0], local);
}

#[test]
fn scale_applies_to_what_is_below() {
    let mut tree = ObjectTree::new();
    tree.add(1, square(11).with_transform(at(2, 0)), false);
    let group = Transform { scale: 3 * UNIT, ..at(100, 0) };
    tree.add(5, Object::new_group(vec![1]).with_transform(group), true);
    let boxes = tree.bounding_boxes();
    assert_eq!(boxes[&1], Rect::from_min_max(Point::new(103, -3), Point::new(109, 3)));
}

#[test]
fn flattened_transform_composes_the_ancestors() {
    let mut tree = ObjectTree::new();
    tree.add(1, square(11).with_transform(at(1, 1)), false);
    tree.add(5, Object::new_group(vec![1]).with_transform(at(10, 0)), false);
    tree.add(6, Object::new_group(vec![5]).with_transform(at(0, 100)), true);
    assert_eq!(tree.flattened_transform(1).position, Point::new(10, 100));
    assert_eq!(tree.flattened_transform(0), Transform::identity());
}

#[test]
fn merge_takes_over_objects_and_links() {
    let mut sub = ObjectTree::new();
    sub.add(1, square(11).with_transform(at(1, 0)), true);
    sub.add(2, square(12).with_transform(at(2, 0)), true);
    let mut main = ObjectTree::new();
    main.add(9, square(19), true);
    let rooted = main.merge(sub, 50);
    assert_eq!(rooted, vec![1, 2]);
    assert!(main.contains(1) && main.contains(2) && main.contains(50) && main.contains(9));
    assert_eq!(main.parent(1), Some(50));
    assert_eq!(main.parent(2), Some(50));
    assert_eq!(main.parent(9), Some(0));
    assert_eq!(children_of(&main, 0), vec![9]);
    assert_eq!(children_of(&main, 50), vec![1, 2]);
}

#[test]
fn embedding_moves_the_bounds() {
    let mut sub = ObjectTree::new();
    sub.add(1, square(11).with_transform(at(1, 0)), true);
    sub.add(2, square(12).with_transform(at(5, 5)), false);
    sub.add(3, Object::new_group(vec![2]).with_transform(at(0, 10)), true);
    let alone = sub.bounding_boxes();

    let mut main = ObjectTree::new();
    main.add(9, square(19), true);
    let rooted = main.merge(sub, 50);
    main.add(50, Object::new_group(rooted).with_transform(at(100, -100)), true);

    let items = main.render();
    let ids: Vec<usize> = items.iter().map(|i| i.id).collect();
    assert_eq!(ids, vec![9, 1, 2]);

    let boxes = main.bounding_boxes();
    let by = Point::new(100, -100);
    for id in [1usize, 2, 3] {
        let b = alone[&id];
        assert_eq!(boxes[&id], Rect::from_min_max(b.min.plus(&by), b.max.plus(&by)));
    }
    let whole = alone[&0];
    assert_eq!(boxes[&50], Rect::from_min_max(whole.min.plus(&by), whole.max.plus(&by)));
}

#[test]
fn set_transform_places_an_object() {
    let mut tree = ObjectTree::new();
    tree.add(1, square(11), true);
    tree.set_transform(1, at(4, 4));
    assert_eq!(tree.try_transform_of(1), Ok(at(4, 4)));
    assert_eq!(tree.try_set_transform(2, at(4, 4)), Err(Fault::MissingObject(2)));
    assert_eq!(tree.try_transform_of(2), Err(Fault::MissingObject(2)));
}

#[test]
fn colours_fade_by_their_alpha_channel() {
    let c = Color::new(10, 20, 30, 255);
    assert_eq!(c.faded(Alpha { num: 1, den: 2 }), Color::new(10, 20, 30, 127));
    assert_eq!(c.faded(Alpha::full()), c);
    assert_eq!(c.faded(Alpha::zero()), Color::new(10, 20, 30, 0));
    let half = Color::new(10, 20, 30, 100);
    assert_eq!(half.faded(Alpha { num: 1, den: 4 }), Color::new(10, 20, 30, 25));
}

#[test]
fn materials_come_from_a_fill_or_a_stroke() {
    let fill = FillMaterial::new(red());
    assert_eq!(Material::from(fill), Material { fill: Some(fill), stroke: None });
    let stroke = StrokeMaterial::new(red(), 3);
    assert_eq!(Material::from(stroke), Material { fill: None, stroke: Some(stroke) });
    let m = Model::new(1, Rect::nothing(), Material::from(fill));
    assert_eq!(m.shape, 1);
}

#[test]
fn a_copy_of_a_tree_holds_what_the_tree_holds() {
    let mut tree = ObjectTree::new();
    tree.add(1, square(11).with_transform(at(1, 0)), false);
    tree.add(2, square(12).with_transform(at(5, 5)), false);
    tree.add(5, Object::new_group(vec![1, 2]).with_transform(at(10, 0)), true);
    let copy = tree.duplicate();
    assert_eq!(copy.root(), tree.root());
    assert_eq!(copy.len(), tree.len());
    assert_eq!(copy.render(), tree.render());
    assert_eq!(copy.bounding_boxes(), tree.bounding_boxes());
    assert_eq!(copy.parent(1), Some(5));
    assert_eq!(copy.parent(5), Some(0));
    // Changing the tree does not change the copy.
    tree.set_transform(1, at(100, 100));
    assert_eq!(copy.transform_of(1), at(1, 0));
}

#[test]
fn merging_from_a_tree_leaves_that_tree_alone() {
    let mut sub = ObjectTree::new();
    sub.add(1, square(11), true);
    let mut main = ObjectTree::new();
    let rooted = main.merge_from(&sub, 50);
    assert_eq!(rooted, vec![1]);
    assert!(main.contains(1) && main.contains(50));
    assert!(sub.contains(1) && sub.contains(0));
}
