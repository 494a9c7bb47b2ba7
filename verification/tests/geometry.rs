use enimate::alpha::Alpha;
use enimate::geometry::{fixed_div, fixed_mul, Point, Rect, Transform};
use enimate::trig::{cos, reduce_angle, sin, FULL_TURN, HALF_TURN, QUARTER_TURN, UNIT};

#[test]
fn sine_is_exact_at_the_marked_angles() {
    assert_eq!(sin(0), 0);
    assert_eq!(sin(30_000), UNIT / 2);
    assert_eq!(sin(QUARTER_TURN), UNIT);
    assert_eq!(sin(150_000), UNIT / 2);
    assert_eq!(sin(HALF_TURN), 0);
    assert_eq!(sin(270_000), -UNIT);
    assert_eq!(sin(-QUARTER_TURN), -UNIT);
    assert_eq!(sin(FULL_TURN + 30_000), UNIT / 2);
}

#[test]
fn cosine_is_the_sine_a_quarter_turn_on() {
    assert_eq!(cos(0), UNIT);
    assert_eq!(cos(QUARTER_TURN), 0);
    assert_eq!(cos(HALF_TURN), -UNIT);
    assert_eq!(cos(60_000), UNIT / 2);
}

#[test]
fn sine_of_an_eighth_turn_is_approximate() {
    assert_eq!(sin(45_000), 705_882);
}

#[test]
fn angles_are_reduced_to_one_turn() {
    assert_eq!(reduce_angle(-1), FULL_TURN - 1);
    assert_eq!(reduce_angle(FULL_TURN), 0);
    assert_eq!(reduce_angle(725_000), 5_000);
}

#[test]
fn fixed_point_products_round_down() {
    assert_eq!(fixed_mul(3, UNIT / 2), 1);
    assert_eq!(fixed_mul(-3, UNIT / 2), -2);
    assert_eq!(fixed_mul(i64::MAX, 2 * UNIT), i64::MAX);
    assert_eq!(fixed_div(3, 2 * UNIT), 1);
    assert_eq!(fixed_div(3, -2 * UNIT), -2);
    assert_eq!(fixed_div(3, 0), i64::MAX);
    assert_eq!(fixed_div(-3, 0), i64::MIN);
    assert_eq!(fixed_div(0, 0), 0);
}

#[test]
fn a_quarter_turn_takes_x_to_y() {
    let p = Point::new(1_000, 0).rotated(QUARTER_TURN);
    assert_eq!(p, Point::new(0, 1_000));
}

#[test]
fn apply_anchors_turns_scales_and_moves() {
    let t = Transform {
        position: Point::new(5, 0),
        rotation: 0,
        scale: 2 * UNIT,
        anchor: Point::new(1, 1),
    };
    assert_eq!(t.apply(Point::new(2, 1)), Point::new(7, 0));
    let turned = Transform { rotation: QUARTER_TURN, ..t };
    assert_eq!(turned.apply(Point::new(2, 1)), Point::new(5, 2));
}

#[test]
fn the_identity_changes_nothing() {
    let id = Transform::identity();
    assert_eq!(id.apply(Point::new(-7, 9)), Point::new(-7, 9));
    let t = Transform {
        position: Point::new(5, 3),
        rotation: 30_000,
        scale: 3 * UNIT,
        anchor: Point::new(1, 1),
    };
    assert_eq!(id.and_then(&t), t);
}

#[test]
fn and_then_places_as_both_in_turn() {
    let outer = Transform {
        position: Point::new(100, 0),
        rotation: QUARTER_TURN,
        scale: 2 * UNIT,
        anchor: Point::zero(),
    };
    let inner = Transform {
        position: Point::new(10, 0),
        rotation: 0,
        scale: UNIT,
        anchor: Point::zero(),
    };
    let both = outer.and_then(&inner);
    assert_eq!(both.position, Point::new(100, 20));
    assert_eq!(both.rotation, QUARTER_TURN);
    assert_eq!(both.scale, 2 * UNIT);
    let p = Point::new(3, 0);
    assert_eq!(both.apply(p), outer.apply(inner.apply(p)));
}

#[test]
fn map_aabb_bounds_the_four_corners() {
    let t = Transform {
        position: Point::new(10, 10),
        rotation: QUARTER_TURN,
        scale: UNIT,
        anchor: Point::zero(),
    };
    let r = t.map_aabb(Rect::from_min_max(Point::new(0, 0), Point::new(4, 2)));
    assert_eq!(r, Rect::from_min_max(Point::new(8, 10), Point::new(10, 14)));
}

#[test]
fn union_with_nothing_gives_the_other() {
    let r = Rect::from_min_max(Point::new(-1, -2), Point::new(3, 4));
    assert_eq!(Rect::nothing().union(&r), r);
    assert_eq!(r.union(&Rect::nothing()), r);
    assert_eq!(r.center(), Point::new(1, 1));
    assert_eq!(r.left(), -1);
    assert_eq!(r.right(), 3);
    assert_eq!(r.top(), -2);
    assert_eq!(r.bottom(), 4);
}

#[test]
fn transforms_interpolate_field_by_field() {
    let a = Transform::identity();
    let b = Transform {
        position: Point::new(10, -10),
        rotation: 90_000,
        scale: 3 * UNIT,
        anchor: Point::new(4, 4),
    };
    let half = a.interpolate(&b, Alpha { num: 1, den: 2 });
    assert_eq!(half.position, Point::new(5, -5));
    assert_eq!(half.rotation, 45_000);
    assert_eq!(half.scale, 2 * UNIT);
    assert_eq!(half.anchor, Point::new(2, 2));
    assert_eq!(a.interpolate(&b, Alpha::full()), b);
    assert_eq!(a.interpolate(&b, Alpha::zero()), a);
}
