//! Points, rectangles and placement transforms in fixed-point coordinates.

use vstd::prelude::*;
use crate::alpha::{Alpha, Scalar, clamp_i64, floor_div, lerp, saturate, spec_lerp};
use crate::trig::{UNIT, cos, lemma_sin_cos_range, sin, spec_cos, spec_sin};

verus! {

/// A position or an offset in the plane.
#[derive(Clone, Copy, Debug, PartialEq, Eq, Structural)]
pub struct Point {
    pub x: Scalar,
    pub y: Scalar,
}

/// An axis-aligned rectangle, given by its least and greatest corner.
#[derive(Clone, Copy, Debug, PartialEq, Eq, Structural)]
pub struct Rect {
    pub min: Point,
    pub max: Point,
}

/// Where an object stands in its parent's frame: a point is taken relative
/// to `anchor`, turned by `rotation`, stretched by `scale` and moved to
/// `position`.
#[derive(Clone, Copy, Debug, PartialEq, Eq, Structural)]
pub struct Transform {
    pub position: Point,
    /// In thousandths of a degree.
    pub rotation: Scalar,
    /// In millionths: `UNIT` leaves sizes as they are.
    pub scale: Scalar,
    pub anchor: Point,
}

/// `v` saturated to a coordinate.
pub open spec fn sat(v: int) -> Scalar {
    clamp_i64(v) as i64
}

/// The product of a coordinate and a fixed-point factor.
pub open spec fn spec_fixed_mul(a: int, b: int) -> Scalar {
    sat((a * b) / (UNIT as int))
}

/// The quotient of two fixed-point numbers. Dividing by nothing saturates in
/// the direction of the dividend.
pub open spec fn spec_fixed_div(a: int, b: int) -> Scalar {
    if b > 0 {
        sat((a * UNIT) / b)
    } else if b < 0 {
        sat((-a * UNIT) / (-b))
    } else if a > 0 {
        i64::MAX
    } else if a < 0 {
        i64::MIN
    } else {
        0
    }
}

/// Multiplies a coordinate by a fixed-point factor, rounding down.
pub fn fixed_mul(a: Scalar, b: Scalar) -> (r: Scalar)
    ensures
        r == spec_fixed_mul(a as int, b as int),
{
    assert(-0x8000_0000_0000_0000 * 0x8000_0000_0000_0000 <= (a as int) * (b as int)
        <= 0x8000_0000_0000_0000 * 0x8000_0000_0000_0000) by (nonlinear_arith)
        requires
            -0x8000_0000_0000_0000 <= a as int <= 0x8000_0000_0000_0000,
            -0x8000_0000_0000_0000 <= b as int <= 0x8000_0000_0000_0000,
    ;
    let prod: i128 = (a as i128) * (b as i128);
    saturate(floor_div(prod, UNIT as i128))
}

/// Divides one fixed-point number by another, rounding down.
pub fn fixed_div(a: Scalar, b: Scalar) -> (r: Scalar)
    ensures
        r == spec_fixed_div(a as int, b as int),
{
    let wide: i128 = (a as i128) * 1_000_000;
    if b > 0 {
        saturate(floor_div(wide, b as i128))
    } else if b < 0 {
        saturate(floor_div(-wide, -(b as i128)))
    } else if a > 0 {
        i64::MAX
    } else if a < 0 {
        i64::MIN
    } else {
        0
    }
}

fn sat_add(a: Scalar, b: Scalar) -> (r: Scalar)
    ensures
        r == sat(a + b),
{
    saturate((a as i128) + (b as i128))
}

fn sat_sub(a: Scalar, b: Scalar) -> (r: Scalar)
    ensures
        r == sat(a - b),
{
    saturate((a as i128) - (b as i128))
}

fn least(a: Scalar, b: Scalar) -> (r: Scalar)
    ensures
        r == spec_least(a, b),
{
    if a <= b {
        a
    } else {
        b
    }
}

fn greatest(a: Scalar, b: Scalar) -> (r: Scalar)
    ensures
        r == spec_greatest(a, b),
{
    if a >= b {
        a
    } else {
        b
    }
}

/// The smaller of two coordinates.
pub open spec fn spec_least(a: Scalar, b: Scalar) -> Scalar {
    if a <= b {
        a
    } else {
        b
    }
}

/// The greater of two coordinates.
pub open spec fn spec_greatest(a: Scalar, b: Scalar) -> Scalar {
    if a >= b {
        a
    } else {
        b
    }
}

impl Point {
    /// The origin.
    pub open spec fn spec_zero() -> Point {
        Point { x: 0, y: 0 }
    }

    /// `self` moved by `by`.
    pub open spec fn spec_plus(self, by: Point) -> Point {
        Point { x: sat(self.x + by.x), y: sat(self.y + by.y) }
    }

    /// The offset that leads from `from` to `self`.
    pub open spec fn spec_minus(self, from: Point) -> Point {
        Point { x: sat(self.x - from.x), y: sat(self.y - from.y) }
    }

    /// `self` stretched by the fixed-point factor `factor`.
    pub open spec fn spec_scaled(self, factor: Scalar) -> Point {
        Point {
            x: spec_fixed_mul(self.x as int, factor as int),
            y: spec_fixed_mul(self.y as int, factor as int),
        }
    }

    /// `self` turned about the origin by `angle`.
    pub open spec fn spec_rotated(self, angle: Scalar) -> Point {
        let s = spec_sin(angle as int);
        let c = spec_cos(angle as int);
        Point {
            x: sat((self.x * c - self.y * s) / (UNIT as int)),
            y: sat((self.x * s + self.y * c) / (UNIT as int)),
        }
    }

    /// The point the fraction `a` of the way from `self` to `to`.
    pub open spec fn spec_interpolate(self, to: Point, a: Alpha) -> Point {
        Point {
            x: spec_lerp(self.x as int, to.x as int, a) as i64,
            y: spec_lerp(self.y as int, to.y as int, a) as i64,
        }
    }

    /// The point with the given coordinates.
    pub fn new(x: Scalar, y: Scalar) -> (p: Point)
        ensures
            p == (Point { x, y }),
    {
        Point { x, y }
    }

    /// The origin.
    pub fn zero() -> (p: Point)
        ensures
            p == Point::spec_zero(),
    {
        Point { x: 0, y: 0 }
    }

    /// The point moved by `by`; coordinates saturate.
    pub fn plus(&self, by: &Point) -> (p: Point)
        ensures
            p == self.spec_plus(*by),
    {
        Point { x: sat_add(self.x, by.x), y: sat_add(self.y, by.y) }
    }

    /// The offset that leads from `from` to the point; coordinates saturate.
    pub fn minus(&self, from: &Point) -> (p: Point)
        ensures
            p == self.spec_minus(*from),
    {
        Point { x: sat_sub(self.x, from.x), y: sat_sub(self.y, from.y) }
    }

    /// The point stretched away from the origin by a fixed-point factor.
    pub fn scaled(&self, factor: Scalar) -> (p: Point)
        ensures
            p == self.spec_scaled(factor),
    {
        Point { x: fixed_mul(self.x, factor), y: fixed_mul(self.y, factor) }
    }

    /// Turns the point about the origin, counter-clockwise for a positive
    /// angle where the y axis points up.
    pub fn rotated(&self, angle: Scalar) -> (p: Point)
        ensures
            p == self.spec_rotated(angle),
    {
        let s: i64 = sin(angle);
        let c: i64 = cos(angle);
        proof {
            lemma_product_bound(self.x as int, c as int);
            lemma_product_bound(self.y as int, s as int);
            lemma_product_bound(self.x as int, s as int);
            lemma_product_bound(self.y as int, c as int);
        }
        let xc: i128 = (self.x as i128) * (c as i128);
        let ys: i128 = (self.y as i128) * (s as i128);
        let xs: i128 = (self.x as i128) * (s as i128);
        let yc: i128 = (self.y as i128) * (c as i128);
        Point {
            x: saturate(floor_div(xc - ys, UNIT as i128)),
            y: saturate(floor_div(xs + yc, UNIT as i128)),
        }
    }

    /// The point the fraction `a` of the way to `to`.
    pub fn interpolate(&self, to: &Point, a: Alpha) -> (p: Point)
        requires
            a.wf(),
        ensures
            p == self.spec_interpolate(*to, a),
    {
        Point { x: lerp(self.x, to.x, a), y: lerp(self.y, to.y, a) }
    }
}

proof fn lemma_product_bound(v: int, f: int)
    requires
        -0x8000_0000_0000_0000 <= v <= 0x8000_0000_0000_0000,
        -1_000_000 <= f <= 1_000_000,
    ensures
        -0x8000_0000_0000_0000 * 1_000_000 <= v * f <= 0x8000_0000_0000_0000 * 1_000_000,
{
    assert(-0x8000_0000_0000_0000 * 1_000_000 <= v * f <= 0x8000_0000_0000_0000 * 1_000_000)
        by (nonlinear_arith)
        requires
            -0x8000_0000_0000_0000 <= v <= 0x8000_0000_0000_0000,
            -1_000_000 <= f <= 1_000_000,
    ;
}

impl Rect {
    /// The rectangle that holds no point: every union with it gives the
    /// other rectangle back.
    pub open spec fn spec_nothing() -> Rect {
        Rect { min: Point { x: i64::MAX, y: i64::MAX }, max: Point { x: i64::MIN, y: i64::MIN } }
    }

    /// The least rectangle that covers both.
    pub open spec fn spec_union(self, other: Rect) -> Rect {
        Rect {
            min: Point {
                x: spec_least(self.min.x, other.min.x),
                y: spec_least(self.min.y, other.min.y),
            },
            max: Point {
                x: spec_greatest(self.max.x, other.max.x),
                y: spec_greatest(self.max.y, other.max.y),
            },
        }
    }

    /// The least rectangle that covers four points.
    pub open spec fn spec_around(a: Point, b: Point, c: Point, d: Point) -> Rect {
        Rect {
            min: Point {
                x: spec_least(spec_least(spec_least(a.x, b.x), c.x), d.x),
                y: spec_least(spec_least(spec_least(a.y, b.y), c.y), d.y),
            },
            max: Point {
                x: spec_greatest(spec_greatest(spec_greatest(a.x, b.x), c.x), d.x),
                y: spec_greatest(spec_greatest(spec_greatest(a.y, b.y), c.y), d.y),
            },
        }
    }

    /// The middle of the rectangle, rounded down.
    pub open spec fn spec_center(self) -> Point {
        Point {
            x: ((self.min.x + self.max.x) / 2) as i64,
            y: ((self.min.y + self.max.y) / 2) as i64,
        }
    }

    /// `self` moved by `by`.
    pub open spec fn spec_translated(self, by: Point) -> Rect {
        Rect { min: self.min.spec_plus(by), max: self.max.spec_plus(by) }
    }

    /// The rectangle between two corners.
    pub fn from_min_max(min: Point, max: Point) -> (r: Rect)
        ensures
            r == (Rect { min, max }),
    {
        Rect { min, max }
    }

    /// The rectangle that holds no point.
    pub fn nothing() -> (r: Rect)
        ensures
            r == Rect::spec_nothing(),
    {
        Rect { min: Point { x: i64::MAX, y: i64::MAX }, max: Point { x: i64::MIN, y: i64::MIN } }
    }

    /// The least rectangle that covers both.
    pub fn union(&self, other: &Rect) -> (r: Rect)
        ensures
            r == self.spec_union(*other),
    {
        Rect {
            min: Point { x: least(self.min.x, other.min.x), y: least(self.min.y, other.min.y) },
            max: Point {
                x: greatest(self.max.x, other.max.x),
                y: greatest(self.max.y, other.max.y),
            },
        }
    }

    /// The middle of the rectangle, rounded down.
    pub fn center(&self) -> (p: Point)
        ensures
            p == self.spec_center(),
    {
        let cx: i128 = floor_div((self.min.x as i128) + (self.max.x as i128), 2);
        let cy: i128 = floor_div((self.min.y as i128) + (self.max.y as i128), 2);
        Point { x: cx as i64, y: cy as i64 }
    }

    /// The least x.
    pub fn left(&self) -> (v: Scalar)
        ensures
            v == self.min.x,
    {
        self.min.x
    }

    /// The greatest x.
    pub fn right(&self) -> (v: Scalar)
        ensures
            v == self.max.x,
    {
        self.max.x
    }

    /// The least y.
    pub fn top(&self) -> (v: Scalar)
        ensures
            v == self.min.y,
    {
        self.min.y
    }

    /// The greatest y.
    pub fn bottom(&self) -> (v: Scalar)
        ensures
            v == self.max.y,
    {
        self.max.y
    }
}

impl Default for Transform {
    fn default() -> (t: Transform)
        ensures
            t == Transform::spec_identity(),
    {
        Transform::identity()
    }
}

impl Transform {
    /// The placement that changes nothing.
    pub open spec fn spec_identity() -> Transform {
        Transform {
            position: Point { x: 0, y: 0 },
            rotation: 0,
            scale: UNIT,
            anchor: Point { x: 0, y: 0 },
        }
    }

    /// Where the placement puts a point of the object's own frame.
    pub open spec fn spec_apply(self, p: Point) -> Point {
        p.spec_minus(self.anchor).spec_rotated(self.rotation).spec_scaled(self.scale).spec_plus(
            self.position,
        )
    }

    /// The placement of a child, itself placed by `other`, in the frame that
    /// `self` is placed in.
    pub open spec fn spec_and_then(self, other: Transform) -> Transform {
        Transform {
            position: self.spec_apply(other.position),
            rotation: sat(self.rotation + other.rotation),
            scale: spec_fixed_mul(self.scale as int, other.scale as int),
            anchor: other.anchor,
        }
    }

    /// The bounds of the four corners of `rect` after placement.
    pub open spec fn spec_map_aabb(self, rect: Rect) -> Rect {
        Rect::spec_around(
            self.spec_apply(rect.min),
            self.spec_apply(Point { x: rect.max.x, y: rect.min.y }),
            self.spec_apply(Point { x: rect.min.x, y: rect.max.y }),
            self.spec_apply(rect.max),
        )
    }

    /// Each field the fraction `a` of the way from `self` to `to`.
    pub open spec fn spec_interpolate(self, to: Transform, a: Alpha) -> Transform {
        Transform {
            position: self.position.spec_interpolate(to.position, a),
            rotation: spec_lerp(self.rotation as int, to.rotation as int, a) as i64,
            scale: spec_lerp(self.scale as int, to.scale as int, a) as i64,
            anchor: self.anchor.spec_interpolate(to.anchor, a),
        }
    }

    /// The placement that changes nothing.
    pub fn identity() -> (t: Transform)
        ensures
            t == Transform::spec_identity(),
    {
        Transform {
            position: Point { x: 0, y: 0 },
            rotation: 0,
            scale: UNIT,
            anchor: Point { x: 0, y: 0 },
        }
    }

    /// Places a point of the object's own frame in the parent's frame.
    pub fn apply(&self, p: Point) -> (q: Point)
        ensures
            q == self.spec_apply(p),
            *self == Transform::spec_identity() ==> q == p,
    {
        proof {
            if *self == Transform::spec_identity() {
                lemma_sin_cos_range(0);
                assert((p.x * UNIT) / (UNIT as int) == p.x && (p.y * UNIT) / (UNIT as int) == p.y)
                    by (nonlinear_arith);
                assert(p.x * 0 == 0 && p.y * 0 == 0) by (nonlinear_arith);
            }
        }
        p.minus(&self.anchor).rotated(self.rotation).scaled(self.scale).plus(&self.position)
    }

    /// Composes two placements: the result places a point as `other` and
    /// then `self` would.
    pub fn and_then(self, other: &Transform) -> (t: Transform)
        ensures
            t == self.spec_and_then(*other),
    {
        Transform {
            position: self.apply(other.position),
            rotation: sat_add(self.rotation, other.rotation),
            scale: fixed_mul(self.scale, other.scale),
            anchor: other.anchor,
        }
    }

    /// The axis-aligned bounds of a placed rectangle.
    pub fn map_aabb(&self, rect: Rect) -> (r: Rect)
        ensures
            r == self.spec_map_aabb(rect),
    {
        let a: Point = self.apply(rect.min);
        let b: Point = self.apply(Point { x: rect.max.x, y: rect.min.y });
        let c: Point = self.apply(Point { x: rect.min.x, y: rect.max.y });
        let d: Point = self.apply(rect.max);
        let min_x: i64 = least(least(least(a.x, b.x), c.x), d.x);
        let min_y: i64 = least(least(least(a.y, b.y), c.y), d.y);
        let max_x: i64 = greatest(greatest(greatest(a.x, b.x), c.x), d.x);
        let max_y: i64 = greatest(greatest(greatest(a.y, b.y), c.y), d.y);
        Rect { min: Point { x: min_x, y: min_y }, max: Point { x: max_x, y: max_y } }
    }

    /// The same placement at another position.
    pub fn with_position(&self, position: Point) -> (t: Transform)
        ensures
            t == (Transform { position, ..*self }),
    {
        Transform { position, rotation: self.rotation, scale: self.scale, anchor: self.anchor }
    }

    /// The same placement with another rotation.
    pub fn with_rotation(&self, rotation: Scalar) -> (t: Transform)
        ensures
            t == (Transform { rotation, ..*self }),
    {
        Transform { position: self.position, rotation, scale: self.scale, anchor: self.anchor }
    }

    /// The same placement with another scale.
    pub fn with_scale(&self, scale: Scalar) -> (t: Transform)
        ensures
            t == (Transform { scale, ..*self }),
    {
        Transform { position: self.position, rotation: self.rotation, scale, anchor: self.anchor }
    }

    /// The same placement with another anchor.
    pub fn with_anchor(&self, anchor: Point) -> (t: Transform)
        ensures
            t == (Transform { anchor, ..*self }),
    {
        Transform { position: self.position, rotation: self.rotation, scale: self.scale, anchor }
    }

    /// The placement the fraction `a` of the way from `self` to `to`.
    pub fn interpolate(&self, to: &Transform, a: Alpha) -> (t: Transform)
        requires
            a.wf(),
        ensures
            t == self.spec_interpolate(*to, a),
    {
        Transform {
            position: self.position.interpolate(&to.position, a),
            rotation: lerp(self.rotation, to.rotation, a),
            scale: lerp(self.scale, to.scale, a),
            anchor: self.anchor.interpolate(&to.anchor, a),
        }
    }
}

} // verus!
