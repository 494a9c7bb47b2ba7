//! Turning points about a centre.

use vstd::prelude::*;
use crate::alpha::Scalar;
use crate::geometry::Point;

verus! {

/// `vector` turned about the origin by `angle`, in thousandths of a degree.
pub fn rotate_vec_around_0(vector: Point, angle: Scalar) -> (p: Point)
    ensures
        p == vector.spec_rotated(angle),
{
    vector.rotated(angle)
}

/// `vector` turned about the point `around` by `angle`.
pub fn rotate_vec_around_vector(vector: Point, angle: Scalar, around: Point) -> (p: Point)
    ensures
        p == vector.spec_minus(around).spec_rotated(angle).spec_plus(around),
{
    vector.minus(&around).rotated(angle).plus(&around)
}

} // verus!
