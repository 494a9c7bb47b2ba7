//! Sine and cosine in fixed-point arithmetic.
//!
//! Angles are measured in thousandths of a degree. The half wave of the sine
//! is Bhaskara's rational approximation, which is exact at 0, 30, 90, 150
//! and 180 degrees and stays within two parts in a thousand elsewhere.

use vstd::prelude::*;
use vstd::arithmetic::div_mod::lemma_fundamental_div_mod;
use crate::alpha::{Scalar, floor_div};

verus! {

/// The fixed-point representation of 1: scale factors and the values of sine
/// and cosine are counted in millionths.
pub const UNIT: i64 = 1_000_000;

/// Half a turn, in thousandths of a degree.
pub const HALF_TURN: i64 = 180_000;

/// A quarter of a turn.
pub const QUARTER_TURN: i64 = 90_000;

/// A whole turn.
pub const FULL_TURN: i64 = 360_000;

/// The sine of an angle between 0 and half a turn, times `UNIT`.
pub open spec fn spec_half_wave(x: int) -> int {
    (16 * (x * (HALF_TURN - x)) * UNIT) / (5 * HALF_TURN * HALF_TURN - 4 * (x * (HALF_TURN - x)))
}

/// The sine of any angle, times `UNIT`.
pub open spec fn spec_sin(angle: int) -> int {
    let a = angle % (FULL_TURN as int);
    if a <= HALF_TURN {
        spec_half_wave(a)
    } else {
        -spec_half_wave(a - HALF_TURN)
    }
}

/// The cosine of any angle, times `UNIT`: the sine a quarter turn later.
pub open spec fn spec_cos(angle: int) -> int {
    spec_sin(angle % (FULL_TURN as int) + QUARTER_TURN)
}

/// The half wave stays between 0 and `UNIT`, starts and ends at 0 and peaks
/// at a quarter turn.
pub proof fn lemma_half_wave_range(x: int)
    requires
        0 <= x <= HALF_TURN,
    ensures
        0 <= spec_half_wave(x) <= UNIT,
        x == 0 || x == HALF_TURN ==> spec_half_wave(x) == 0,
        x == QUARTER_TURN ==> spec_half_wave(x) == UNIT,
{
    let p: int = x * (HALF_TURN - x);
    assert(0 <= p && 4 * p <= 180_000 * 180_000) by (nonlinear_arith)
        requires
            p == x * (180_000 - x),
            0 <= x <= 180_000,
    ;
    let num: int = 16 * p * UNIT;
    let den: int = 5 * HALF_TURN * HALF_TURN - 4 * p;
    assert(den == 162_000_000_000 - 4 * p);
    lemma_fundamental_div_mod(num, den);
    let q: int = num / den;
    let r: int = num % den;
    assert(0 <= q <= 1_000_000) by (nonlinear_arith)
        requires
            num == den * q + r,
            0 <= r < den,
            num == 16 * p * 1_000_000,
            den == 162_000_000_000 - 4 * p,
            0 <= p,
            4 * p <= 32_400_000_000,
    ;
    if x == 0 || x == HALF_TURN {
        assert(p == 0) by (nonlinear_arith)
            requires
                p == x * (180_000 - x),
                x == 0 || x == 180_000,
        ;
        assert(q == 0) by (nonlinear_arith)
            requires
                0 == den * q + r,
                0 <= r < den,
        ;
    }
    if x == QUARTER_TURN {
        assert(p == 8_100_000_000) by (nonlinear_arith)
            requires
                p == x * (180_000 - x),
                x == 90_000,
        ;
        assert(q == 1_000_000) by (nonlinear_arith)
            requires
                num == den * q + r,
                0 <= r < den,
                num == 129_600_000_000_000_000,
                den == 129_600_000_000,
        ;
    }
}

/// Sine and cosine never leave the range from `-UNIT` to `UNIT`, and a
/// rotation by nothing is exact.
pub proof fn lemma_sin_cos_range(angle: int)
    ensures
        -UNIT <= spec_sin(angle) <= UNIT,
        -UNIT <= spec_cos(angle) <= UNIT,
        angle % (FULL_TURN as int) == 0 ==> spec_sin(angle) == 0 && spec_cos(angle) == UNIT,
{
    let a: int = angle % (FULL_TURN as int);
    if a <= HALF_TURN {
        lemma_half_wave_range(a);
    } else {
        lemma_half_wave_range(a - HALF_TURN);
    }
    let b: int = (a + QUARTER_TURN) % (FULL_TURN as int);
    if b <= HALF_TURN {
        lemma_half_wave_range(b);
    } else {
        lemma_half_wave_range(b - HALF_TURN);
    }
    if a == 0 {
        lemma_half_wave_range(QUARTER_TURN as int);
    }
}

/// Brings an angle into the range of one turn.
pub fn reduce_angle(angle: Scalar) -> (a: Scalar)
    ensures
        a == angle as int % (FULL_TURN as int),
        0 <= a < FULL_TURN,
{
    let q: i128 = floor_div(angle as i128, FULL_TURN as i128);
    proof {
        lemma_fundamental_div_mod(angle as int, FULL_TURN as int);
    }
    ((angle as i128) - q * (FULL_TURN as i128)) as i64
}

fn half_wave(x: Scalar) -> (r: Scalar)
    requires
        0 <= x <= HALF_TURN,
    ensures
        r == spec_half_wave(x as int),
        0 <= r <= UNIT,
{
    proof {
        lemma_half_wave_range(x as int);
        assert(0 <= x * (180_000 - x) && 4 * (x * (180_000 - x)) <= 180_000 * 180_000)
            by (nonlinear_arith)
            requires
                0 <= x <= 180_000,
        ;
    }
    let p: i64 = x * (HALF_TURN - x);
    let num: i64 = 16 * p * UNIT;
    let den: i64 = 5 * HALF_TURN * HALF_TURN - 4 * p;
    num / den
}

/// The sine of `angle`, times `UNIT`.
pub fn sin(angle: Scalar) -> (r: Scalar)
    ensures
        r == spec_sin(angle as int),
        -UNIT <= r <= UNIT,
        angle == 0 || angle == HALF_TURN ==> r == 0,
        angle == QUARTER_TURN ==> r == UNIT,
{
    proof {
        lemma_half_wave_range(0);
        lemma_half_wave_range(QUARTER_TURN as int);
        lemma_half_wave_range(HALF_TURN as int);
    }
    proof {
        lemma_sin_cos_range(angle as int);
    }
    let a: i64 = reduce_angle(angle);
    if a <= HALF_TURN {
        half_wave(a)
    } else {
        -half_wave(a - HALF_TURN)
    }
}

/// The cosine of `angle`, times `UNIT`.
pub fn cos(angle: Scalar) -> (r: Scalar)
    ensures
        r == spec_cos(angle as int),
        -UNIT <= r <= UNIT,
        angle == 0 ==> r == UNIT,
        angle == QUARTER_TURN ==> r == 0,
{
    proof {
        lemma_half_wave_range(QUARTER_TURN as int);
        lemma_half_wave_range(HALF_TURN as int);
    }
    proof {
        lemma_sin_cos_range(angle as int);
    }
    let a: i64 = reduce_angle(angle);
    sin(a + QUARTER_TURN)
}

} // verus!
