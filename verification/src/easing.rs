//! Curves that bend the progress of a motion.

use vstd::prelude::*;
use vstd::arithmetic::div_mod::lemma_fundamental_div_mod;
use crate::alpha::Alpha;

verus! {

/// The curve that bends the progress of a motion.
#[derive(Clone, Copy, Debug, PartialEq, Eq, Structural)]
pub enum Easing {
    Linear,
    EaseIn,
    EaseOut,
    EaseInOut,
}

impl Default for Easing {
    fn default() -> (e: Easing)
        ensures
            e == Easing::Linear,
    {
        Easing::Linear
    }
}

/// The numerator, over `d * d`, of the eased value of `n / d`.
pub open spec fn spec_eased_square(e: Easing, n: int, d: int) -> int {
    match e {
        Easing::Linear => n * d,
        Easing::EaseIn => n * n,
        Easing::EaseOut => n * (2 * d - n),
        Easing::EaseInOut => if 2 * n < d {
            2 * n * n
        } else {
            4 * n * d - 2 * n * n - d * d
        },
    }
}

/// The denominator of every bent progress: a thousand million. It does not
/// depend on how finely the progress that is bent was given.
pub const EASED_DEN: u32 = 1_000_000_000;

/// The curved progress lies between 0 and 1, and the ends stay where they
/// are.
pub proof fn lemma_eased_range(e: Easing, n: int, d: int)
    requires
        0 < d,
        0 <= n <= d,
    ensures
        0 <= spec_eased_square(e, n, d) <= d * d,
        n == 0 ==> spec_eased_square(e, n, d) == 0,
        n == d ==> spec_eased_square(e, n, d) == d * d,
{
    let sq: int = spec_eased_square(e, n, d);
    assert(0 <= sq <= d * d && (n == 0 ==> sq == 0) && (n == d ==> sq == d * d))
        by (nonlinear_arith)
        requires
            0 < d,
            0 <= n <= d,
            sq == match e {
                Easing::Linear => n * d,
                Easing::EaseIn => n * n,
                Easing::EaseOut => n * (2 * d - n),
                Easing::EaseInOut => if 2 * n < d {
                    2 * n * n
                } else {
                    4 * n * d - 2 * n * n - d * d
                },
            },
    ;
}

/// Of two fractions the greater has the greater whole part.
pub proof fn lemma_floor_ordered(p1: int, q1: int, p2: int, q2: int)
    requires
        0 < q1,
        0 < q2,
        0 <= p1,
        0 <= p2,
        p1 * q2 <= p2 * q1,
    ensures
        p1 / q1 <= p2 / q2,
{
    lemma_fundamental_div_mod(p1, q1);
    lemma_fundamental_div_mod(p2, q2);
    let k1: int = p1 / q1;
    let k2: int = p2 / q2;
    let r1: int = p1 % q1;
    let r2: int = p2 % q2;
    if k1 > k2 {
        assert(p2 < (k2 + 1) * q2) by (nonlinear_arith)
            requires
                p2 == q2 * k2 + r2,
                0 <= r2 < q2,
        ;
        assert((k2 + 1) * q2 <= k1 * q2) by (nonlinear_arith)
            requires
                k2 + 1 <= k1,
                0 < q2,
        ;
        assert(p2 * q1 < (k1 * q2) * q1) by (nonlinear_arith)
            requires
                p2 < k1 * q2,
                0 < q1,
        ;
        assert(p1 * q2 >= (k1 * q1) * q2) by (nonlinear_arith)
            requires
                p1 == q1 * k1 + r1,
                0 <= r1,
                0 < q2,
        ;
        assert((k1 * q2) * q1 == (k1 * q1) * q2) by (nonlinear_arith);
        assert(false);
    }
}

impl Easing {
    /// The progress `a` bent by the curve. A linear curve leaves the
    /// progress as it is. Every other curve gives its exact value, rounded
    /// down to a whole number of parts in `EASED_DEN`, whatever the
    /// denominator of `a`.
    pub open spec fn spec_apply(self, a: Alpha) -> Alpha {
        match self {
            Easing::Linear => a,
            _ => Alpha {
                num: (((spec_eased_square(self, a.num as int, a.den as int) * EASED_DEN) / (
                a.den as int)) / (a.den as int)) as u32,
                den: EASED_DEN,
            },
        }
    }

    /// Bends the progress `t`: `t` itself, `t * t`, `t * (2 - t)`, or, for
    /// `EaseInOut`, `2 * t * t` in the first half and
    /// `-1 + (4 - 2 * t) * t` in the second. But for the linear curve the
    /// result counts parts in `EASED_DEN`: equal progress is bent to equal
    /// results however it was written, and later progress is never bent to
    /// an earlier result.
    pub fn apply(&self, t: Alpha) -> (r: Alpha)
        requires
            t.wf(),
        ensures
            r == self.spec_apply(t),
            r.wf(),
            *self == Easing::Linear ==> r == t,
            t.num == 0 ==> r.num == 0,
            t.is_full() ==> r.is_full(),
    {
        let n: u128 = t.num as u128;
        let d: u128 = t.den as u128;
        proof {
            lemma_eased_range(*self, n as int, d as int);
            assert(n * n <= 0xffff_ffff * 0xffff_ffff && n * d <= 0xffff_ffff * 0xffff_ffff && d * d
                <= 0xffff_ffff * 0xffff_ffff) by (nonlinear_arith)
                requires
                    0 <= n <= 0xffff_ffff,
                    0 <= d <= 0xffff_ffff,
            ;
        }
        let sq: u128 = match self {
            Easing::Linear => {
                return t;
            },
            Easing::EaseIn => n * n,
            Easing::EaseOut => {
                assert(n * (2 * d - n) == 2 * (n * d) - n * n) by (nonlinear_arith);
                2 * (n * d) - n * n
            },
            Easing::EaseInOut => {
                if 2 * n < d {
                    assert(2 * n * n == 2 * (n * n)) by (nonlinear_arith);
                    2 * (n * n)
                } else {
                    assert(4 * n * d - 2 * n * n - d * d == 4 * (n * d) - 2 * (n * n) - d * d)
                        by (nonlinear_arith);
                    4 * (n * d) - 2 * (n * n) - d * d
                }
            },
        };
        let wide: u128 = sq * 1_000_000_000;
        let num: u128 = (wide / d) / d;
        proof {
            lemma_eased_whole(sq as int, d as int);
        }
        Alpha { num: num as u32, den: EASED_DEN }
    }
}

/// A square part `sq` of `d * d`, counted in parts of `EASED_DEN`, is at
/// most `EASED_DEN`; nothing gives nothing and the whole gives the whole.
pub proof fn lemma_eased_whole(sq: int, d: int)
    requires
        0 < d,
        0 <= sq <= d * d,
    ensures
        0 <= ((sq * 1_000_000_000) / d) / d <= 1_000_000_000,
        ((sq * 1_000_000_000) / d) / d == (sq * 1_000_000_000) / (d * d),
        sq == 0 ==> ((sq * 1_000_000_000) / d) / d == 0,
        sq == d * d ==> ((sq * 1_000_000_000) / d) / d == 1_000_000_000,
{
    let wide: int = sq * 1_000_000_000;
    let dd: int = d * d;
    assert(0 < dd) by (nonlinear_arith)
        requires
            0 < d,
            dd == d * d,
    ;
    vstd::arithmetic::div_mod::lemma_div_denominator(wide, d, d);
    lemma_fundamental_div_mod(wide, dd);
    let q: int = wide / dd;
    let r: int = wide % dd;
    assert(0 <= q <= 1_000_000_000 && (sq == 0 ==> q == 0) && (sq == dd ==> q == 1_000_000_000))
        by (nonlinear_arith)
        requires
            wide == sq * 1_000_000_000,
            wide == dd * q + r,
            0 <= r < dd,
            0 <= sq <= dd,
    ;
}

} // verus!
