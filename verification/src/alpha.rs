//! Progress as an exact fraction, and the integer arithmetic built on it.

use vstd::prelude::*;
use vstd::arithmetic::div_mod::lemma_fundamental_div_mod_converse;
use vstd::arithmetic::div_mod::lemma_fundamental_div_mod;

verus! {

/// A duration or a point in time, in ticks. The length of a tick is the
/// caller's choice.
pub type Time = u32;

/// A fixed-point quantity: a coordinate, a length or a factor.
pub type Scalar = i64;

/// The value `v` brought into the range of `i64`.
pub open spec fn clamp_i64(v: int) -> int {
    if v < i64::MIN {
        i64::MIN as int
    } else if v > i64::MAX {
        i64::MAX as int
    } else {
        v
    }
}

/// Narrows a wide intermediate result, saturating at the ends of `i64`.
pub fn saturate(v: i128) -> (r: i64)
    ensures
        r == clamp_i64(v as int),
{
    if v < i64::MIN as i128 {
        i64::MIN
    } else if v > i64::MAX as i128 {
        i64::MAX
    } else {
        v as i64
    }
}

/// Division rounding towards negative infinity.
pub fn floor_div(n: i128, d: i128) -> (q: i128)
    requires
        d > 0,
    ensures
        q == n as int / d as int,
{
    if n >= 0 {
        n / d
    } else {
        let m: i128 = -(n + 1);
        let q0: i128 = m / d;
        proof {
            let r0: int = m as int % d as int;
            lemma_fundamental_div_mod(m as int, d as int);
            assert(n as int == d as int * (-(q0 as int) - 1) + (d as int - 1 - r0))
                by (nonlinear_arith)
                requires
                    m as int == d as int * (q0 as int) + r0,
                    n as int == -(m as int) - 1,
            ;
            lemma_fundamental_div_mod_converse(
                n as int,
                d as int,
                -(q0 as int) - 1,
                d as int - 1 - r0,
            );
        }
        -q0 - 1
    }
}

/// Normalized progress: the fraction `num / den`, between 0 and 1.
#[derive(Clone, Copy, Debug, PartialEq, Eq, Structural)]
pub struct Alpha {
    pub num: u32,
    pub den: u32,
}

/// The point between `from` and `to` that lies the fraction `a` of the way,
/// rounded towards negative infinity.
pub open spec fn spec_lerp(from: int, to: int, a: Alpha) -> int {
    from + ((to - from) * a.num) / (a.den as int)
}

/// An interpolated value lies between its two endpoints.
pub proof fn lemma_lerp_between(from: int, to: int, a: Alpha)
    requires
        a.wf(),
    ensures
        from <= to ==> from <= spec_lerp(from, to, a) <= to,
        to <= from ==> to <= spec_lerp(from, to, a) <= from,
        a.num == 0 ==> spec_lerp(from, to, a) == from,
        a.is_full() ==> spec_lerp(from, to, a) == to,
{
    let diff: int = to - from;
    let n: int = a.num as int;
    let d: int = a.den as int;
    let q: int = (diff * n) / d;
    lemma_fundamental_div_mod(diff * n, d);
    let r: int = (diff * n) % d;
    assert(diff * n == d * q + r);
    if diff >= 0 {
        assert(0 <= q <= diff) by (nonlinear_arith)
            requires
                diff * n == d * q + r,
                0 <= r < d,
                0 <= n <= d,
                diff >= 0,
        ;
    } else {
        assert(diff <= q <= 0) by (nonlinear_arith)
            requires
                diff * n == d * q + r,
                0 <= r < d,
                0 <= n <= d,
                diff < 0,
        ;
    }
    if n == 0 {
        assert(diff * n == 0) by (nonlinear_arith)
            requires
                n == 0,
        ;
        assert(q == 0) by (nonlinear_arith)
            requires
                0 == d * q + r,
                0 <= r < d,
        ;
    }
    if n == d {
        assert(q == diff) by (nonlinear_arith)
            requires
                diff * n == d * q + r,
                0 <= r < d,
                n == d,
        ;
    }
}

impl Alpha {
    /// The fraction is well formed and at most 1.
    pub open spec fn wf(self) -> bool {
        0 < self.den && self.num <= self.den
    }

    /// The motion has run to its end.
    pub open spec fn is_full(self) -> bool {
        self.num == self.den
    }

    /// How far this progress has come on a clock of `span` ticks, rounded
    /// down to a whole tick.
    pub open spec fn spec_ticks(self, span: int) -> int {
        (self.num * span) / (self.den as int)
    }

    /// Complete progress.
    pub open spec fn spec_full() -> Alpha {
        Alpha { num: 1, den: 1 }
    }

    /// The progress after `elapsed` ticks of a window of `span` ticks.
    pub open spec fn spec_ratio(elapsed: Time, span: Time) -> Alpha {
        if span == 0 {
            Alpha { num: 1, den: 1 }
        } else if elapsed <= span {
            Alpha { num: elapsed, den: span }
        } else {
            Alpha { num: span, den: span }
        }
    }

    /// No progress.
    pub fn zero() -> (a: Alpha)
        ensures
            a == (Alpha { num: 0, den: 1 }),
            a.wf(),
    {
        Alpha { num: 0, den: 1 }
    }

    /// Complete progress.
    pub fn full() -> (a: Alpha)
        ensures
            a == Alpha::spec_full(),
            a.wf(),
            a.is_full(),
    {
        Alpha { num: 1, den: 1 }
    }

    /// The progress after `elapsed` ticks of a window that lasts `span`
    /// ticks. Time past the end of the window counts as the end, and a
    /// window without length is over at once.
    pub fn ratio(elapsed: Time, span: Time) -> (a: Alpha)
        ensures
            a.wf(),
            a == Alpha::spec_ratio(elapsed, span),
    {
        if span == 0 {
            Alpha { num: 1, den: 1 }
        } else if elapsed <= span {
            Alpha { num: elapsed, den: span }
        } else {
            Alpha { num: span, den: span }
        }
    }

    /// Whether the motion has run to its end.
    pub fn at_end(&self) -> (b: bool)
        ensures
            b == self.is_full(),
    {
        self.num == self.den
    }

    /// The position of this progress on a clock of `span` ticks.
    pub fn ticks(&self, span: u128) -> (t: u128)
        requires
            self.wf(),
            span <= 0xffff_ffff_ffff_ffff_ffff_ffff,
        ensures
            t == self.spec_ticks(span as int),
            t <= span,
            self.is_full() ==> t == span,
    {
        assert((self.num as int) * (span as int) <= 0xffff_ffff * 0xffff_ffff_ffff_ffff_ffff_ffff)
            by (nonlinear_arith)
            requires
                0 <= self.num as int <= 0xffff_ffff,
                0 <= span as int <= 0xffff_ffff_ffff_ffff_ffff_ffff,
        ;
        let wide: u128 = (self.num as u128) * (span as u128);
        let den: u128 = self.den as u128;
        let t: u128 = wide / den;
        proof {
            lemma_fundamental_div_mod(wide as int, den as int);
            let r: int = wide as int % den as int;
            assert(t as int <= span as int) by (nonlinear_arith)
                requires
                    wide as int == (self.num as int) * (span as int),
                    wide as int == (den as int) * (t as int) + r,
                    0 <= r < den as int,
                    0 <= self.num as int <= den as int,
                    0 <= span as int,
            ;
            if self.is_full() {
                assert(t as int == span as int) by (nonlinear_arith)
                    requires
                        wide as int == (den as int) * (span as int),
                        wide as int == (den as int) * (t as int) + r,
                        0 <= r < den as int,
                ;
            }
        }
        t
    }
}

/// Interpolates between two fixed-point values.
pub fn lerp(from: Scalar, to: Scalar, a: Alpha) -> (r: Scalar)
    requires
        a.wf(),
    ensures
        r == spec_lerp(from as int, to as int, a),
{
    let diff: i128 = (to as i128) - (from as i128);
    assert(-0x1_0000_0000_0000_0000 * 0xffff_ffff <= (diff as int) * (a.num as int)
        <= 0x1_0000_0000_0000_0000 * 0xffff_ffff) by (nonlinear_arith)
        requires
            -0x1_0000_0000_0000_0000 <= diff as int <= 0x1_0000_0000_0000_0000,
            0 <= a.num as int <= 0xffff_ffff,
    ;
    let prod: i128 = diff * (a.num as i128);
    let step: i128 = floor_div(prod, a.den as i128);
    proof {
        lemma_lerp_between(from as int, to as int, a);
    }
    ((from as i128) + step) as i64
}

} // verus!
