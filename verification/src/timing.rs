//! How composite motions share their time among their children.

use vstd::prelude::*;
use vstd::arithmetic::div_mod::lemma_fundamental_div_mod;
use crate::alpha::{Alpha, Time};

verus! {

/// Names a motion of a registry.
pub type MotionId = usize;

/// A child of a composite motion, with the time it takes.
pub type Timed = (MotionId, Time);

/// The stretch from `min / span` to `max / span` of a motion's progress.
/// A window is meant to have `min <= max <= span` and `0 < span`.
#[derive(Clone, Copy, Debug, PartialEq, Eq, Structural)]
pub struct Window {
    pub min: Time,
    pub max: Time,
    pub span: Time,
}

/// The sum of the durations of `items`.
pub open spec fn total_duration(items: Seq<Timed>) -> nat
    decreases items.len(),
{
    if items.len() == 0 {
        0
    } else {
        total_duration(items.drop_last()) + items.last().1 as nat
    }
}

/// The greatest of the durations of `items`; 0 where there are none.
pub open spec fn max_duration(items: Seq<Timed>) -> nat
    decreases items.len(),
{
    if items.len() == 0 {
        0
    } else {
        let rest = max_duration(items.drop_last());
        if items.last().1 as nat > rest {
            items.last().1 as nat
        } else {
            rest
        }
    }
}

/// The time at which child `k` of a sequence begins: the sum of the
/// durations before it.
pub open spec fn start_of(items: Seq<Timed>, k: int) -> nat {
    total_duration(items.subrange(0, k))
}

/// The progress of a child of a sequence that lasts `total` ticks in all,
/// where the child begins after `consumed` ticks and takes `d`. A child
/// whose time has not come has none; one whose time is over, or that takes
/// no time, is complete.
pub open spec fn spec_sequence_alpha(alpha: Alpha, total: nat, consumed: nat, d: Time) -> Option<
    Alpha,
> {
    let t = alpha.spec_ticks(total as int);
    if t < consumed {
        None
    } else if d == 0 || t - consumed >= d {
        Some(Alpha::spec_full())
    } else {
        Some(Alpha { num: (t - consumed) as u32, den: d })
    }
}

/// The progress of a child that takes `d` ticks among concurrent children
/// of which the longest takes `longest`. A child that takes less is
/// complete from its own end on.
pub open spec fn spec_concurrent_alpha(alpha: Alpha, longest: nat, d: Time) -> Alpha {
    let t = alpha.spec_ticks(longest as int);
    if d == 0 || t >= d {
        Alpha::spec_full()
    } else {
        Alpha { num: t as u32, den: d }
    }
}

/// Whether a trigger set at `time` fires at progress `alpha`: from `time`
/// on, always.
pub open spec fn spec_fires(time: Alpha, alpha: Alpha) -> bool {
    alpha.num * time.den >= time.num * alpha.den
}

impl Window {
    /// The width of the window; none where it ends before it begins.
        pub open spec fn spec_width(self) -> nat {
        if self.max > self.min {
            (self.max - self.min) as nat
        } else {
            0
        }
    }

    /// The whole of a motion that takes `span` ticks.
    pub open spec fn spec_whole(span: Time) -> Window {
        Window { min: 0, max: span, span }
    }

    /// Whether progress `alpha` lies before the window opens.
        pub open spec fn spec_before(self, alpha: Alpha) -> bool {
        alpha.num * self.span < self.min * alpha.den
    }

    /// How far progress `alpha` has come through the window, as the
    /// fraction of the two results; at least 1 where the window is over or
    /// has no width.
        pub open spec fn spec_into(self, alpha: Alpha) -> (int, int) {
        (alpha.num * self.span - self.min * alpha.den, alpha.den * self.spec_width())
    }

    /// The window from `min / span` to `max / span`.
    pub fn new(min: Time, max: Time, span: Time) -> (w: Window)
        ensures
            w == (Window { min, max, span }),
    {
        Window { min, max, span }
    }

    /// The whole of a motion that takes `span` ticks.
    pub fn whole(span: Time) -> (w: Window)
        ensures
            w == Window::spec_whole(span),
    {
        Window { min: 0, max: span, span }
    }
}

/// Where progress `alpha` through the window `from` lands in the window
/// `to`. Before `from` opens it lands nowhere. After `from` is over, and in
/// a window without width, it lands on the end of `to`. In between it moves
/// evenly from the start of `to` to its end, rounded down to a tick of
/// `to`.
pub open spec fn spec_remap(from: Window, to: Window, alpha: Alpha) -> Option<Alpha> {
    if from.spec_before(alpha) {
        None
    } else {
        let (p, q) = from.spec_into(alpha);
        let reached = if p >= q {
            to.min as int + to.spec_width()
        } else {
            to.min + ((p * to.spec_width()) / (alpha.den as int)) / (from.spec_width() as int)
        };
        Some(Alpha::spec_ratio(reached as u32, to.span))
    }
}

/// A sum of durations is bounded by their number.
pub proof fn lemma_total_bound(items: Seq<Timed>)
    ensures
        total_duration(items) <= items.len() * 0xffff_ffff,
    decreases items.len(),
{
    if items.len() > 0 {
        lemma_total_bound(items.drop_last());
        assert(total_duration(items) <= items.len() * 0xffff_ffff) by (nonlinear_arith)
            requires
                total_duration(items) == total_duration(items.drop_last()) + items.last().1 as nat,
                total_duration(items.drop_last()) <= (items.len() - 1) * 0xffff_ffff,
                items.last().1 <= 0xffff_ffff,
                items.len() >= 1,
        ;
    }
}

/// The sum of the durations of `items`.
pub fn total_of(items: &Vec<Timed>) -> (total: u128)
    ensures
        total == total_duration(items@),
        total <= 0xffff_ffff_ffff_ffff_ffff_ffff,
{
    let mut total: u128 = 0;
    let mut i: usize = 0;
    assert(items@.subrange(0, 0) =~= Seq::empty());
    while i < items.len()
        invariant
            i <= items.len(),
            total == total_duration(items@.subrange(0, i as int)),
        decreases items.len() - i,
    {
        proof {
            lemma_total_bound(items@.subrange(0, i as int));
            assert(i * 0xffff_ffff <= 0xffff_ffff_ffff_ffff * 0xffff_ffff) by (nonlinear_arith)
                requires
                    0 <= i <= 0xffff_ffff_ffff_ffff,
            ;
            assert(items@.subrange(0, i + 1).drop_last() =~= items@.subrange(0, i as int));
        }
        total = total + (items[i].1 as u128);
        i = i + 1;
    }
    proof {
        assert(items@.subrange(0, i as int) =~= items@);
        lemma_total_bound(items@);
        assert(items@.len() * 0xffff_ffff <= 0xffff_ffff_ffff_ffff * 0xffff_ffff)
            by (nonlinear_arith)
            requires
                0 <= items@.len() <= 0xffff_ffff_ffff_ffff,
        ;
    }
    total
}

/// The greatest of the durations of `items`.
pub fn longest_of(items: &Vec<Timed>) -> (longest: Time)
    ensures
        longest == max_duration(items@),
{
    let mut longest: Time = 0;
    let mut i: usize = 0;
    assert(items@.subrange(0, 0) =~= Seq::empty());
    while i < items.len()
        invariant
            i <= items.len(),
            longest == max_duration(items@.subrange(0, i as int)),
        decreases items.len() - i,
    {
        proof {
            assert(items@.subrange(0, i + 1).drop_last() =~= items@.subrange(0, i as int));
        }
        if items[i].1 > longest {
            longest = items[i].1;
        }
        i = i + 1;
    }
    assert(items@.subrange(0, i as int) =~= items@);
    longest
}

/// The progress of a child of a sequence.
pub fn sequence_alpha(alpha: Alpha, total: u128, consumed: u128, d: Time) -> (r: Option<Alpha>)
    requires
        alpha.wf(),
        total <= 0xffff_ffff_ffff_ffff_ffff_ffff,
    ensures
        r == spec_sequence_alpha(alpha, total as nat, consumed as nat, d),
        r matches Some(a) ==> a.wf(),
{
    let t: u128 = alpha.ticks(total);
    if t < consumed {
        None
    } else if d == 0 || t - consumed >= d as u128 {
        Some(Alpha::full())
    } else {
        Some(Alpha { num: (t - consumed) as u32, den: d })
    }
}

/// The progress of one of several concurrent children.
pub fn concurrent_alpha(alpha: Alpha, longest: Time, d: Time) -> (r: Alpha)
    requires
        alpha.wf(),
    ensures
        r == spec_concurrent_alpha(alpha, longest as nat, d),
        r.wf(),
{
    let t: u128 = alpha.ticks(longest as u128);
    if d == 0 || t >= d as u128 {
        Alpha::full()
    } else {
        Alpha { num: t as u32, den: d }
    }
}

/// Whether a trigger set at `time` fires at progress `alpha`.
pub fn fires(time: Alpha, alpha: Alpha) -> (b: bool)
    ensures
        b == spec_fires(time, alpha),
{
    assert((alpha.num as int) * (time.den as int) <= 0xffff_ffff * 0xffff_ffff && (time.num as int)
        * (alpha.den as int) <= 0xffff_ffff * 0xffff_ffff) by (nonlinear_arith)
        requires
            0 <= alpha.num as int <= 0xffff_ffff,
            0 <= time.den as int <= 0xffff_ffff,
            0 <= time.num as int <= 0xffff_ffff,
            0 <= alpha.den as int <= 0xffff_ffff,
    ;
    (alpha.num as u64) * (time.den as u64) >= (time.num as u64) * (alpha.den as u64)
}

/// Where progress `alpha` through the window `from` lands in the window
/// `to`.
pub fn remap(from: Window, to: Window, alpha: Alpha) -> (r: Option<Alpha>)
    ensures
        r == spec_remap(from, to, alpha),
        r matches Some(a) ==> a.wf(),
{
    let width: u64 = if from.max > from.min {
        (from.max - from.min) as u64
    } else {
        0
    };
    let reach: u64 = if to.max > to.min {
        (to.max - to.min) as u64
    } else {
        0
    };
    assert((alpha.num as int) * (from.span as int) <= 0xffff_ffff * 0xffff_ffff && (from.min as int)
        * (alpha.den as int) <= 0xffff_ffff * 0xffff_ffff && (alpha.den as int) * (width as int)
        <= 0xffff_ffff * 0xffff_ffff) by (nonlinear_arith)
        requires
            0 <= alpha.num as int <= 0xffff_ffff,
            0 <= from.span as int <= 0xffff_ffff,
            0 <= from.min as int <= 0xffff_ffff,
            0 <= alpha.den as int <= 0xffff_ffff,
            0 <= width as int <= 0xffff_ffff,
    ;
    let lhs: u64 = (alpha.num as u64) * (from.span as u64);
    let rhs: u64 = (from.min as u64) * (alpha.den as u64);
    if lhs < rhs {
        return None;
    }
    let p: u64 = lhs - rhs;
    let q: u64 = (alpha.den as u64) * width;
    let reached: u64 = if p >= q {
        (to.min as u64) + reach
    } else {
        assert((p as int) * (reach as int) <= 0xffff_ffff_ffff_ffff * 0xffff_ffff)
            by (nonlinear_arith)
            requires
                0 <= p as int <= 0xffff_ffff_ffff_ffff,
                0 <= reach as int <= 0xffff_ffff,
        ;
        let wide: u128 = (p as u128) * (reach as u128);
        let step: u128 = wide / (q as u128);
        proof {
            lemma_fundamental_div_mod(wide as int, q as int);
            let r: int = wide as int % q as int;
            assert(step as int <= reach as int) by (nonlinear_arith)
                requires
                    wide as int == (p as int) * (reach as int),
                    wide as int == (q as int) * (step as int) + r,
                    0 <= r < q as int,
                    0 <= (p as int) && (p as int) < (q as int),
                    0 <= reach as int,
            ;
            assert(alpha.den > 0 && width > 0) by (nonlinear_arith)
                requires
                    q as int == (alpha.den as int) * (width as int),
                    0 <= alpha.den as int,
                    0 <= width as int,
                    q as int > 0,
            ;
            vstd::arithmetic::div_mod::lemma_div_denominator(
                wide as int,
                alpha.den as int,
                width as int,
            );
        }
        (to.min as u64) + (step as u64)
    };
    Some(Alpha::ratio(reached as u32, to.span))
}

} // verus!
