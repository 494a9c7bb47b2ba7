//! What holds of every scene and of every tree.

use vstd::prelude::*;
use vstd::arithmetic::div_mod::lemma_fundamental_div_mod_converse;
use crate::alpha::{Alpha, Scalar, Time};
use crate::easing::{
    Easing,
    lemma_eased_range,
    lemma_eased_whole,
    lemma_floor_ordered,
    spec_eased_square,
};
use crate::fault::Fault;
use crate::geometry::{Point, Rect, Transform};
use crate::trig::{UNIT, lemma_sin_cos_range};
use crate::motion::{Motion, Scene, spec_fade, spec_fade_children};
use crate::object::{KindView, ObjectId, ObjectView};
use crate::object_tree::TreeView;
use crate::scene::{spec_fresh_world, spec_play, spec_render_with, spec_sequence};
use crate::timing::{
    MotionId,
    Timed,
    Window,
    max_duration,
    spec_concurrent_alpha,
    spec_fires,
    spec_remap,
    spec_sequence_alpha,
    start_of,
    total_duration,
};
use crate::world::{Variable, WorldView};

verus! {

/// On a clock that runs as long as the window of a progress, the progress
/// stands at the elapsed time itself.
pub proof fn lemma_ratio_ticks(t: Time, span: Time)
    requires
        0 < span,
    ensures
        t <= span ==> Alpha::spec_ratio(t, span).spec_ticks(span as int) == t,
        t > span ==> Alpha::spec_ratio(t, span).spec_ticks(span as int) == span,
{
    let e: int = if t <= span {
        t as int
    } else {
        span as int
    };
    assert(e * span == span * e + 0) by (nonlinear_arith);
    lemma_fundamental_div_mod_converse(e * span, span as int, e, 0);
}

/// The beginnings of the children of a sequence follow each other: each
/// child begins where the one before it ends, and none ends after the
/// whole.
pub proof fn lemma_start_of_next(items: Seq<Timed>, k: int)
    requires
        0 <= k < items.len(),
    ensures
        start_of(items, k + 1) == start_of(items, k) + items[k].1,
        start_of(items, k + 1) <= total_duration(items),
    decreases items.len() - k,
{
    assert(items.subrange(0, k + 1).drop_last() =~= items.subrange(0, k));
    if k + 1 < items.len() {
        lemma_start_of_next(items, k + 1);
    } else {
        assert(items.subrange(0, k + 1) =~= items);
    }
}

/// Rendering is repeatable. What a scene shows at a time depends on the scene, the
/// time, the surface and the variables it starts with, and on nothing
/// else: two passes over the same scene at the same time give the same
/// tree, and so the same list of things to draw.
pub proof fn law_render_is_repeatable(
    scene: Scene,
    time: Time,
    render_size: (Scalar, Scalar),
    variables: Map<Variable, Scalar>,
    first: Result<TreeView, Fault>,
    second: Result<TreeView, Fault>,
)
    requires
        first == spec_render_with(scene, time, render_size, variables),
        second == spec_render_with(scene, time, render_size, variables),
    ensures
        first == second,
        first matches Ok(a) ==> second matches Ok(b) && a.spec_render() == b.spec_render()
            && a.spec_bounding_boxes() == b.spec_bounding_boxes(),
{
}

/// A scene whose root is a sequence shows, at a time, what its children
/// make of the empty world, each at the progress that the sequence allots to
/// it: `law_sequence_duration` says which.
pub proof fn law_render_plays_root_sequence(
    scene: Scene,
    time: Time,
    render_size: (Scalar, Scalar),
    variables: Map<Variable, Scalar>,
)
    requires
        scene.root < scene.motions@.len(),
        scene.motions@[scene.root as int] is Sequence,
    ensures
        ({
            let items = scene.motions@[scene.root as int]->Sequence_0@;
            spec_render_with(scene, time, render_size, variables) == match spec_sequence(
                scene,
                items,
                items.len(),
                spec_fresh_world(render_size, variables),
                Alpha::spec_ratio(time, scene.length),
                scene.motions@.len(),
            ) {
                Ok(w) => Ok::<TreeView, Fault>(w.objects),
                Err(e) => Err(e),
            }
        }),
{
}

/// How a sequence spends its time. In a sequence played over its own
/// length, a child that takes time is passed over before its beginning, is
/// in progress, and not complete, from its beginning up to the last tick
/// before its end, and is complete from its end on.
pub proof fn law_sequence_duration(items: Seq<Timed>, k: int, time: Time)
    requires
        0 <= k < items.len(),
        0 < items[k].1,
        total_duration(items) <= 0xffff_ffff,
    ensures
        ({
            let total = total_duration(items);
            let begin = start_of(items, k);
            let d = items[k].1;
            let child = spec_sequence_alpha(
                Alpha::spec_ratio(time, total as u32),
                total,
                begin,
                d,
            );
            &&& time < begin ==> child is None
            &&& begin <= time < begin + d ==> child == Some(
                Alpha { num: (time - begin) as u32, den: d },
            ) && !child->Some_0.is_full() && child->Some_0.wf()
            &&& begin + d <= time ==> child == Some(Alpha::spec_full())
        }),
{
    lemma_start_of_next(items, k);
    let total = total_duration(items);
    lemma_ratio_ticks(time, total as u32);
}

/// A child of a sequence that takes no time is complete from its
/// beginning on: what is instantaneous is never left half done.
pub proof fn law_sequence_instant(items: Seq<Timed>, k: int, alpha: Alpha)
    requires
        0 <= k < items.len(),
        items[k].1 == 0,
        alpha.wf(),
    ensures
        ({
            let child = spec_sequence_alpha(
                alpha,
                total_duration(items),
                start_of(items, k),
                items[k].1,
            );
            child is None || child == Some(Alpha::spec_full())
        }),
{
}

/// How concurrent motions spend their time. Of several motions played at once over
/// the time of the longest, each is in progress up to its own end and
/// complete from then on, while longer ones still run; none is ever passed
/// over.
pub proof fn law_concurrently(items: Seq<Timed>, k: int, time: Time)
    requires
        0 <= k < items.len(),
        0 < items[k].1,
    ensures
        ({
            let longest = max_duration(items);
            let d = items[k].1;
            let child = spec_concurrent_alpha(
                Alpha::spec_ratio(time, longest as u32),
                longest,
                d,
            );
            &&& d <= longest <= 0xffff_ffff
            &&& time < d ==> child == (Alpha { num: time, den: d }) && !child.is_full()
            &&& d <= time ==> child == Alpha::spec_full()
        }),
{
    lemma_max_bounds(items, k);
    lemma_ratio_ticks(time, max_duration(items) as u32);
}

/// The longest duration is no shorter than any, and is a duration.
pub proof fn lemma_max_bounds(items: Seq<Timed>, k: int)
    requires
        0 <= k < items.len(),
    ensures
        items[k].1 <= max_duration(items) <= 0xffff_ffff,
    decreases items.len(),
{
    if k < items.len() - 1 {
        lemma_max_bounds(items.drop_last(), k);
        assert(items.drop_last()[k] == items[k]);
    } else if items.len() > 1 {
        lemma_max_bounds(items.drop_last(), 0);
    } else {
        assert(items.drop_last().len() == 0);
        assert(max_duration(items.drop_last()) == 0);
    }
}

/// A trigger is a level, not an edge: once it fires, it fires at every
/// later progress, so a pass may be repeated at will.
pub proof fn law_trigger_stays_fired(time: Alpha, earlier: Alpha, later: Alpha)
    requires
        earlier.wf(),
        later.wf(),
        0 < time.den,
        earlier.num * later.den <= later.num * earlier.den,
        spec_fires(time, earlier),
    ensures
        spec_fires(time, later),
{
    let a: int = earlier.num as int;
    let b: int = earlier.den as int;
    let c: int = later.num as int;
    let d: int = later.den as int;
    let n: int = time.num as int;
    let m: int = time.den as int;
    assert(c * m >= n * d) by (nonlinear_arith)
        requires
            a * m >= n * b,
            a * d <= c * b,
            0 < b,
            0 < d,
            0 < m,
            0 <= a,
            0 <= c,
            0 <= n,
    {
        // From a * m >= n * b: a * m * d >= n * b * d. From a * d <= c * b:
        // a * d * m <= c * b * m. So n * b * d <= c * b * m, and b > 0.
        assert(a * m * d >= n * b * d);
        assert(a * d * m <= c * b * m);
        assert(a * m * d == a * d * m);
        assert(b * (n * d) <= b * (c * m));
    }
}

/// The bent values of two fractions, brought to one denominator, come in
/// the order of the fractions.
pub proof fn lemma_eased_cross(e: Easing, a: int, b: int, c: int, d: int)
    requires
        0 < b,
        0 < d,
        0 <= a <= b,
        0 <= c <= d,
        a * d <= c * b,
    ensures
        spec_eased_square(e, a, b) * (d * d) <= spec_eased_square(e, c, d) * (b * b),
{
    let x: int = a * d;
    let y: int = c * b;
    let m: int = b * d;
    assert(0 <= x <= y <= m && 0 < m) by (nonlinear_arith)
        requires
            x == a * d,
            y == c * b,
            m == b * d,
            0 < b,
            0 < d,
            0 <= a <= b,
            0 <= c <= d,
            a * d <= c * b,
    ;
    assert((2 * a < b) == (2 * x < m)) by (nonlinear_arith)
        requires
            x == a * d,
            m == b * d,
            0 < d,
    ;
    assert((2 * c < d) == (2 * y < m)) by (nonlinear_arith)
        requires
            y == c * b,
            m == b * d,
            0 < b,
    ;
    let left: int = spec_eased_square(e, a, b) * (d * d);
    let right: int = spec_eased_square(e, c, d) * (b * b);
    match e {
        Easing::Linear => {
            assert(left == x * m) by (nonlinear_arith)
                requires
                    left == (a * b) * (d * d),
                    x == a * d,
                    m == b * d,
            ;
            assert(right == y * m) by (nonlinear_arith)
                requires
                    right == (c * d) * (b * b),
                    y == c * b,
                    m == b * d,
            ;
            assert(x * m <= y * m) by (nonlinear_arith)
                requires
                    x <= y,
                    0 < m,
            ;
        },
        Easing::EaseIn => {
            assert(left == x * x) by (nonlinear_arith)
                requires
                    left == (a * a) * (d * d),
                    x == a * d,
            ;
            assert(right == y * y) by (nonlinear_arith)
                requires
                    right == (c * c) * (b * b),
                    y == c * b,
            ;
            assert(x * x <= y * y) by (nonlinear_arith)
                requires
                    0 <= x <= y,
            ;
        },
        Easing::EaseOut => {
            assert(left == x * (2 * m - x)) by (nonlinear_arith)
                requires
                    left == (a * (2 * b - a)) * (d * d),
                    x == a * d,
                    m == b * d,
            ;
            assert(right == y * (2 * m - y)) by (nonlinear_arith)
                requires
                    right == (c * (2 * d - c)) * (b * b),
                    y == c * b,
                    m == b * d,
            ;
            assert(y * (2 * m - y) - x * (2 * m - x) == (y - x) * (2 * m - x - y))
                by (nonlinear_arith);
            assert((y - x) * (2 * m - x - y) >= 0) by (nonlinear_arith)
                requires
                    0 <= x <= y <= m,
            ;
        },
        Easing::EaseInOut => {
            if 2 * x < m {
                assert(left == 2 * (x * x)) by (nonlinear_arith)
                    requires
                        left == (2 * a * a) * (d * d),
                        x == a * d,
                ;
            } else {
                let dd: int = d * d;
                assert((a * b) * dd == x * m && (a * a) * dd == x * x && (b * b) * dd == m * m)
                    by (nonlinear_arith)
                    requires
                        x == a * d,
                        m == b * d,
                        dd == d * d,
                ;
                assert(4 * a * b == 4 * (a * b) && 2 * a * a == 2 * (a * a)) by (nonlinear_arith);
                assert((4 * (a * b) - 2 * (a * a) - b * b) * dd == 4 * ((a * b) * dd) - 2 * ((a * a)
                    * dd) - (b * b) * dd) by (nonlinear_arith);
                assert(left == 4 * (x * m) - 2 * (x * x) - m * m);
            }
            if 2 * y < m {
                assert(right == 2 * (y * y)) by (nonlinear_arith)
                    requires
                        right == (2 * c * c) * (b * b),
                        y == c * b,
                ;
                assert(x * x <= y * y) by (nonlinear_arith)
                    requires
                        0 <= x <= y,
                ;
            } else {
                let bb: int = b * b;
                assert((c * d) * bb == y * m && (c * c) * bb == y * y && (d * d) * bb == m * m)
                    by (nonlinear_arith)
                    requires
                        y == c * b,
                        m == b * d,
                        bb == b * b,
                ;
                assert(4 * c * d == 4 * (c * d) && 2 * c * c == 2 * (c * c)) by (nonlinear_arith);
                assert((4 * (c * d) - 2 * (c * c) - d * d) * bb == 4 * ((c * d) * bb) - 2 * ((c * c)
                    * bb) - (d * d) * bb) by (nonlinear_arith);
                assert(right == 4 * (y * m) - 2 * (y * y) - m * m);
                if 2 * x < m {
                    // The first half ends at a half, where the second begins.
                    assert(4 * (x * x) <= m * m) by (nonlinear_arith)
                        requires
                            0 <= 2 * x < m,
                    ;
                    assert(2 * (4 * (y * m) - 2 * (y * y) - m * m) - m * m == (2 * y - m) * (3 * m
                        - 2 * y)) by (nonlinear_arith);
                    assert((2 * y - m) * (3 * m - 2 * y) >= 0) by (nonlinear_arith)
                        requires
                            m <= 2 * y,
                            y <= m,
                            0 < m,
                    ;
                } else {
                    assert((4 * (y * m) - 2 * (y * y) - m * m) - (4 * (x * m) - 2 * (x * x) - m * m)
                        == 2 * ((y - x) * (2 * m - x - y))) by (nonlinear_arith);
                    assert((y - x) * (2 * m - x - y) >= 0) by (nonlinear_arith)
                        requires
                            0 <= x <= y <= m,
                    ;
                }
            }
        },
    }
}

/// A curve keeps the order of progress. Of any two fractions, however they
/// are written, the later is bent to one that is no earlier; so equal
/// progress is bent to equal results, a curve never turns a motion round,
/// and, as every result is a fraction of one, never lets it overshoot.
pub proof fn law_easing_keeps_order(e: Easing, earlier: Alpha, later: Alpha)
    requires
        earlier.wf(),
        later.wf(),
        earlier.num * later.den <= later.num * earlier.den,
    ensures
        e.spec_apply(earlier).wf(),
        e.spec_apply(later).wf(),
        e.spec_apply(earlier).num * e.spec_apply(later).den <= e.spec_apply(later).num
            * e.spec_apply(earlier).den,
        e != Easing::Linear ==> e.spec_apply(earlier).den == e.spec_apply(later).den
            && e.spec_apply(earlier).num <= e.spec_apply(later).num,
{
    let a: int = earlier.num as int;
    let b: int = earlier.den as int;
    let c: int = later.num as int;
    let d: int = later.den as int;
    if e != Easing::Linear {
        let s1: int = spec_eased_square(e, a, b);
        let s2: int = spec_eased_square(e, c, d);
        lemma_eased_range(e, a, b);
        lemma_eased_range(e, c, d);
        lemma_eased_whole(s1, b);
        lemma_eased_whole(s2, d);
        lemma_eased_cross(e, a, b, c, d);
        assert(0 < b * b && 0 < d * d) by (nonlinear_arith)
            requires
                0 < b,
                0 < d,
        ;
        assert((s1 * 1_000_000_000) * (d * d) <= (s2 * 1_000_000_000) * (b * b))
            by (nonlinear_arith)
            requires
                s1 * (d * d) <= s2 * (b * b),
        ;
        lemma_floor_ordered(s1 * 1_000_000_000, b * b, s2 * 1_000_000_000, d * d);
        let n1: int = ((s1 * 1_000_000_000) / b) / b;
        let n2: int = ((s2 * 1_000_000_000) / d) / d;
        assert(n1 <= n2);
        assert(n1 * 1_000_000_000 <= n2 * 1_000_000_000);
    }
}

/// The two halves of the curve that eases in and out meet: at half the
/// progress both give a half.
pub proof fn law_ease_in_out_meets(n: int, d: int)
    requires
        0 < d,
        2 * n == d,
    ensures
        2 * (2 * n * n) == d * d,
        2 * spec_eased_square(Easing::EaseInOut, n, d) == d * d,
{
    assert(2 * (2 * n * n) == d * d && 2 * (4 * n * d - 2 * n * n - d * d) == d * d)
        by (nonlinear_arith)
        requires
            2 * n == d,
    ;
}

/// A linear curve leaves progress as it is.
pub proof fn law_linear_easing(t: Alpha)
    ensures
        Easing::Linear.spec_apply(t) == t,
{
}

/// A keyframe waits, runs and holds. A keyframe that maps a window onto the
/// whole of another motion does not run that motion before the window
/// opens, and holds it at its end once the window is over.
pub proof fn law_keyframe_clamp(from: Window, inner: Time, time: Time)
    requires
        from.min <= from.max <= from.span,
        0 < from.span,
        0 < inner,
    ensures
        ({
            let landed = spec_remap(
                from,
                Window::spec_whole(inner),
                Alpha::spec_ratio(time, from.span),
            );
            &&& time < from.min ==> landed is None
            &&& from.min <= time ==> landed is Some && landed->Some_0.wf()
            &&& from.max <= time ==> landed == Some(Alpha { num: inner, den: inner })
                && landed->Some_0.is_full()
        }),
{
    let alpha = Alpha::spec_ratio(time, from.span);
    let e: int = alpha.num as int;
    assert(alpha.den == from.span);
    assert(time < from.min ==> e * from.span < from.min * from.span) by (nonlinear_arith)
        requires
            e == time || (e == from.span && time > from.span),
            from.min <= from.span,
            0 < from.span,
    ;
    assert(from.min <= time ==> e * from.span >= from.min * from.span) by (nonlinear_arith)
        requires
            e == time || (e == from.span && time > from.span),
            from.min <= from.span,
            0 < from.span,
    ;
    let (p, q) = from.spec_into(alpha);
    assert(from.max <= time ==> p >= q) by (nonlinear_arith)
        requires
            p == e * from.span - from.min * from.span,
            q == from.span * from.spec_width(),
            from.spec_width() == from.max - from.min,
            e == time || (e == from.span && time > from.span),
            from.min <= from.max <= from.span,
            0 < from.span,
    ;
    if from.min <= time && p < q {
        assert(from.span > 0 && from.spec_width() > 0) by (nonlinear_arith)
            requires
                q == from.span * from.spec_width(),
                0 <= from.span,
                0 <= from.spec_width(),
                q > 0,
        ;
        vstd::arithmetic::div_mod::lemma_div_denominator(
            p * inner,
            from.span as int,
            from.spec_width() as int,
        );
        let step: int = (p * inner) / q;
        vstd::arithmetic::div_mod::lemma_fundamental_div_mod(p * inner, q);
        assert(0 <= step <= inner) by (nonlinear_arith)
            requires
                p * inner == q * step + (p * inner) % q,
                0 <= (p * inner) % q < q,
                0 <= p < q,
                0 < inner,
        ;
    }
}

/// Before its window opens, a keyframe leaves the world as it is: what it
/// would add is absent, what it would move stands still.
pub proof fn law_keyframe_waits(
    scene: Scene,
    id: MotionId,
    w: WorldView,
    alpha: Alpha,
    depth: nat,
)
    requires
        id < scene.motions@.len(),
        scene.motions@[id as int] matches Motion::Keyframe(k) && k.from.spec_before(alpha),
    ensures
        spec_play(scene, id, w, alpha, depth) == Ok::<WorldView, Fault>(w),
{
}

/// What can be reached in some number of steps can be reached in more.
pub proof fn lemma_reaches_later(tree: TreeView, from: ObjectId, to: ObjectId, steps: nat, more: nat)
    requires
        tree.spec_reaches(from, to, steps),
    ensures
        tree.spec_reaches(from, to, steps + more),
    decreases steps,
{
    if from == to && tree.objects.contains_key(to) {
    } else {
        let c = tree.objects[from].kind->Group_0;
        let i = choose|i: int|
            0 <= i < c.len() && tree.spec_reaches(#[trigger] c[i], to, (steps - 1) as nat);
        lemma_reaches_later(tree, c[i], to, (steps - 1) as nat, more);
        assert(tree.spec_reaches(c[i], to, (steps + more - 1) as nat));
    }
}

/// What a child reaches, its group reaches in one step more.
pub proof fn lemma_reaches_through(
    tree: TreeView,
    group: ObjectId,
    i: int,
    to: ObjectId,
    steps: nat,
)
    requires
        tree.objects.contains_key(group),
        tree.objects[group].kind is Group,
        0 <= i < tree.objects[group].kind->Group_0.len(),
        tree.spec_reaches(tree.objects[group].kind->Group_0[i], to, steps),
    ensures
        tree.spec_reaches(group, to, steps + 1),
{
    let c = tree.objects[group].kind->Group_0;
    assert(tree.spec_reaches(c[i], to, ((steps + 1) - 1) as nat));
}

/// Reaching is transitive.
pub proof fn lemma_reaches_on(
    tree: TreeView,
    a: ObjectId,
    b: ObjectId,
    c: ObjectId,
    first: nat,
    then: nat,
)
    requires
        tree.spec_reaches(a, b, first),
        tree.spec_reaches(b, c, then),
    ensures
        tree.spec_reaches(a, c, first + then),
    decreases first,
{
    if a == b && tree.objects.contains_key(b) {
        lemma_reaches_later(tree, b, c, then, first);
    } else {
        let ch = tree.objects[a].kind->Group_0;
        let i = choose|i: int|
            0 <= i < ch.len() && tree.spec_reaches(#[trigger] ch[i], b, (first - 1) as nat);
        lemma_reaches_on(tree, ch[i], b, c, (first - 1) as nat, then);
        lemma_reaches_through(tree, a, i, c, (first - 1 + then) as nat);
    }
}

/// The tree that holds `sub` under the group `new_root`, placed by
/// `placement` and put under the root of `main`: what embedding a scene
/// makes of the two trees.
pub open spec fn spec_embed(
    main: TreeView,
    sub: TreeView,
    new_root: ObjectId,
    placement: Transform,
) -> Result<TreeView, Fault> {
    main.spec_merge(sub, new_root).spec_add(
        new_root,
        ObjectView {
            kind: KindView::Group(sub.spec_rooted()),
            transform: placement,
        },
        true,
    )
}

/// The names of `sub` do not get in the way of `main`: none but the root of
/// `sub` is the root of `main` or is `new_root`, and `new_root` is not the
/// root of `main`.
pub open spec fn spec_fits(main: TreeView, sub: TreeView, new_root: ObjectId) -> bool {
    &&& main.objects.contains_key(main.root)
    &&& main.objects[main.root].kind is Group
    &&& new_root != main.root
    &&& forall|k: ObjectId| #[trigger]
        sub.objects.contains_key(k) && k != sub.root ==> k != main.root && k != new_root
}

/// The tree `m` holds every object of `sub` but its root, unchanged.
pub open spec fn spec_keeps(m: TreeView, sub: TreeView) -> bool {
    forall|k: ObjectId| #[trigger]
        sub.objects.contains_key(k) && k != sub.root ==> m.objects.contains_key(k)
            && m.objects[k] == sub.objects[k]
}

proof fn lemma_embed_keeps(
    main: TreeView,
    sub: TreeView,
    new_root: ObjectId,
    placement: Transform,
)
    requires
        spec_fits(main, sub, new_root),
    ensures
        spec_embed(main, sub, new_root, placement) is Ok,
        ({
            let m = spec_embed(main, sub, new_root, placement)->Ok_0;
            &&& m.root == main.root
            &&& m.objects.contains_key(new_root)
            &&& m.objects[new_root].kind == KindView::Group(sub.spec_rooted())
            &&& m.objects[new_root].transform == placement
            &&& m.objects.contains_key(main.root)
            &&& m.objects[main.root].kind == KindView::Group(
                main.objects[main.root].kind->Group_0.push(new_root),
            )
            &&& spec_keeps(m, sub)
        }),
{
}

/// If `n` can be reached in `sub` from `x`, and `x` is the root of `sub`
/// or can be reached from `new_root` in the tree that embeds `sub`, then
/// `n` can be reached from `new_root` there. Returns in how many steps.
proof fn lemma_embed_reaches(
    m: TreeView,
    sub: TreeView,
    new_root: ObjectId,
    x: ObjectId,
    n: ObjectId,
    steps: nat,
    so_far: nat,
) -> (total: nat)
    requires
        m.objects.contains_key(new_root),
        m.objects[new_root].kind == KindView::Group(sub.spec_rooted()),
        spec_keeps(m, sub),
        sub.spec_reaches(x, n, steps),
        n != sub.root,
        x == sub.root || m.spec_reaches(new_root, x, so_far),
    ensures
        m.spec_reaches(new_root, n, total),
    decreases steps,
{
    if x == n && sub.objects.contains_key(n) {
        so_far
    } else {
        let c = sub.objects[x].kind->Group_0;
        let i = choose|i: int|
            0 <= i < c.len() && sub.spec_reaches(#[trigger] c[i], n, (steps - 1) as nat);
        let y = c[i];
        if y == sub.root {
            lemma_embed_reaches(m, sub, new_root, y, n, (steps - 1) as nat, 0)
        } else {
            assert(sub.objects.contains_key(y));
            assert(m.spec_reaches(y, y, 0));
            if x == sub.root {
                assert(sub.spec_rooted() == c);
                lemma_reaches_through(m, new_root, i, y, 0);
                lemma_embed_reaches(m, sub, new_root, y, n, (steps - 1) as nat, 1)
            } else {
                assert(m.objects[x] == sub.objects[x]);
                lemma_reaches_through(m, x, i, y, 0);
                lemma_reaches_on(m, new_root, x, y, so_far, 1);
                lemma_embed_reaches(m, sub, new_root, y, n, (steps - 1) as nat, so_far + 1)
            }
        }
    }
}

/// Embedding keeps what is reached. Where a tree is merged into another and its
/// root group, under its new name, is put under the root of the other, all
/// that its own root reached is reached by the root of the whole.
pub proof fn law_merge_reaches(
    main: TreeView,
    sub: TreeView,
    new_root: ObjectId,
    placement: Transform,
    n: ObjectId,
)
    requires
        spec_fits(main, sub, new_root),
        sub.spec_reachable(n),
        n != sub.root,
    ensures
        spec_embed(main, sub, new_root, placement) matches Ok(m) && m.spec_reachable(n)
            && m.spec_reachable(new_root),
{
    lemma_embed_keeps(main, sub, new_root, placement);
    let m = spec_embed(main, sub, new_root, placement)->Ok_0;
    let steps = choose|steps: nat| sub.spec_reaches(sub.root, n, steps);
    let inner = lemma_embed_reaches(m, sub, new_root, sub.root, n, steps, 0);
    let c = main.objects[main.root].kind->Group_0;
    assert(c.push(new_root)[c.len() as int] == new_root);
    assert(m.spec_reaches(new_root, new_root, 0));
    lemma_reaches_through(m, m.root, c.len() as int, new_root, 0);
    lemma_reaches_on(m, m.root, new_root, n, 1, inner);
}

/// The placement that moves by `p` and does nothing else.
pub open spec fn spec_shift(p: Point) -> Transform {
    Transform { position: p, rotation: 0, scale: UNIT, anchor: Point { x: 0, y: 0 } }
}

/// The coordinate `v` is not saturated, and neither is `v + by`.
pub open spec fn spec_room(v: Scalar, by: Scalar) -> bool {
    &&& i64::MIN < v < i64::MAX
    &&& i64::MIN < v + by < i64::MAX
}

/// Both coordinates of `q` have room for those of `p`.
pub open spec fn spec_point_room(q: Point, p: Point) -> bool {
    spec_room(q.x, p.x) && spec_room(q.y, p.y)
}

/// The point `q` moved by `p`, without saturation.
pub open spec fn spec_point_moved(q: Point, p: Point) -> Point {
    Point { x: (q.x + p.x) as i64, y: (q.y + p.y) as i64 }
}

/// The placement `t` with its position moved by `p`.
pub open spec fn spec_moved(t: Transform, p: Point) -> Transform {
    Transform { position: spec_point_moved(t.position, p), ..t }
}

/// The rectangle `r` moved by `p`. The rectangle that holds nothing holds
/// nothing wherever it is.
pub open spec fn spec_offset(r: Rect, p: Point) -> Rect {
    if r == Rect::spec_nothing() {
        r
    } else {
        Rect { min: spec_point_moved(r.min, p), max: spec_point_moved(r.max, p) }
    }
}

/// The rectangle holds nothing, or its corners have room for `p`.
pub open spec fn spec_rect_room(r: Rect, p: Point) -> bool {
    r == Rect::spec_nothing() || (spec_point_room(r.min, p) && spec_point_room(r.max, p))
}

/// The four corners of `rect`, placed by `t`, all have room for `p`.
pub open spec fn spec_corners_room(t: Transform, rect: Rect, p: Point) -> bool {
    &&& spec_point_room(t.spec_apply(rect.min), p)
    &&& spec_point_room(t.spec_apply(Point { x: rect.max.x, y: rect.min.y }), p)
    &&& spec_point_room(t.spec_apply(Point { x: rect.min.x, y: rect.max.y }), p)
    &&& spec_point_room(t.spec_apply(rect.max), p)
}

/// Multiplying by the fixed-point one changes nothing.
pub proof fn lemma_times_unit(v: int)
    ensures
        (v * UNIT) / (UNIT as int) == v,
        (UNIT * v) / (UNIT as int) == v,
{
    assert(v * UNIT == UNIT * v + 0) by (nonlinear_arith);
    lemma_fundamental_div_mod_converse(v * UNIT, UNIT as int, v, 0);
    assert(UNIT * v == v * UNIT) by (nonlinear_arith);
}

/// A placement whose position is moved by `p` places every point `p`
/// further, where there is room.
pub proof fn law_moved_apply(t: Transform, p: Point, q: Point)
    requires
        spec_point_room(t.position, p),
        spec_point_room(t.spec_apply(q), p),
    ensures
        spec_moved(t, p).spec_apply(q) == spec_point_moved(t.spec_apply(q), p),
{
}

/// A shift composed with a placement is the placement, moved.
pub proof fn law_shift_and_then(t: Transform, p: Point)
    requires
        spec_point_room(t.position, p),
    ensures
        spec_shift(p).spec_and_then(t) == spec_moved(t, p),
{
    lemma_sin_cos_range(0);
    lemma_times_unit(t.position.x as int);
    lemma_times_unit(t.position.y as int);
    lemma_times_unit(t.scale as int);
    assert(t.position.y * 0 == 0 && t.position.x * 0 == 0) by (nonlinear_arith);
}

/// A shift places every point `p` further, where there is room.
pub proof fn law_shift_apply(p: Point, q: Point)
    requires
        spec_point_room(q, p),
    ensures
        spec_shift(p).spec_apply(q) == spec_point_moved(q, p),
{
    lemma_sin_cos_range(0);
    lemma_times_unit(q.x as int);
    lemma_times_unit(q.y as int);
    assert(q.y * 0 == 0 && q.x * 0 == 0) by (nonlinear_arith);
}

/// Composition acts as the inner placement followed by the outer one,
/// where the outer placement only moves: here nothing is rounded, so the
/// two agree exactly. With a turning or scaling outer placement they agree
/// up to the rounding of each step.
pub proof fn law_shift_composes(p: Point, t: Transform, q: Point)
    requires
        spec_point_room(t.position, p),
        spec_point_room(t.spec_apply(q), p),
    ensures
        spec_shift(p).spec_and_then(t).spec_apply(q) == spec_shift(p).spec_apply(t.spec_apply(q)),
{
    law_shift_and_then(t, p);
    law_moved_apply(t, p, q);
    law_shift_apply(p, t.spec_apply(q));
}

/// The identity, composed with a placement, is the placement.
pub proof fn law_identity_and_then(t: Transform)
    ensures
        Transform::spec_identity().spec_and_then(t) == t,
{
    lemma_sin_cos_range(0);
    lemma_times_unit(t.position.x as int);
    lemma_times_unit(t.position.y as int);
    lemma_times_unit(t.scale as int);
    assert(t.position.y * 0 == 0 && t.position.x * 0 == 0) by (nonlinear_arith);
}

/// Composition is associative where the outer placements only move: it
/// does not matter whether two shifts are composed first, or the inner one
/// with what it places.
pub proof fn law_shifts_associate(p: Point, q: Point, t: Transform)
    requires
        spec_point_room(q, p),
        spec_point_room(t.position, q),
        spec_point_room(spec_point_moved(t.position, q), p),
        spec_point_room(t.position, spec_point_moved(q, p)),
    ensures
        spec_shift(p).spec_and_then(spec_shift(q)).spec_and_then(t) == spec_shift(p).spec_and_then(
            spec_shift(q).spec_and_then(t),
        ),
{
    law_shift_and_then(spec_shift(q), p);
    assert(spec_moved(spec_shift(q), p) == spec_shift(spec_point_moved(q, p)));
    law_shift_and_then(t, spec_point_moved(q, p));
    law_shift_and_then(t, q);
    law_shift_and_then(spec_moved(t, q), p);
}

/// Composition carries a move of the outer placement through to the
/// whole.
pub proof fn law_moved_and_then(outer: Transform, inner: Transform, p: Point)
    requires
        spec_point_room(outer.position, p),
        spec_point_room(outer.spec_and_then(inner).position, p),
    ensures
        spec_moved(outer, p).spec_and_then(inner) == spec_moved(outer.spec_and_then(inner), p),
{
    law_moved_apply(outer, p, inner.position);
}

/// The rectangle around four moved points is the moved rectangle around the
/// four.
pub proof fn lemma_around_moved(a: Point, b: Point, c: Point, d: Point, p: Point)
    requires
        spec_point_room(a, p),
        spec_point_room(b, p),
        spec_point_room(c, p),
        spec_point_room(d, p),
    ensures
        Rect::spec_around(
            spec_point_moved(a, p),
            spec_point_moved(b, p),
            spec_point_moved(c, p),
            spec_point_moved(d, p),
        ) == spec_offset(Rect::spec_around(a, b, c, d), p),
        spec_rect_room(Rect::spec_around(a, b, c, d), p),
        Rect::spec_around(a, b, c, d) != Rect::spec_nothing(),
{
}

/// A placement moved by `p`
/// gives bounds moved by `p`, where the corners have room.
pub proof fn law_moved_bounds(t: Transform, p: Point, rect: Rect)
    requires
        spec_point_room(t.position, p),
        spec_corners_room(t, rect, p),
    ensures
        spec_moved(t, p).spec_map_aabb(rect) == spec_offset(t.spec_map_aabb(rect), p),
        spec_rect_room(t.spec_map_aabb(rect), p),
        t.spec_map_aabb(rect) != Rect::spec_nothing(),
{
    let a = t.spec_apply(rect.min);
    let b = t.spec_apply(Point { x: rect.max.x, y: rect.min.y });
    let c = t.spec_apply(Point { x: rect.min.x, y: rect.max.y });
    let d = t.spec_apply(rect.max);
    law_moved_apply(t, p, rect.min);
    law_moved_apply(t, p, Point { x: rect.max.x, y: rect.min.y });
    law_moved_apply(t, p, Point { x: rect.min.x, y: rect.max.y });
    law_moved_apply(t, p, rect.max);
    lemma_around_moved(a, b, c, d, p);
}

/// The union of moved rectangles
/// is the moved union.
pub proof fn law_offset_union(a: Rect, b: Rect, p: Point)
    requires
        spec_rect_room(a, p),
        spec_rect_room(b, p),
    ensures
        spec_offset(a, p).spec_union(spec_offset(b, p)) == spec_offset(a.spec_union(b), p),
        spec_rect_room(a.spec_union(b), p),
{
}

/// The walk through `tree` from `id`, inside a frame placed by `frame`,
/// never meets `top`, and every placement and every corner of a shape that
/// it meets has room for `p`.
pub open spec fn spec_walk_room(
    tree: TreeView,
    top: ObjectId,
    id: ObjectId,
    frame: Transform,
    p: Point,
    depth: nat,
) -> bool
    decreases depth, 1nat, 0nat,
{
    &&& id != top
    &&& tree.objects.contains_key(id) ==> {
        let t = frame.spec_and_then(tree.objects[id].transform);
        &&& spec_point_room(t.position, p)
        &&& match tree.objects[id].kind {
            KindView::Model(m) => spec_corners_room(t, m.bounds, p),
            KindView::Group(c) => spec_walk_room_children(tree, top, c, c.len(), t, p, depth),
        }
    }
}

/// The walks from the first `n` of `children` have room for `p`.
pub open spec fn spec_walk_room_children(
    tree: TreeView,
    top: ObjectId,
    children: Seq<ObjectId>,
    n: nat,
    frame: Transform,
    p: Point,
    depth: nat,
) -> bool
    decreases depth, 0nat, n,
{
    n == 0 || {
        &&& spec_walk_room_children(tree, top, children, (n - 1) as nat, frame, p, depth)
        &&& depth > 0 ==> spec_walk_room(tree, top, children[n - 1], frame, p, (depth - 1) as nat)
    }
}

/// Every box of `boxes` is in `moved`, moved by `p`.
pub open spec fn spec_boxes_moved(
    boxes: Map<ObjectId, Rect>,
    moved: Map<ObjectId, Rect>,
    p: Point,
) -> bool {
    forall|k: ObjectId| #[trigger]
        boxes.contains_key(k) ==> moved.contains_key(k) && moved[k] == spec_offset(boxes[k], p)
}

/// Where `m` holds the
/// objects of `sub`, the boxes that a walk through `m` finds inside a
/// frame moved by `p` are those that the same walk through `sub` finds
/// inside the frame as it was, moved by `p`.
pub proof fn lemma_boxes_moved(
    sub: TreeView,
    m: TreeView,
    id: ObjectId,
    frame: Transform,
    p: Point,
    boxes: Map<ObjectId, Rect>,
    moved: Map<ObjectId, Rect>,
    depth: nat,
    deeper: nat,
)
    requires
        spec_keeps(m, sub),
        spec_point_room(frame.position, p),
        spec_walk_room(sub, sub.root, id, frame, p, depth),
        sub.spec_boxes(id, frame, boxes, depth) is Ok,
        spec_boxes_moved(boxes, moved, p),
        depth <= deeper,
    ensures
        m.spec_boxes(id, spec_moved(frame, p), moved, deeper) is Ok,
        ({
            let (b, filled) = sub.spec_boxes(id, frame, boxes, depth)->Ok_0;
            let (b2, filled2) = m.spec_boxes(id, spec_moved(frame, p), moved, deeper)->Ok_0;
            &&& b2 == spec_offset(b, p)
            &&& spec_rect_room(b, p)
            &&& spec_boxes_moved(filled, filled2, p)
        }),
    decreases depth, 1nat, 0nat,
{
    assert(sub.objects.contains_key(id));
    assert(m.objects[id] == sub.objects[id]);
    let inner = sub.objects[id].transform;
    let t = frame.spec_and_then(inner);
    law_moved_and_then(frame, inner, p);
    match sub.objects[id].kind {
        KindView::Model(model) => {
            law_moved_bounds(t, p, model.bounds);
        },
        KindView::Group(c) => {
            lemma_boxes_children_moved(sub, m, c, c.len(), t, p, boxes, moved, depth, deeper);
        },
    }
}

/// The same for the walks from the children of a group: the boxes in
/// `m` are those in `sub`, moved by `p`.
pub proof fn lemma_boxes_children_moved(
    sub: TreeView,
    m: TreeView,
    children: Seq<ObjectId>,
    n: nat,
    frame: Transform,
    p: Point,
    boxes: Map<ObjectId, Rect>,
    moved: Map<ObjectId, Rect>,
    depth: nat,
    deeper: nat,
)
    requires
        spec_keeps(m, sub),
        spec_point_room(frame.position, p),
        spec_walk_room_children(sub, sub.root, children, n, frame, p, depth),
        sub.spec_boxes_children(children, n, frame, boxes, depth) is Ok,
        spec_boxes_moved(boxes, moved, p),
        depth <= deeper,
    ensures
        m.spec_boxes_children(children, n, spec_moved(frame, p), moved, deeper) is Ok,
        ({
            let (b, filled) = sub.spec_boxes_children(children, n, frame, boxes, depth)->Ok_0;
            let (b2, filled2) = m.spec_boxes_children(
                children,
                n,
                spec_moved(frame, p),
                moved,
                deeper,
            )->Ok_0;
            &&& b2 == spec_offset(b, p)
            &&& spec_rect_room(b, p)
            &&& spec_boxes_moved(filled, filled2, p)
        }),
    decreases depth, 0nat, n,
{
    if n > 0 {
        let before = sub.spec_boxes_children(children, (n - 1) as nat, frame, boxes, depth);
        assert(before is Ok);
        lemma_boxes_children_moved(
            sub,
            m,
            children,
            (n - 1) as nat,
            frame,
            p,
            boxes,
            moved,
            depth,
            deeper,
        );
        let (acc, filled) = before->Ok_0;
        let (acc2, filled2) = m.spec_boxes_children(
            children,
            (n - 1) as nat,
            spec_moved(frame, p),
            moved,
            deeper,
        )->Ok_0;
        assert(depth > 0);
        lemma_boxes_moved(
            sub,
            m,
            children[n - 1],
            frame,
            p,
            filled,
            filled2,
            (depth - 1) as nat,
            (deeper - 1) as nat,
        );
        let (b, _) = sub.spec_boxes(children[n - 1], frame, filled, (depth - 1) as nat)->Ok_0;
        law_offset_union(acc, b, p);
    }
}

/// The tree that embeds `sub` holds at least one object more than `sub`.
proof fn lemma_embed_len(main: TreeView, sub: TreeView, new_root: ObjectId, placement: Transform)
    requires
        spec_fits(main, sub, new_root),
        sub.objects.contains_key(sub.root),
        main.objects.dom().finite(),
        sub.objects.dom().finite(),
    ensures
        spec_embed(main, sub, new_root, placement) matches Ok(m) && m.objects.dom().finite()
            && m.objects.len() >= sub.objects.len() + 1,
{
    lemma_embed_keeps(main, sub, new_root, placement);
    let m = spec_embed(main, sub, new_root, placement)->Ok_0;
    let all = main.objects.dom().union(sub.objects.dom()).insert(new_root);
    assert(m.objects.dom().subset_of(all));
    vstd::set_lib::lemma_len_subset(m.objects.dom(), all);
    let part = sub.objects.dom().remove(sub.root).insert(new_root).insert(main.root);
    assert forall|k: ObjectId| part.contains(k) implies m.objects.dom().contains(k) by {
        if k != new_root && k != main.root {
            assert(sub.objects.contains_key(k));
        }
    }
    vstd::set_lib::lemma_len_subset(part, m.objects.dom());
}

/// Embedding moves the bounds. Let `sub` have a root group at the identity
/// placement, and let it be embedded in `main`, whose root is at the
/// identity placement too, by a placement that only moves, by `p`. Where
/// the walk through `sub` has room for `p` and both trees have bounds,
/// every object below the root of `sub` has in the whole the bounds it has
/// in `sub` alone, moved by `p`; and the group that stands for the root of
/// `sub` has the bounds of that root, moved by `p`.
pub proof fn law_merge_bounds(main: TreeView, sub: TreeView, new_root: ObjectId, p: Point, k: ObjectId)
    requires
        spec_fits(main, sub, new_root),
        main.objects.dom().finite(),
        sub.objects.dom().finite(),
        main.objects[main.root].transform == Transform::spec_identity(),
        sub.objects.contains_key(sub.root),
        sub.objects[sub.root].kind is Group,
        sub.objects[sub.root].transform == Transform::spec_identity(),
        spec_point_room(p, Point::spec_zero()),
        spec_walk_room_children(
            sub,
            sub.root,
            sub.spec_rooted(),
            sub.spec_rooted().len(),
            Transform::spec_identity(),
            p,
            sub.objects.len(),
        ),
        sub.spec_bounding_boxes() is Ok,
        spec_embed(main, sub, new_root, spec_shift(p)) matches Ok(m) && m.spec_bounding_boxes() is Ok,
    ensures
        ({
            let alone = sub.spec_bounding_boxes()->Ok_0;
            let whole = spec_embed(main, sub, new_root, spec_shift(p))->Ok_0.spec_bounding_boxes()->Ok_0;
            &&& whole.contains_key(new_root)
            &&& alone.contains_key(sub.root)
            &&& main.root != new_root ==> whole[new_root] == spec_offset(alone[sub.root], p)
            &&& alone.contains_key(k) && k != sub.root && k != new_root && k != main.root
                ==> whole.contains_key(k) && whole[k] == spec_offset(alone[k], p)
        }),
{
    let id = Transform::spec_identity();
    let zero = Point::spec_zero();
    lemma_embed_keeps(main, sub, new_root, spec_shift(p));
    lemma_embed_len(main, sub, new_root, spec_shift(p));
    let m = spec_embed(main, sub, new_root, spec_shift(p))->Ok_0;
    let rooted = sub.spec_rooted();
    // The frames: the identity composed with the identity, and with the shift.
    assert(id == spec_shift(zero));
    law_shift_and_then(id, zero);
    law_shift_and_then(spec_shift(p), zero);
    assert(id.spec_and_then(id) == id);
    assert(id.spec_and_then(spec_shift(p)) == spec_shift(p));
    assert(spec_shift(p) == spec_moved(id, p));
    // The walk through the tree alone.
    let depth = sub.objects.len();
    let inner = sub.spec_boxes_children(rooted, rooted.len(), id, Map::empty(), depth);
    assert(inner is Ok);
    let (acc, filled) = inner->Ok_0;
    assert(sub.spec_bounding_boxes()->Ok_0 == filled.insert(sub.root, acc));
    // The walk through the whole: the children of the root, of which the
    // embedded group is the last.
    let c = main.objects[main.root].kind->Group_0;
    let all = c.push(new_root);
    let top = m.spec_boxes_children(all, all.len(), id, Map::empty(), m.objects.len());
    assert(top is Ok);
    let first = m.spec_boxes_children(all, (all.len() - 1) as nat, id, Map::empty(), m.objects.len());
    assert(first is Ok);
    let (acc_main, filled_main) = first->Ok_0;
    assert(all[all.len() - 1] == new_root);
    let deeper = (m.objects.len() - 1) as nat;
    let group = m.spec_boxes(new_root, id, filled_main, deeper);
    assert(group is Ok);
    lemma_boxes_children_moved(
        sub,
        m,
        rooted,
        rooted.len(),
        id,
        p,
        Map::empty(),
        filled_main,
        depth,
        deeper,
    );
    let (acc2, filled2) = m.spec_boxes_children(
        rooted,
        rooted.len(),
        spec_shift(p),
        filled_main,
        deeper,
    )->Ok_0;
    assert(group->Ok_0 == (acc2, filled2.insert(new_root, acc2)));
    let (b_top, filled_top) = top->Ok_0;
    assert(filled_top == filled2.insert(new_root, acc2));
    assert(m.spec_bounding_boxes()->Ok_0 == filled_top.insert(m.root, b_top));
}

/// A new tree is sound.
pub proof fn law_new_tree_is_sound()
    ensures
        TreeView::spec_new().spec_sound(),
        TreeView::spec_new().spec_painted(),
{
    let rank = |x: ObjectId| 0nat;
    assert(TreeView::spec_new().spec_ranked(rank));
}

/// Adding keeps a tree sound. Let `object` be stored under a name that is
/// new to the tree, let its children be stored already and rank below `r`,
/// and, where it goes under the root, let the root be a group that ranks
/// above `r`. Then the object is added without fault, and rank falls along
/// the tree as before, with the new object at `r`.
pub proof fn law_add_keeps_ranked(
    tree: TreeView,
    rank: spec_fn(ObjectId) -> nat,
    id: ObjectId,
    r: nat,
    object: ObjectView,
    rooted: bool,
)
    requires
        tree.spec_ranked(rank),
        !tree.objects.contains_key(id),
        object.kind matches KindView::Group(c) ==> forall|i: int|
            0 <= i < c.len() ==> tree.objects.contains_key(#[trigger] c[i]) && rank(c[i]) < r,
        rooted ==> tree.objects.contains_key(tree.root) && tree.objects[tree.root].kind is Group
            && r < rank(tree.root),
    ensures
        tree.spec_add(id, object, rooted) matches Ok(t) && t.spec_ranked(
            |x: ObjectId|
                if x == id {
                    r
                } else {
                    rank(x)
                },
        ),
{
    let t = tree.spec_add(id, object, rooted)->Ok_0;
    let ranked = |x: ObjectId|
        if x == id {
            r
        } else {
            rank(x)
        };
    assert forall|g: ObjectId, i: int|
        t.objects.contains_key(g) && t.objects[g].kind is Group && 0 <= i
            < t.objects[g].kind->Group_0.len() implies t.objects.contains_key(
        #[trigger] t.objects[g].kind->Group_0[i],
    ) && ranked(t.objects[g].kind->Group_0[i]) < ranked(g) by {
        let c = t.objects[g].kind->Group_0;
        if g == id {
            assert(c == object.kind->Group_0);
            assert(tree.objects.contains_key(c[i]) && rank(c[i]) < r);
        } else if rooted && g == tree.root {
            let before = tree.objects[tree.root].kind->Group_0;
            assert(c == before.push(id));
            if i < before.len() {
                assert(c[i] == before[i]);
                assert(tree.objects.contains_key(before[i]) && rank(before[i]) < rank(g));
            }
        } else {
            assert(t.objects[g] == tree.objects[g]);
            let before = tree.objects[g].kind->Group_0;
            assert(tree.objects.contains_key(before[i]) && rank(before[i]) < rank(g));
        }
    }
}

/// Adding a model keeps a tree sound, wherever it goes: a model names no
/// children, so it closes no circle.
pub proof fn law_add_model_keeps_sound(tree: TreeView, id: ObjectId, object: ObjectView, rooted: bool)
    requires
        tree.spec_sound(),
        !tree.objects.contains_key(id),
        object.kind is Model,
        rooted ==> tree.objects.contains_key(tree.root) && tree.objects[tree.root].kind is Group,
    ensures
        tree.spec_add(id, object, rooted) matches Ok(t) && t.spec_sound(),
{
    let rank = choose|rank: spec_fn(ObjectId) -> nat| tree.spec_ranked(rank);
    let lifted = |x: ObjectId| (rank(x) + 1) as nat;
    assert(tree.spec_ranked(lifted)) by {
        assert forall|g: ObjectId, i: int|
            tree.objects.contains_key(g) && tree.objects[g].kind is Group && 0 <= i
                < tree.objects[g].kind->Group_0.len() implies tree.objects.contains_key(
            #[trigger] tree.objects[g].kind->Group_0[i],
        ) && lifted(tree.objects[g].kind->Group_0[i]) < lifted(g) by {
            let c = tree.objects[g].kind->Group_0;
            assert(tree.objects.contains_key(c[i]) && rank(c[i]) < rank(g));
        }
    }
    law_add_keeps_ranked(tree, lifted, id, 0, object, rooted);
}

/// Merging keeps trees sound. Let the names of `sub`, but for its root, be
/// new to `main`, let `new_root` be new to both, and let no group of `sub`
/// name the root of `sub`. Then rank falls along the merged tree, if it
/// falls along both: on what came from `sub` as in `sub`, with `new_root`
/// in the place of its root, and on the rest as in `main`.
pub proof fn law_merge_keeps_ranked(
    main: TreeView,
    sub: TreeView,
    new_root: ObjectId,
    main_rank: spec_fn(ObjectId) -> nat,
    sub_rank: spec_fn(ObjectId) -> nat,
)
    requires
        main.spec_ranked(main_rank),
        sub.spec_ranked(sub_rank),
        !main.objects.contains_key(new_root),
        !sub.objects.contains_key(new_root),
        forall|k: ObjectId| #[trigger]
            sub.objects.contains_key(k) && k != sub.root ==> !main.objects.contains_key(k),
        forall|g: ObjectId, i: int|
            sub.objects.contains_key(g) && sub.objects[g].kind is Group && 0 <= i
                < sub.objects[g].kind->Group_0.len() ==> #[trigger] sub.objects[g].kind->Group_0[i]
                != sub.root,
    ensures
        main.spec_merge(sub, new_root).spec_ranked(
            |x: ObjectId|
                if x == new_root {
                    sub_rank(sub.root)
                } else if sub.objects.contains_key(x) && x != sub.root {
                    sub_rank(x)
                } else {
                    main_rank(x)
                },
        ),
{
    let m = main.spec_merge(sub, new_root);
    let ranked = |x: ObjectId|
        if x == new_root {
            sub_rank(sub.root)
        } else if sub.objects.contains_key(x) && x != sub.root {
            sub_rank(x)
        } else {
            main_rank(x)
        };
    assert forall|g: ObjectId, i: int|
        m.objects.contains_key(g) && m.objects[g].kind is Group && 0 <= i
            < m.objects[g].kind->Group_0.len() implies m.objects.contains_key(
        #[trigger] m.objects[g].kind->Group_0[i],
    ) && ranked(m.objects[g].kind->Group_0[i]) < ranked(g) by {
        let c = m.objects[g].kind->Group_0;
        if g == new_root {
            assert(m.objects[g] == sub.objects[sub.root]);
            let before = sub.objects[sub.root].kind->Group_0;
            assert(sub.objects.contains_key(before[i]) && sub_rank(before[i]) < sub_rank(sub.root));
            assert(before[i] != sub.root);
        } else if sub.objects.contains_key(g) && g != sub.root {
            assert(m.objects[g] == sub.objects[g]);
            let before = sub.objects[g].kind->Group_0;
            assert(sub.objects.contains_key(before[i]) && sub_rank(before[i]) < sub_rank(g));
            assert(before[i] != sub.root);
        } else {
            assert(main.objects.contains_key(g));
            assert(m.objects[g] == main.objects[g]);
            let before = main.objects[g].kind->Group_0;
            assert(main.objects.contains_key(before[i]) && main_rank(before[i]) < main_rank(g));
            if sub.objects.contains_key(before[i]) && before[i] != sub.root {
                assert(!main.objects.contains_key(before[i]));
            }
        }
    }
}

/// In a tree along which rank falls, the walk for bounds from a stored
/// object meets no fault, if it may go as deep as the object ranks.
pub proof fn lemma_ranked_boxes(
    tree: TreeView,
    rank: spec_fn(ObjectId) -> nat,
    id: ObjectId,
    frame: Transform,
    boxes: Map<ObjectId, Rect>,
    depth: nat,
)
    requires
        tree.spec_ranked(rank),
        tree.objects.contains_key(id),
        rank(id) <= depth,
    ensures
        tree.spec_boxes(id, frame, boxes, depth) is Ok,
    decreases depth, 1nat, 0nat,
{
    match tree.objects[id].kind {
        KindView::Model(_) => {},
        KindView::Group(c) => {
            lemma_ranked_boxes_children(
                tree,
                rank,
                id,
                c.len(),
                frame.spec_and_then(tree.objects[id].transform), boxes,
                depth,
            );
        },
    }
}

/// The same for the first `n` children of the group stored as `group`.
pub proof fn lemma_ranked_boxes_children(
    tree: TreeView,
    rank: spec_fn(ObjectId) -> nat,
    group: ObjectId,
    n: nat,
    frame: Transform,
    boxes: Map<ObjectId, Rect>,
    depth: nat,
)
    requires
        tree.spec_ranked(rank),
        tree.objects.contains_key(group),
        tree.objects[group].kind is Group,
        n <= tree.objects[group].kind->Group_0.len(),
        rank(group) <= depth,
    ensures
        tree.spec_boxes_children(tree.objects[group].kind->Group_0, n, frame, boxes, depth) is Ok,
    decreases depth, 0nat, n,
{
    let c = tree.objects[group].kind->Group_0;
    if n > 0 {
        lemma_ranked_boxes_children(tree, rank, group, (n - 1) as nat, frame, boxes, depth);
        assert(tree.objects.contains_key(c[n - 1]) && rank(c[n - 1]) < rank(group));
        let filled = tree.spec_boxes_children(c, (n - 1) as nat, frame, boxes, depth)->Ok_0.1;
        lemma_ranked_boxes(tree, rank, c[n - 1], frame, filled, (depth - 1) as nat);
    }
}

/// In a tree along which rank falls, a stored object has bounds, if the
/// walk may go as deep as the object ranks.
pub proof fn lemma_ranked_bounds(
    tree: TreeView,
    rank: spec_fn(ObjectId) -> nat,
    id: ObjectId,
    frame: Transform,
    depth: nat,
)
    requires
        tree.spec_ranked(rank),
        tree.objects.contains_key(id),
        rank(id) <= depth,
    ensures
        tree.spec_bounds(tree.objects[id], frame, depth) is Ok,
    decreases depth, 1nat, 0nat,
{
    match tree.objects[id].kind {
        KindView::Model(_) => {},
        KindView::Group(c) => {
            lemma_ranked_bounds_children(
                tree,
                rank,
                id,
                c.len(),
                frame.spec_and_then(tree.objects[id].transform),
                depth,
            );
        },
    }
}

/// The same for the first `n` children of the group stored as `group`.
pub proof fn lemma_ranked_bounds_children(
    tree: TreeView,
    rank: spec_fn(ObjectId) -> nat,
    group: ObjectId,
    n: nat,
    frame: Transform,
    depth: nat,
)
    requires
        tree.spec_ranked(rank),
        tree.objects.contains_key(group),
        tree.objects[group].kind is Group,
        n <= tree.objects[group].kind->Group_0.len(),
        rank(group) <= depth,
    ensures
        tree.spec_bounds_children(tree.objects[group].kind->Group_0, n, frame, depth) is Ok,
    decreases depth, 0nat, n,
{
    let c = tree.objects[group].kind->Group_0;
    if n > 0 {
        lemma_ranked_bounds_children(tree, rank, group, (n - 1) as nat, frame, depth);
        assert(tree.objects.contains_key(c[n - 1]) && rank(c[n - 1]) < rank(group));
        lemma_ranked_bounds(tree, rank, c[n - 1], frame, (depth - 1) as nat);
    }
}

/// In a tree along which rank falls and in which every model is painted,
/// a stored object can be drawn, if the walk may go as deep as the object
/// ranks.
pub proof fn lemma_ranked_render(
    tree: TreeView,
    rank: spec_fn(ObjectId) -> nat,
    id: ObjectId,
    frame: Transform,
    depth: nat,
)
    requires
        tree.spec_ranked(rank),
        tree.spec_painted(),
        tree.objects.contains_key(id),
        rank(id) <= depth,
    ensures
        tree.spec_render_object(id, frame, depth) is Ok,
    decreases depth, 1nat, 0nat,
{
    match tree.objects[id].kind {
        KindView::Model(_) => {},
        KindView::Group(c) => {
            lemma_ranked_render_children(
                tree,
                rank,
                id,
                c.len(),
                frame.spec_and_then(tree.objects[id].transform),
                depth,
            );
        },
    }
}

/// The same for the first `n` children of the group stored as `group`.
pub proof fn lemma_ranked_render_children(
    tree: TreeView,
    rank: spec_fn(ObjectId) -> nat,
    group: ObjectId,
    n: nat,
    frame: Transform,
    depth: nat,
)
    requires
        tree.spec_ranked(rank),
        tree.spec_painted(),
        tree.objects.contains_key(group),
        tree.objects[group].kind is Group,
        n <= tree.objects[group].kind->Group_0.len(),
        rank(group) <= depth,
    ensures
        tree.spec_render_children(tree.objects[group].kind->Group_0, n, frame, depth) is Ok,
    decreases depth, 0nat, n,
{
    let c = tree.objects[group].kind->Group_0;
    if n > 0 {
        lemma_ranked_render_children(tree, rank, group, (n - 1) as nat, frame, depth);
        assert(tree.objects.contains_key(c[n - 1]) && rank(c[n - 1]) < rank(group));
        lemma_ranked_render(tree, rank, c[n - 1], frame, (depth - 1) as nat);
    }
}

/// A sound tree can be asked. Where rank falls along a tree, from a root
/// that is stored and ranks no higher than the tree has objects, the tree
/// has bounds; where every model is painted as well, it can be drawn.
pub proof fn law_ranked_tree_has_no_fault(tree: TreeView, rank: spec_fn(ObjectId) -> nat)
    requires
        tree.spec_ranked(rank),
        tree.objects.contains_key(tree.root),
        rank(tree.root) <= tree.objects.len(),
    ensures
        tree.spec_bounding_boxes() is Ok,
        tree.spec_local_bounding_box(tree.root) is Ok,
        tree.spec_painted() ==> tree.spec_render() is Ok,
{
    let depth = tree.objects.len();
    lemma_ranked_boxes(tree, rank, tree.root, Transform::spec_identity(), Map::empty(), depth);
    lemma_ranked_bounds(tree, rank, tree.root, Transform::spec_identity(), depth);
    if tree.spec_painted() {
        lemma_ranked_render(tree, rank, tree.root, Transform::spec_identity(), depth);
    }
}

/// The tree `t` has the shape of `tree` without the objects `removed`: it
/// stores the same names but those, groups with the same children, and
/// models where `tree` has models.
pub open spec fn spec_shaped_like(t: TreeView, tree: TreeView, removed: Set<ObjectId>) -> bool {
    &&& forall|k: ObjectId|
        #![trigger t.objects.contains_key(k)]
        t.objects.contains_key(k) <==> tree.objects.contains_key(k) && !removed.contains(k)
    &&& forall|k: ObjectId|
        #![trigger t.objects[k]]
        t.objects.contains_key(k) ==> match t.objects[k].kind {
            KindView::Group(c) => tree.objects[k].kind == KindView::Group(c),
            KindView::Model(_) => tree.objects[k].kind is Model,
        }
}

/// In a tree along which rank falls, an object and all below it can be
/// faded, if the walk may go as deep as the object ranks. While the walk is
/// under way the objects above are taken out of the tree; they rank higher
/// than all that is still to come, so none of them is missed.
pub proof fn lemma_ranked_fade(
    tree: TreeView,
    rank: spec_fn(ObjectId) -> nat,
    t: TreeView,
    removed: Set<ObjectId>,
    a: Alpha,
    id: ObjectId,
    depth: nat,
)
    requires
        tree.spec_ranked(rank),
        spec_shaped_like(t, tree, removed),
        forall|k: ObjectId| removed.contains(k) ==> rank(k) > rank(id),
        t.objects.contains_key(id),
        rank(id) <= depth,
    ensures
        spec_fade(t, a, id, depth) matches Ok(r) && spec_shaped_like(r, tree, removed),
    decreases depth, 1nat, 0nat,
{
    let rest = t.spec_remove(id);
    match t.objects[id].kind {
        KindView::Model(m) => {
            let r = spec_fade(t, a, id, depth)->Ok_0;
            assert(spec_shaped_like(r, tree, removed));
        },
        KindView::Group(c) => {
            let gone = removed.insert(id);
            assert(spec_shaped_like(rest, tree, gone));
            assert(tree.objects[id].kind == KindView::Group(c));
            lemma_ranked_fade_children(tree, rank, rest, gone, a, id, c.len(), depth);
            let faded = spec_fade_children(rest, a, c, c.len(), depth)->Ok_0;
            let r = faded.spec_add(id, t.objects[id], false)->Ok_0;
            assert(spec_shaped_like(r, tree, removed));
        },
    }
}

/// The same for the first `n` children of the group that `tree` stores as
/// `group`.
pub proof fn lemma_ranked_fade_children(
    tree: TreeView,
    rank: spec_fn(ObjectId) -> nat,
    t: TreeView,
    removed: Set<ObjectId>,
    a: Alpha,
    group: ObjectId,
    n: nat,
    depth: nat,
)
    requires
        tree.spec_ranked(rank),
        spec_shaped_like(t, tree, removed),
        forall|k: ObjectId| removed.contains(k) ==> rank(k) >= rank(group),
        tree.objects.contains_key(group),
        tree.objects[group].kind is Group,
        n <= tree.objects[group].kind->Group_0.len(),
        rank(group) <= depth,
    ensures
        spec_fade_children(t, a, tree.objects[group].kind->Group_0, n, depth) matches Ok(r)
            && spec_shaped_like(r, tree, removed),
    decreases depth, 0nat, n,
{
    let c = tree.objects[group].kind->Group_0;
    if n > 0 {
        lemma_ranked_fade_children(tree, rank, t, removed, a, group, (n - 1) as nat, depth);
        let before = spec_fade_children(t, a, c, (n - 1) as nat, depth)->Ok_0;
        assert(tree.objects.contains_key(c[n - 1]) && rank(c[n - 1]) < rank(group));
        assert(before.objects.contains_key(c[n - 1]));
        lemma_ranked_fade(tree, rank, before, removed, a, c[n - 1], (depth - 1) as nat);
    }
}

/// In a sound tree everything that is stored can be faded.
pub proof fn law_ranked_tree_fades(tree: TreeView, rank: spec_fn(ObjectId) -> nat, a: Alpha, id: ObjectId)
    requires
        tree.spec_ranked(rank),
        tree.objects.contains_key(id),
        rank(id) <= tree.objects.len(),
    ensures
        spec_fade(tree, a, id, tree.objects.len()) is Ok,
{
    assert(spec_shaped_like(tree, tree, Set::empty()));
    lemma_ranked_fade(tree, rank, tree, Set::empty(), a, id, tree.objects.len());
}

} // verus!
