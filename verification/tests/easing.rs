use enimate::alpha::Alpha;
use enimate::easing::{Easing, EASED_DEN};

fn a(num: u32, den: u32) -> Alpha {
    Alpha { num, den }
}

#[test]
fn linear_easing_is_the_identity() {
    assert_eq!(Easing::Linear.apply(a(3, 10)), a(3, 10));
    assert_eq!(Easing::default(), Easing::Linear);
}

#[test]
fn ease_in_squares() {
    assert_eq!(Easing::EaseIn.apply(a(5, 10)), a(250_000_000, EASED_DEN));
    assert_eq!(Easing::EaseIn.apply(a(500, 1000)), a(250_000_000, EASED_DEN));
    assert_eq!(Easing::EaseIn.apply(a(1, 2)), a(250_000_000, EASED_DEN));
}

#[test]
fn ease_out_is_t_times_two_minus_t() {
    assert_eq!(Easing::EaseOut.apply(a(500, 1000)), a(750_000_000, EASED_DEN));
    assert_eq!(Easing::EaseOut.apply(a(1, 2)), a(750_000_000, EASED_DEN));
}

#[test]
fn ease_in_out_has_two_halves() {
    assert_eq!(Easing::EaseInOut.apply(a(250, 1000)), a(125_000_000, EASED_DEN));
    assert_eq!(Easing::EaseInOut.apply(a(500, 1000)), a(500_000_000, EASED_DEN));
    assert_eq!(Easing::EaseInOut.apply(a(750, 1000)), a(875_000_000, EASED_DEN));
    // Just before the half the first branch, at the half the second.
    assert_eq!(Easing::EaseInOut.apply(a(499, 1000)), a(498_002_000, EASED_DEN));
}

#[test]
fn every_curve_keeps_the_ends() {
    for e in [Easing::Linear, Easing::EaseIn, Easing::EaseOut, Easing::EaseInOut] {
        assert_eq!(e.apply(a(0, 7)).num, 0);
        assert!(e.apply(a(7, 7)).at_end());
        assert!(e.apply(Alpha::full()).at_end());
    }
    assert_eq!(Easing::Linear.apply(a(1, 3)), a(1, 3));
    assert_eq!(Easing::EaseIn.apply(a(7, 7)), a(EASED_DEN, EASED_DEN));
}

#[test]
fn later_progress_is_never_bent_to_an_earlier_result() {
    // 30/100 comes before 1/3, whatever the denominators.
    assert_eq!(Easing::EaseIn.apply(a(30, 100)), a(90_000_000, EASED_DEN));
    assert_eq!(Easing::EaseIn.apply(a(1, 3)), a(111_111_111, EASED_DEN));
    assert_eq!(Easing::EaseOut.apply(a(30, 100)), a(510_000_000, EASED_DEN));
    assert_eq!(Easing::EaseOut.apply(a(1, 3)), a(555_555_555, EASED_DEN));
    assert_eq!(Easing::EaseInOut.apply(a(30, 100)), a(180_000_000, EASED_DEN));
    assert_eq!(Easing::EaseInOut.apply(a(1, 3)), a(222_222_222, EASED_DEN));
    let steps = [a(0, 1), a(1, 7), a(2, 13), a(30, 100), a(1, 3), a(499, 1000), a(1, 2), a(2, 3), a(99, 100), a(1, 1)];
    for e in [Easing::EaseIn, Easing::EaseOut, Easing::EaseInOut] {
        let mut last = 0;
        for t in steps {
            let r = e.apply(t);
            assert_eq!(r.den, EASED_DEN);
            assert!(r.num >= last);
            last = r.num;
        }
    }
}
