use enimate::alpha::{lerp, Alpha};

#[test]
fn ratio_clamps_to_the_window() {
    assert_eq!(Alpha::ratio(3, 10), Alpha { num: 3, den: 10 });
    assert_eq!(Alpha::ratio(30, 10), Alpha { num: 10, den: 10 });
    assert_eq!(Alpha::ratio(3, 0), Alpha { num: 1, den: 1 });
}

#[test]
fn lerp_rounds_down() {
    assert_eq!(lerp(0, 10, Alpha { num: 1, den: 2 }), 5);
    assert_eq!(lerp(0, 10, Alpha { num: 1, den: 3 }), 3);
    assert_eq!(lerp(0, -10, Alpha { num: 1, den: 3 }), -4);
    assert_eq!(lerp(7, 7, Alpha { num: 1, den: 3 }), 7);
}
