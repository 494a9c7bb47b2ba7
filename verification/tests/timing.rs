use enimate::alpha::Alpha;
use enimate::timing::{
    concurrent_alpha, fires, longest_of, remap, sequence_alpha, total_of, Window,
};

fn a(num: u32, den: u32) -> Alpha {
    Alpha { num, den }
}

#[test]
fn totals_and_longest() {
    let items = vec![(0usize, 100u32), (1, 0), (2, 400)];
    assert_eq!(total_of(&items), 500);
    assert_eq!(longest_of(&items), 400);
    assert_eq!(total_of(&vec![]), 0);
    assert_eq!(longest_of(&vec![]), 0);
}

#[test]
fn sequence_children_begin_and_end_on_time() {
    // Durations 100, 300, 100; the second child runs from 100 to 400.
    let total = 500u128;
    assert_eq!(sequence_alpha(a(99, 500), total, 100, 300), None);
    assert_eq!(sequence_alpha(a(100, 500), total, 100, 300), Some(a(0, 300)));
    assert_eq!(sequence_alpha(a(399, 500), total, 100, 300), Some(a(299, 300)));
    assert_eq!(sequence_alpha(a(400, 500), total, 100, 300), Some(Alpha::full()));
    assert_eq!(sequence_alpha(a(500, 500), total, 100, 300), Some(Alpha::full()));
}

#[test]
fn instant_children_are_complete_at_once() {
    assert_eq!(sequence_alpha(a(0, 500), 500, 0, 0), Some(Alpha::full()));
    assert_eq!(sequence_alpha(a(0, 1), 0, 0, 0), Some(Alpha::full()));
    assert_eq!(sequence_alpha(a(99, 500), 500, 100, 0), None);
}

#[test]
fn sequence_progress_rounds_down_to_the_childs_tick() {
    // A third of the way through a sequence of 10 ticks: tick 3.
    assert_eq!(sequence_alpha(a(1, 3), 10, 0, 5), Some(a(3, 5)));
}

#[test]
fn concurrent_children_end_on_their_own() {
    assert_eq!(concurrent_alpha(a(100, 400), 400, 200), a(100, 200));
    assert_eq!(concurrent_alpha(a(200, 400), 400, 200), Alpha::full());
    assert_eq!(concurrent_alpha(a(300, 400), 400, 200), Alpha::full());
    assert_eq!(concurrent_alpha(a(300, 400), 400, 400), a(300, 400));
    assert_eq!(concurrent_alpha(a(0, 400), 400, 0), Alpha::full());
}

#[test]
fn triggers_fire_from_their_time_on() {
    let time = a(2, 5);
    assert!(!fires(time, a(399, 1000)));
    assert!(fires(time, a(400, 1000)));
    assert!(fires(time, a(1000, 1000)));
}

#[test]
fn a_keyframe_waits_runs_and_holds() {
    let from = Window::new(2000, 3000, 5000);
    let to = Window::whole(1000);
    assert_eq!(remap(from, to, a(1999, 5000)), None);
    assert_eq!(remap(from, to, a(2000, 5000)), Some(a(0, 1000)));
    assert_eq!(remap(from, to, a(2500, 5000)), Some(a(500, 1000)));
    assert_eq!(remap(from, to, a(3000, 5000)), Some(a(1000, 1000)));
    assert_eq!(remap(from, to, a(5000, 5000)), Some(a(1000, 1000)));
}

#[test]
fn keyframe_maps_into_a_part_of_the_target() {
    let from = Window::new(0, 10, 10);
    let to = Window::new(50, 100, 100);
    assert_eq!(remap(from, to, a(0, 10)), Some(a(50, 100)));
    assert_eq!(remap(from, to, a(5, 10)), Some(a(75, 100)));
    assert_eq!(remap(from, to, a(10, 10)), Some(a(100, 100)));
}

#[test]
fn a_window_without_width_is_over_at_once() {
    let from = Window::new(4, 4, 10);
    let to = Window::whole(7);
    assert_eq!(remap(from, to, a(3, 10)), None);
    assert_eq!(remap(from, to, a(4, 10)), Some(a(7, 7)));
}
