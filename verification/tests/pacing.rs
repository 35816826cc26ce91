use ave::pacing::{Action, FrameClock, Pace, FRAME_NANOS};

#[test]
fn time_step_is_a_sixtieth_of_a_second() {
    assert_eq!(FRAME_NANOS, 16_666_667);
}

#[test]
fn new_clock_has_nothing_pending() {
    assert_eq!(FrameClock::new().accumulated(), 0);
}

#[test]
fn stop_ends_the_loop_and_keeps_the_clock() {
    let mut clock = FrameClock::new();
    clock.tick(Action::Continue, 5);
    assert_eq!(clock.tick(Action::Stop, 1_000_000_000), None);
    assert_eq!(clock.accumulated(), 5);
}

#[test]
fn short_pass_sleeps_for_the_rest_of_the_step() {
    let mut clock = FrameClock::new();
    let pace = clock.tick(Action::Continue, 1_000_000).unwrap();
    assert_eq!(pace, Pace { updates: 0, sleep: 15_666_667 });
    assert_eq!(clock.accumulated(), 1_000_000);
}

#[test]
fn pass_of_no_time_sleeps_a_whole_step() {
    let mut clock = FrameClock::new();
    assert_eq!(clock.tick(Action::Continue, 0), Some(Pace { updates: 0, sleep: 16_666_667 }));
}

#[test]
fn pass_of_exactly_one_step_is_one_update() {
    let mut clock = FrameClock::new();
    let pace = clock.tick(Action::Continue, 16_666_667).unwrap();
    assert_eq!(pace, Pace { updates: 1, sleep: 16_666_667 });
    assert_eq!(clock.accumulated(), 0);
}

#[test]
fn long_pass_is_several_updates() {
    let mut clock = FrameClock::new();
    let pace = clock.tick(Action::Continue, 50_000_000).unwrap();
    // 50000000 = 2 * 16666667 + 16666666
    assert_eq!(pace, Pace { updates: 2, sleep: 1 });
    assert_eq!(clock.accumulated(), 16_666_666);
}

#[test]
fn pending_time_carries_over() {
    let mut clock = FrameClock::new();
    clock.tick(Action::Continue, 10_000_000);
    let pace = clock.tick(Action::Continue, 10_000_000).unwrap();
    assert_eq!(pace, Pace { updates: 1, sleep: 16_666_667 - 3_333_333 });
    assert_eq!(clock.accumulated(), 3_333_333);
}

#[test]
fn longest_pass_does_not_overflow() {
    let mut clock = FrameClock::new();
    clock.tick(Action::Continue, 16_666_666);
    let pace = clock.tick(Action::Continue, u64::MAX).unwrap();
    let total = 16_666_666u128 + u64::MAX as u128;
    assert_eq!(pace.updates as u128, total / 16_666_667);
    assert_eq!(clock.accumulated() as u128, total % 16_666_667);
    assert_eq!(pace.sleep, 16_666_667 - clock.accumulated());
}
