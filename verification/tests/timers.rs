use loose_cannon::timer::{Timer, TimerMode};

#[test]
fn new_timer_has_not_run() {
    let t = Timer::new(500, TimerMode::Once);
    assert_eq!(t.elapsed(), 0);
    assert_eq!(t.duration(), 500);
    assert_eq!(t.mode(), TimerMode::Once);
    assert!(!t.finished());
    assert!(!t.just_finished());
    assert_eq!(t.times_finished_this_tick(), 0);
}

#[test]
fn once_timer_stops_at_its_duration() {
    let mut t = Timer::new(500, TimerMode::Once);
    t.tick(200);
    assert_eq!(t.elapsed(), 200);
    assert!(!t.finished());
    t.tick(400);
    assert_eq!(t.elapsed(), 500);
    assert!(t.finished());
    assert!(t.just_finished());
    assert_eq!(t.times_finished_this_tick(), 1);
}

#[test]
fn once_timer_finishes_exactly_at_its_duration() {
    let mut t = Timer::new(500, TimerMode::Once);
    t.tick(499);
    assert!(!t.finished());
    t.tick(1);
    assert!(t.finished());
}

#[test]
fn once_timer_stays_finished_until_reset() {
    let mut t = Timer::new(500, TimerMode::Once);
    t.tick(600);
    t.tick(100);
    assert!(t.finished());
    assert!(!t.just_finished());
    assert_eq!(t.times_finished_this_tick(), 0);
    assert_eq!(t.elapsed(), 500);
    t.reset();
    assert_eq!(t, Timer::new(500, TimerMode::Once));
}

#[test]
fn repeating_timer_carries_the_remainder() {
    let mut t = Timer::new(5_000, TimerMode::Repeating);
    t.tick(12_000);
    assert!(t.finished());
    assert_eq!(t.times_finished_this_tick(), 2);
    assert_eq!(t.elapsed(), 2_000);
    t.tick(1_000);
    assert!(!t.finished());
    assert_eq!(t.times_finished_this_tick(), 0);
    assert_eq!(t.elapsed(), 3_000);
    t.tick(2_000);
    assert!(t.finished());
    assert_eq!(t.times_finished_this_tick(), 1);
    assert_eq!(t.elapsed(), 0);
}

#[test]
fn repeating_timer_with_no_duration_fires_without_end() {
    let mut t = Timer::new(0, TimerMode::Repeating);
    t.tick(0);
    assert!(t.finished());
    assert_eq!(t.times_finished_this_tick(), u32::MAX);
    assert_eq!(t.elapsed(), 0);
}

#[test]
fn once_timer_with_no_duration_finishes_at_the_first_tick() {
    let mut t = Timer::new(0, TimerMode::Once);
    assert!(!t.finished());
    t.tick(0);
    assert!(t.finished());
    assert_eq!(t.times_finished_this_tick(), 1);
}

#[test]
fn ticks_of_any_length_do_not_overflow() {
    let mut t = Timer::new(10, TimerMode::Repeating);
    t.tick(7);
    t.tick(u64::MAX);
    assert!(t.finished());
    assert_eq!(t.times_finished_this_tick(), 2_576_980_378);
    assert_eq!(t.elapsed(), 2);
    let mut o = Timer::new(u64::MAX, TimerMode::Once);
    o.tick(u64::MAX - 1);
    assert!(!o.finished());
    o.tick(u64::MAX);
    assert!(o.finished());
    assert_eq!(o.elapsed(), u64::MAX);
    let mut r = Timer::new(u64::MAX, TimerMode::Repeating);
    r.tick(u64::MAX - 1);
    r.tick(u64::MAX);
    assert_eq!(r.times_finished_this_tick(), 1);
    assert_eq!(r.elapsed(), u64::MAX - 1);
}

#[test]
fn count_of_a_tick_keeps_its_lowest_32_bits() {
    let mut t = Timer::new(1, TimerMode::Repeating);
    t.tick(4_294_967_295);
    assert_eq!(t.times_finished_this_tick(), u32::MAX);
    t.tick(4_294_967_296);
    assert!(t.finished());
    assert_eq!(t.times_finished_this_tick(), 0);
    t.tick(4_294_967_299);
    assert_eq!(t.times_finished_this_tick(), 3);
    assert_eq!(t.elapsed(), 0);
}

#[test]
fn reset_of_a_repeating_timer() {
    let mut t = Timer::new(5_000, TimerMode::Repeating);
    t.tick(7_000);
    t.reset();
    assert_eq!(t, Timer::new(5_000, TimerMode::Repeating));
}
