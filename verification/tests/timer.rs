use nudge::span::Span;
use nudge::timer::Timer;

#[test]
fn new_timer_is_not_expired() {
    let timer = Timer::new(Span::from_secs(60));
    assert!(!timer.is_expired());
}

#[test]
fn frozen_timer_is_never_expired() {
    let timer = Timer::frozen();
    assert!(!timer.is_expired());
}

// ---- the same rules on explicit instants --------

#[test]
fn timer_expires_at_its_deadline() {
    let timer = Timer::new(Span::from_millis(10));
    assert!(!timer.is_expired_at(Span::from_millis(9)));
    assert!(timer.is_expired_at(Span::from_millis(10)));
    assert!(timer.is_expired_at(Span::from_millis(20)));
}

#[test]
fn reset_extends_deadline_from_now() {
    let mut timer = Timer::new(Span::from_millis(10));
    assert!(timer.is_expired_at(Span::from_millis(20)));
    timer.reset_at(Span::from_millis(20), Span::from_secs(60));
    assert!(!timer.is_expired_at(Span::from_millis(20)));
    assert_eq!(timer.remaining_at(Span::from_millis(20)), Span::from_secs(60));
}

#[test]
fn remaining_decreases_and_stops_at_zero() {
    let timer = Timer::new(Span::from_secs(10));
    let r1 = timer.remaining_at(Span::from_millis(100));
    let r2 = timer.remaining_at(Span::from_millis(150));
    assert!(r2.lt(&r1));
    assert_eq!(timer.remaining_at(Span::from_secs(11)), Span::zero());
}

#[test]
fn frozen_timer_has_nothing_left_and_reset_unfreezes() {
    let mut timer = Timer::frozen();
    assert!(!timer.is_expired_at(Span::from_secs(1_000_000)));
    assert_eq!(timer.remaining_at(Span::from_secs(5)), Span::zero());
    timer.reset_at(Span::from_secs(5), Span::from_millis(10));
    assert!(timer.is_expired_at(Span::new(5, 10_000_000)));
}

#[test]
fn reset_by_the_clock_starts_a_fresh_countdown() {
    let mut timer = Timer::frozen();
    assert!(timer.reset(Span::from_secs(60)));
    assert!(!timer.is_expired());
    let left = timer.remaining();
    assert!(left.le(&Span::from_secs(60)));
    assert!(Span::from_secs(59).lt(&left));
}
