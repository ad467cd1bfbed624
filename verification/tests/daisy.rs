use nudge::daisy::{frame_at, PETAL_COUNT};
use nudge::span::Span;

fn dur_120s() -> Span {
    Span::from_secs(120)
}

fn plus(a: Span, b: Span) -> Span {
    a.add(&b)
}

#[test]
fn mid_interval_steady_state_has_no_drift() {
    let f = frame_at(dur_120s(), Span::from_secs(35));
    assert_eq!(f.petals_remaining, 9);
    assert!(f.drift.is_none(), "5 s after a drop is past the drift window");
    assert!(!f.should_fire);
    assert_eq!(f.petal_duration, Span::from_secs(10));
    assert_eq!(f.time_since_drop, Span::from_secs(5));
}

#[test]
fn just_after_petal_drops_has_drift_near_zero() {
    let f = frame_at(dur_120s(), Span::from_secs(30));
    assert_eq!(f.petals_remaining, 9);
    let d = f.drift.expect("a petal just dropped -> drift present");
    assert_eq!(d.petal_index, 2);
    assert_eq!(d.elapsed, Span::zero(), "progress is 0 at the instant of drop");
    assert_eq!(f.time_since_drop, Span::zero());
    assert!(!f.should_fire);
}

#[test]
fn fires_only_after_final_drift_completes() {
    let just_before = frame_at(dur_120s(), plus(dur_120s(), Span::from_millis(200)));
    assert!(!just_before.should_fire, "200 ms past expiry < 250 ms drift");
    let just_after = frame_at(dur_120s(), plus(dur_120s(), Span::from_millis(300)));
    assert!(just_after.should_fire, "300 ms past expiry >= 250 ms drift");
    assert_eq!(just_after.petals_remaining, 0);
    let exact = frame_at(dur_120s(), plus(dur_120s(), Span::from_millis(250)));
    assert!(exact.should_fire);
}

#[test]
fn short_interval_clamps_drift_before_next_petal() {
    let dur = Span::from_millis(1200);
    let inside = frame_at(dur, Span::from_millis(120));
    assert_eq!(inside.petals_remaining, 11);
    let d = inside.drift.expect("20 ms after a drop is inside drift");
    assert_eq!(d.petal_index, 0);
    let after = frame_at(dur, Span::from_millis(160));
    assert_eq!(after.petals_remaining, 11);
    assert!(after.drift.is_none(), "drift must clamp shut before the next petal drops");
    assert_eq!(after.petal_duration, Span::from_millis(100));
}

// ---- further cases -------------------------------------------

#[test]
fn start_of_interval_has_all_petals() {
    let f = frame_at(dur_120s(), Span::zero());
    assert_eq!(f.petals_remaining, PETAL_COUNT);
    assert!(f.drift.is_none());
    assert!(!f.should_fire);
}

#[test]
fn drift_reports_its_length_and_progress() {
    let f = frame_at(dur_120s(), Span::from_millis(10_100));
    let d = f.drift.unwrap();
    assert_eq!(d.petal_index, 0);
    assert_eq!(d.elapsed, Span::from_millis(100));
    assert_eq!(d.length, Span::from_millis(250));
}

#[test]
fn last_petal_drifts_at_expiry_and_count_caps() {
    let f = frame_at(dur_120s(), dur_120s());
    assert_eq!(f.petals_remaining, 0);
    assert_eq!(f.drift.unwrap().petal_index, 11);
    let late = frame_at(dur_120s(), Span::from_secs(10_000));
    assert_eq!(late.petals_remaining, 0);
    assert!(late.drift.is_none());
    assert!(late.should_fire);
}

#[test]
fn petals_only_fall() {
    let mut last = PETAL_COUNT;
    for s in 0..200u64 {
        let f = frame_at(dur_120s(), Span::from_millis(s * 700));
        assert!(f.petals_remaining <= last);
        last = f.petals_remaining;
    }
}
