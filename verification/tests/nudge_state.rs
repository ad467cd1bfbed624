use nudge::number::FloatBits;
use nudge::nudge_state::{
    decide_close, displayed_minutes, parse_interval, repaint_interval, tooltip_for_remaining,
    window_position, Action, CloseOutcome, IntervalError, TriggerSource, TRAY_MENU_LABELS,
};
use nudge::span::Span;
use std::time::Duration;

/// The minutes field read as a double, as the popup reads it.
fn number(text: &str) -> Option<FloatBits> {
    text.trim().parse::<f64>().ok().map(|f| FloatBits(f.to_bits()))
}

/// A number of minutes as the timer's duration.
fn minutes(b: FloatBits) -> Duration {
    Duration::from_secs_f64(f64::from_bits(b.0) * 60.0)
}

fn close(
    source: TriggerSource,
    action: Action,
    doing: &str,
    bullshit: &str,
    text: &str,
) -> Result<CloseOutcome, IntervalError> {
    decide_close(source, action, doing, bullshit, text, number(text))
}

fn reset(o: &CloseOutcome) -> Option<Duration> {
    o.reset_timer.map(minutes)
}

fn interval(text: &str) -> Result<Duration, IntervalError> {
    parse_interval(text, number(text)).map(minutes)
}

fn five_min() -> Duration {
    Duration::from_secs(5 * 60)
}

#[test]
fn timer_submit_with_content_writes_resets_clears() {
    let o = close(TriggerSource::Timer, Action::Submit, "doing", "", "5").unwrap();
    assert!(o.write_journal);
    assert_eq!(reset(&o), Some(five_min()));
    assert!(o.clear_form);
}

#[test]
fn timer_dismiss_resets_but_writes_nothing_and_keeps_form() {
    let o = close(TriggerSource::Timer, Action::Dismiss, "doing", "x", "5").unwrap();
    assert_eq!(reset(&o), Some(five_min()), "timer-fired Esc must reset");
    assert!(!o.write_journal);
    assert!(!o.clear_form);
}

#[test]
fn timer_switch_away_also_resets() {
    let o = close(TriggerSource::Timer, Action::SwitchAway, "", "", "5").unwrap();
    assert_eq!(reset(&o), Some(five_min()));
    assert!(!o.write_journal);
    assert!(!o.clear_form);
}

#[test]
fn manual_dismiss_leaves_timer_alone() {
    let o = close(TriggerSource::Manual, Action::Dismiss, "doing", "x", "5").unwrap();
    assert_eq!(reset(&o), None, "manual Esc must not reschedule");
    assert!(!o.write_journal);
    assert!(!o.clear_form);
}

#[test]
fn manual_switch_away_leaves_timer_alone() {
    let o = close(TriggerSource::Manual, Action::SwitchAway, "doing", "", "5").unwrap();
    assert_eq!(reset(&o), None);
    assert!(!o.write_journal);
    assert!(!o.clear_form);
}

#[test]
fn manual_submit_resets_even_though_manual() {
    let o = close(TriggerSource::Manual, Action::Submit, "doing", "", "5").unwrap();
    assert_eq!(reset(&o), Some(five_min()));
    assert!(o.write_journal);
    assert!(o.clear_form);
}

#[test]
fn submit_with_empty_fields_is_change_interval_without_journaling() {
    for (doing, bullshit) in [("", ""), ("   ", "\t\n")] {
        let o = close(TriggerSource::Manual, Action::Submit, doing, bullshit, "5").unwrap();
        assert!(!o.write_journal, "empty Submit must not write");
        assert_eq!(reset(&o), Some(five_min()), "but it still resets");
        assert!(o.clear_form);
    }
}

#[test]
fn submit_writes_when_either_field_nonempty() {
    for (doing, bullshit) in [("x", ""), ("", "y"), ("x", "y")] {
        let o = close(TriggerSource::Manual, Action::Submit, doing, bullshit, "5").unwrap();
        assert!(o.write_journal, "Submit with content must write");
    }
}

#[test]
fn submit_with_invalid_interval_is_a_validation_error() {
    for bad in ["0", "-5", "NaN"] {
        let err = close(TriggerSource::Manual, Action::Submit, "doing", "", bad).unwrap_err();
        assert_eq!(err.input, bad);
    }
}

#[test]
fn dismiss_with_invalid_interval_falls_back_and_still_closes() {
    let o = close(TriggerSource::Timer, Action::Dismiss, "doing", "", "-5").unwrap();
    assert_eq!(reset(&o), Some(Duration::from_secs(10 * 60)));
    assert!(!o.write_journal);
}

#[test]
fn manual_dismiss_with_invalid_interval_does_not_reset() {
    let o = close(TriggerSource::Manual, Action::Dismiss, "doing", "", "garbage").unwrap();
    assert_eq!(reset(&o), None);
}

#[test]
fn parse_interval_valid() {
    assert_eq!(interval("15").unwrap(), Duration::from_secs(15 * 60));
}

#[test]
fn parse_interval_gibberish_defaults_to_10() {
    assert_eq!(interval("abc").unwrap(), Duration::from_secs(10 * 60));
}

#[test]
fn parse_interval_empty_defaults_to_10() {
    assert_eq!(interval("").unwrap(), Duration::from_secs(10 * 60));
    assert_eq!(interval("   ").unwrap(), Duration::from_secs(10 * 60));
}

#[test]
fn parse_interval_whitespace() {
    assert_eq!(interval("  5  ").unwrap(), Duration::from_secs(5 * 60));
}

#[test]
fn parse_interval_zero_is_error() {
    assert!(interval("0").is_err());
}

#[test]
fn parse_interval_float() {
    assert_eq!(interval("0.1").unwrap(), Duration::from_secs(6));
}

#[test]
fn parse_interval_negative_is_error() {
    assert!(interval("-5").is_err());
    let err = interval("-5").unwrap_err();
    assert_eq!(err.input, "-5");
}

#[test]
fn parse_interval_nan_is_error() {
    assert!(interval("NaN").is_err());
}

#[test]
fn tooltip_rounds_up_to_next_minute() {
    assert_eq!(tooltip_for_remaining(Span::from_secs(30)), "~1 min");
    assert_eq!(tooltip_for_remaining(Span::from_secs(60)), "~1 min");
    assert_eq!(tooltip_for_remaining(Span::from_secs(61)), "~2 min");
    assert_eq!(tooltip_for_remaining(Span::from_secs(9 * 60)), "~9 min");
    assert_eq!(tooltip_for_remaining(Span::from_secs(9 * 60 + 1)), "~10 min");
    assert_eq!(tooltip_for_remaining(Span::from_secs(30 * 60)), "~30 min");
}

#[test]
fn tooltip_zero_remaining_says_now() {
    assert_eq!(tooltip_for_remaining(Span::from_secs(0)), "now");
}

#[test]
fn displayed_minutes_matches_tooltip_count() {
    assert_eq!(displayed_minutes(Span::from_secs(0)), 0);
    assert_eq!(displayed_minutes(Span::from_secs(1)), 1);
    assert_eq!(displayed_minutes(Span::from_secs(60)), 1);
    assert_eq!(displayed_minutes(Span::from_secs(61)), 2);
    assert_eq!(displayed_minutes(Span::from_secs(30 * 60)), 30);
}

#[test]
fn tray_menu_labels_match_spec() {
    assert_eq!(TRAY_MENU_LABELS, ["Show Nudge", "Settings", "Quit"]);
}

#[test]
fn repaint_interval_visible_ticks_every_second() {
    assert_eq!(repaint_interval(true), Some(Span::from_secs(1)));
}

#[test]
fn repaint_interval_hidden_is_none() {
    assert_eq!(repaint_interval(false), None);
}

#[test]
fn window_position_top_at_25pct_full_hd() {
    assert_eq!(window_position((1920, 1080), (520, 320)), (700, 270));
}

#[test]
fn window_position_top_at_25pct_small_screen() {
    assert_eq!(window_position((1366, 768), (480, 280)), (443, 192));
}

// ---- further cases -------------------------------------------

#[test]
fn interval_error_message_names_the_input() {
    let err = close(TriggerSource::Timer, Action::Submit, "", "", " -2 ").unwrap_err();
    assert_eq!(
        err.message(),
        "Interval must be a positive number of minutes (got \"-2\")"
    );
}

#[test]
fn infinity_is_rejected_on_submit_but_dismiss_falls_back() {
    assert!(close(TriggerSource::Manual, Action::Submit, "", "", "inf").is_err());
    let o = close(TriggerSource::Timer, Action::SwitchAway, "", "", "inf").unwrap();
    assert_eq!(reset(&o), Some(Duration::from_secs(600)));
}

#[test]
fn tooltip_just_below_a_minute_boundary() {
    assert_eq!(tooltip_for_remaining(Span::new(59, 999_999_999)), "~1 min");
    assert_eq!(tooltip_for_remaining(Span::new(0, 999_999_999)), "now");
    assert_eq!(displayed_minutes(Span::new(0, 999_999_999)), 0);
}

#[test]
fn trigger_source_tokens() {
    assert_eq!(TriggerSource::Timer.as_str(), "timer");
    assert_eq!(TriggerSource::Manual.as_str(), "manual");
}

#[test]
fn window_position_wider_window_than_screen_goes_negative() {
    assert_eq!(window_position((400, 100), (521, 10)), (-60, 25));
}
