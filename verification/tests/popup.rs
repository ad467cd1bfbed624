use nudge::popup::pill_label;
use nudge::popup::timestamp_text;
use nudge::journal::validate_event;
use nudge::number::FloatBits;
use nudge::nudge_state::{Action, TriggerSource};
use nudge::popup::{NudgeApp, CLEAR_COLOR_TRANSPARENT};
use nudge::span::Span;

fn number(text: &str) -> Option<FloatBits> {
    text.trim().parse::<f64>().ok().map(|f| FloatBits(f.to_bits()))
}

#[test]
fn clear_color_is_fully_transparent() {
    assert_eq!(CLEAR_COLOR_TRANSPARENT.map(f32::from_bits), [0.0, 0.0, 0.0, 0.0]);
}

#[test]
fn launch_state_is_visible_frozen_and_unarmed() {
    let app = NudgeApp::new("10".to_string());
    assert!(app.popup_visible);
    assert!(!app.armed);
    assert!(!app.timer.is_expired());
    assert_eq!(app.next_minutes, "10");
    assert_eq!(app.trigger_source, TriggerSource::Timer);
}

#[test]
fn first_frame_arms_from_foreground_once() {
    let mut app = NudgeApp::new("10".to_string());
    app.first_frame(true);
    assert!(app.armed);
    assert!(!app.center_once);
    app.first_frame(false);
    assert!(app.armed, "later frames change nothing");
}

#[test]
fn enter_esc_click_and_focus_loss() {
    let mut app = NudgeApp::new("10".to_string());
    app.show_popup(TriggerSource::Manual, true);
    assert_eq!(app.frame_action(true, true, true, false), Some(Action::Submit));
    assert_eq!(app.frame_action(false, true, true, false), Some(Action::Dismiss));
    assert_eq!(app.frame_action(false, false, true, true), Some(Action::SwitchAway));
    assert_eq!(app.frame_action(false, false, false, false), Some(Action::SwitchAway));
    assert_eq!(app.frame_action(false, false, false, true), None);
    app.show_popup(TriggerSource::Manual, false);
    assert_eq!(app.frame_action(false, false, false, false), None, "unarmed: focus loss ignored");
}

#[test]
fn tray_signals_open_a_hidden_popup_only() {
    let mut app = NudgeApp::new("10".to_string());
    assert_eq!(app.pending_show(true, true), None);
    let o = app.begin_close(Action::Dismiss, number("10")).unwrap();
    app.finish_close(&o, Span::from_secs(600));
    assert!(!app.popup_visible);
    assert_eq!(app.pending_show(true, true), Some(TriggerSource::Manual));
    assert_eq!(app.pending_show(false, true), Some(TriggerSource::Timer));
    assert_eq!(app.pending_show(false, false), None);
    assert_eq!(app.frame_action(true, false, false, false), None, "hidden popup reads no input");
}

#[test]
fn submit_with_bad_interval_stays_open_with_message() {
    let mut app = NudgeApp::new("10".to_string());
    app.next_minutes = "-5".to_string();
    assert!(app.begin_close(Action::Submit, number("-5")).is_none());
    assert_eq!(
        app.error_message.as_deref(),
        Some("Interval must be a positive number of minutes (got \"-5\")")
    );
    assert!(app.popup_visible);
}

#[test]
fn submit_journals_resets_clears_and_hides() {
    let mut app = NudgeApp::new("10".to_string());
    app.doing = "writing".to_string();
    app.next_minutes = "5".to_string();
    let o = app.begin_close(Action::Submit, number("5")).unwrap();
    assert!(o.write_journal && o.clear_form);
    let minutes = o.reset_timer.unwrap();
    let event = app.journal_event(minutes);
    assert_eq!(event.doing, "writing");
    assert_eq!(event.trigger_source, "timer");
    assert!(event.captured_at.len() >= 29, "RFC 3339 with milliseconds and offset");
    assert!(validate_event(&event).is_ok());
    let reset = app.finish_close(&o, Span::from_secs(300));
    assert!(reset);
    assert!(!app.popup_visible && !app.armed && app.error_message.is_none());
    assert_eq!(app.doing, "");
    assert!(!app.timer.is_expired());
}

#[test]
fn journal_failure_keeps_popup_open() {
    let mut app = NudgeApp::new("10".to_string());
    app.doing = "x".to_string();
    let o = app.begin_close(Action::Submit, number("10")).unwrap();
    assert!(o.write_journal);
    app.fail_close("journal I/O (p): denied".to_string());
    assert!(app.popup_visible);
    assert_eq!(app.doing, "x");
    assert_eq!(app.error_message.as_deref(), Some("journal I/O (p): denied"));
}

#[test]
fn manual_dismiss_keeps_text_and_timer() {
    let mut app = NudgeApp::new("10".to_string());
    app.show_popup(TriggerSource::Manual, true);
    app.doing = "keep me".to_string();
    let o = app.begin_close(Action::Dismiss, number("10")).unwrap();
    assert!(o.reset_timer.is_none());
    let reset = app.finish_close(&o, Span::from_secs(600));
    assert!(!reset);
    assert_eq!(app.doing, "keep me");
    assert!(!app.timer.is_expired(), "still frozen");
}

#[test]
fn focus_request_is_consumed() {
    let mut app = NudgeApp::new("10".to_string());
    assert!(app.take_focus_request());
    assert!(!app.take_focus_request());
    app.show_popup(TriggerSource::Timer, true);
    assert!(app.take_focus_request());
}

#[test]
fn pill_shows_minutes_and_two_digit_seconds() {
    assert_eq!(pill_label(Span::from_secs(0)), "0:00");
    assert_eq!(pill_label(Span::from_secs(65)), "1:05");
    assert_eq!(pill_label(Span::new(599, 999_000_000)), "9:59");
    assert_eq!(pill_label(Span::from_secs(7200)), "120:00");
}

#[test]
fn web_timestamp_is_rfc3339_with_millis_and_offset() {
    assert_eq!(timestamp_text(2026, 3, 17, 14, 30, 0, 0, 120), "2026-04-17T14:30:00.000+02:00");
    assert_eq!(timestamp_text(2026, 0, 1, 9, 5, 7, 42, -330), "2026-01-01T09:05:07.042-05:30");
    assert_eq!(timestamp_text(2026, 11, 31, 23, 59, 59, 999, 0), "2026-12-31T23:59:59.999+00:00");
}

#[test]
fn close_at_a_reading_restarts_the_timer_from_it() {
    let mut app = NudgeApp::new("10".to_string());
    app.doing = "x".to_string();
    let o = app.begin_close(Action::Submit, number("5")).unwrap();
    let now = Span::from_secs(100);
    assert!(app.finish_close_at(&o, Span::from_secs(300), now));
    assert_eq!(app.timer.remaining_at(Span::from_secs(100)), Span::from_secs(300));
    assert!(!app.timer.is_expired_at(Span::from_secs(399)));
    assert!(app.timer.is_expired_at(Span::from_secs(400)));

    // a deadline past the range of spans leaves the timer as it was
    app.show_popup(TriggerSource::Manual, true);
    let o = app.begin_close(Action::Submit, number("5")).unwrap();
    let far = Span::new(u64::MAX, 999_999_999);
    assert!(!app.finish_close_at(&o, Span::from_secs(1), far));
    assert_eq!(app.timer.remaining_at(Span::from_secs(100)), Span::from_secs(300));
    assert!(!app.popup_visible);
}
