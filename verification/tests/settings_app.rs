use nudge::autostart::{AutostartError, AutostartProvider, FakeProvider};
use nudge::config::{Config, ConfigError};
use nudge::hotkey::{KeyModifiers, RecorderKey, MOD_CTRL};
use nudge::number::FloatBits;
use nudge::settings_app::{
    decide_capture, page_wants_settings, parse_interval_minutes, parse_settings_arg,
    CaptureOutcome, SettingsForm, SettingsApp, SettingsValidationError,
};
use std::cell::RefCell;

fn number(text: &str) -> Option<FloatBits> {
    text.trim().parse::<f64>().ok().map(|f| FloatBits(f.to_bits()))
}

/// How the interval field shows a number: whole numbers without ".0".
fn render(b: FloatBits) -> String {
    let n = f64::from_bits(b.0);
    if n.fract() == 0.0 && n.is_finite() {
        format!("{}", n as i64)
    } else {
        format!("{n}")
    }
}

fn form(cfg: Config) -> SettingsForm {
    let text = render(cfg.default_interval_minutes);
    SettingsForm::from_config(cfg, text)
}

fn cfg_with(hotkey: &str, mins: f64, autostart: bool) -> Config {
    Config { hotkey: hotkey.to_string(), default_interval_minutes: FloatBits(mins.to_bits()), autostart }
}

fn minutes(text: &str) -> Result<f64, nudge::settings_app::IntervalParseError> {
    parse_interval_minutes(text, number(text)).map(|b| f64::from_bits(b.0))
}

fn ctrl() -> KeyModifiers {
    KeyModifiers { alt: false, ctrl: true, shift: false, mac_cmd: false, command: true }
}

#[test]
fn from_config_populates_fields() {
    let f = form(cfg_with("Alt+J", 7.0, true));
    assert_eq!(f.hotkey, "Alt+J");
    assert_eq!(f.interval_text, "7");
    assert!(f.autostart);
    assert!(!f.is_dirty(), "freshly-loaded form is clean");
}

#[test]
fn editing_any_field_marks_dirty() {
    let mut f = form(cfg_with("Alt+J", 10.0, false));
    assert!(!f.is_dirty());
    f.hotkey = "Ctrl+F1".to_string();
    assert!(f.is_dirty(), "hotkey edit -> dirty");
    f.hotkey = "Alt+J".to_string();
    assert!(!f.is_dirty(), "reverted -> clean");
    f.interval_text = "5".to_string();
    assert!(f.is_dirty(), "interval edit -> dirty");
    f.interval_text = "10".to_string();
    assert!(!f.is_dirty(), "reverted -> clean");
    f.autostart = true;
    assert!(f.is_dirty(), "autostart edit -> dirty");
}

#[test]
fn parse_interval_minutes_accepts_positive_finite() {
    assert_eq!(minutes("10").unwrap(), 10.0);
    assert_eq!(minutes("  7.5  ").unwrap(), 7.5);
    assert_eq!(minutes("0.1").unwrap(), 0.1);
}

#[test]
fn parse_interval_minutes_rejects_garbage() {
    for bad in ["", "abc", "0", "-5", "NaN", "Infinity"] {
        assert!(minutes(bad).is_err(), "{bad:?} should be rejected");
    }
}

#[test]
fn to_config_propagates_interval_error() {
    let mut f = form(Config::default());
    f.interval_text = "garbage".to_string();
    let err = f.to_config(number(&f.interval_text)).unwrap_err();
    assert!(matches!(err, SettingsValidationError::Interval(_)));
}

#[test]
fn to_config_trims_hotkey() {
    let mut f = form(Config::default());
    f.hotkey = "  Alt+J  ".to_string();
    let cfg = f.to_config(number(&f.interval_text)).unwrap();
    assert_eq!(cfg.hotkey, "Alt+J");
}

#[test]
fn mark_clean_resets_dirty_after_edit() {
    let mut f = form(Config::default());
    f.interval_text = "5".to_string();
    assert!(f.is_dirty());
    let n = number(&f.interval_text);
    f.mark_clean(n, render);
    assert!(!f.is_dirty(), "mark_clean makes the current state the new baseline");
}

#[test]
fn toggle_autostart_success_flips_form_and_persists() {
    let provider = FakeProvider::new(false);
    let mut f = form(Config::default());
    let saved = RefCell::new(None);
    f.toggle_autostart(&provider, true, |c: &Config| {
        *saved.borrow_mut() = Some(c.clone());
        Ok(())
    })
    .unwrap();
    assert!(f.autostart, "form bool flipped");
    assert!(provider.is_enabled().unwrap(), "OS state actually enabled");
    assert_eq!(saved.borrow().as_ref().map(|c| c.autostart), Some(true));
    assert!(!f.is_dirty(), "baseline updated, so still clean");
}

#[test]
fn toggle_autostart_backend_failure_leaves_form_untouched() {
    let provider = FakeProvider::failing_enable();
    let mut f = form(Config::default());
    let saved = RefCell::new(None);
    let err = f
        .toggle_autostart(&provider, true, |c: &Config| {
            *saved.borrow_mut() = Some(c.clone());
            Ok(())
        })
        .unwrap_err();
    assert!(matches!(err, AutostartError::Backend(_)));
    assert!(!f.autostart, "form bool not flipped on backend failure");
    assert!(saved.borrow().is_none(), "persist never called");
}

#[test]
fn parse_settings_arg_recognises_the_flag() {
    assert!(parse_settings_arg(&["--settings"]));
    assert!(parse_settings_arg(&["nudge.exe", "--settings"]));
    assert!(parse_settings_arg(&["--config", "/x.json", "--settings"]));
    assert!(!parse_settings_arg(&[]));
    assert!(!parse_settings_arg(&["--config", "/x.json"]));
    assert!(!parse_settings_arg(&["--settingsxxx"]), "must be an exact match");
}

#[test]
fn decide_capture_no_keys_keeps_waiting() {
    assert_eq!(decide_capture(KeyModifiers::none(), &[]), CaptureOutcome::KeepWaiting);
}

#[test]
fn decide_capture_bare_escape_cancels() {
    assert_eq!(
        decide_capture(KeyModifiers::none(), &[RecorderKey::Escape]),
        CaptureOutcome::CancelRequested
    );
}

#[test]
fn decide_capture_escape_with_modifier_captures() {
    match decide_capture(ctrl(), &[RecorderKey::Escape]) {
        CaptureOutcome::Captured(hk) => {
            assert_eq!(hk.modifiers, MOD_CTRL);
            assert_eq!(hk.key.as_str(), "ESCAPE");
        }
        other => panic!("expected Captured, got {other:?}"),
    }
}

#[test]
fn decide_capture_supported_key_captures() {
    let mods = KeyModifiers { alt: false, ctrl: true, shift: true, mac_cmd: false, command: false };
    match decide_capture(mods, &[RecorderKey::Letter(0)]) {
        CaptureOutcome::Captured(hk) => assert_eq!(nudge::hotkey::format(&hk), "Ctrl+Shift+A"),
        other => panic!("expected Captured, got {other:?}"),
    }
}

#[test]
fn decide_capture_unsupported_key_signals_hint() {
    assert_eq!(decide_capture(ctrl(), &[RecorderKey::Other]), CaptureOutcome::Unsupported);
}

#[test]
fn decide_capture_uses_first_key() {
    match decide_capture(ctrl(), &[RecorderKey::Letter(0), RecorderKey::Letter(1)]) {
        CaptureOutcome::Captured(hk) => assert_eq!(hk.key.as_str(), "A"),
        other => panic!("expected Captured(A), got {other:?}"),
    }
}

#[test]
fn toggle_autostart_persist_failure_surfaces_but_os_still_changed() {
    let provider = FakeProvider::new(false);
    let mut f = form(Config::default());
    let err = f
        .toggle_autostart(&provider, true, |_c: &Config| {
            Err(ConfigError::Io { path: "x".to_string(), detail: "disk full".to_string() })
        })
        .unwrap_err();
    assert!(matches!(err, AutostartError::Persist(_)));
    assert!(provider.is_enabled().unwrap(), "OS change still happened");
    assert!(!f.autostart, "form bool not flipped on persist failure");
}

// ---- the settings window state ---------------------------------------------

#[test]
fn save_persists_trimmed_config_and_reports_saved() {
    let mut s = SettingsApp::new(form(Config::default()));
    s.form.hotkey = " Alt+J ".to_string();
    s.form.interval_text = "0.5".to_string();
    let saved = RefCell::new(None);
    let n = number(&s.form.interval_text);
    s.save(n, render, |c: &Config| {
        *saved.borrow_mut() = Some(c.clone());
        Ok(())
    });
    assert_eq!(s.banner.as_deref(), Some("Saved"));
    let c = saved.borrow().clone().unwrap();
    assert_eq!(c.hotkey, "Alt+J");
    assert_eq!(f64::from_bits(c.default_interval_minutes.0), 0.5);
    assert_eq!(s.form.hotkey, "Alt+J");
    assert_eq!(s.form.interval_text, "0.5");
    assert!(!s.form.is_dirty());
}

#[test]
fn save_with_bad_interval_reports_and_keeps_form() {
    let mut s = SettingsApp::new(form(Config::default()));
    s.form.interval_text = " abc ".to_string();
    let n = number(&s.form.interval_text);
    s.save(n, render, |_c: &Config| panic!("must not persist"));
    assert_eq!(
        s.banner.as_deref(),
        Some("Interval must be a positive number of minutes (got: \"abc\")")
    );
    assert_eq!(s.form.interval_text, " abc ");
}

#[test]
fn save_failure_reports_error_and_keeps_form_dirty() {
    let mut s = SettingsApp::new(form(Config::default()));
    s.form.interval_text = "5".to_string();
    let n = number(&s.form.interval_text);
    s.save(n, render, |_c: &Config| {
        Err(ConfigError::Io { path: "x".to_string(), detail: "disk full".to_string() })
    });
    assert_eq!(s.banner.as_deref(), Some("Save failed: config I/O (x): disk full"));
    assert!(s.form.is_dirty());
}

#[test]
fn recording_then_cancel_restores_label() {
    let mut s = SettingsApp::new(form(cfg_with("Alt+J", 10.0, false)));
    s.start_recording();
    assert!(s.recording_hotkey);
    s.form.hotkey = "junk".to_string();
    s.apply_capture(decide_capture(KeyModifiers::none(), &[RecorderKey::Escape]));
    assert!(!s.recording_hotkey);
    assert_eq!(s.form.hotkey, "Alt+J");
}

#[test]
fn recording_captures_and_hints() {
    let mut s = SettingsApp::new(form(Config::default()));
    s.start_recording();
    s.apply_capture(decide_capture(ctrl(), &[RecorderKey::Other]));
    assert_eq!(s.recording_hint.as_deref(), Some("Unsupported key, try another"));
    assert!(s.recording_hotkey);
    s.apply_capture(decide_capture(ctrl(), &[RecorderKey::Function(5)]));
    assert!(!s.recording_hotkey);
    assert_eq!(s.form.hotkey, "Ctrl+F5");
    assert!(s.recording_hint.is_none());
}

#[test]
fn escape_closes_unless_recording() {
    let mut s = SettingsApp::new(form(Config::default()));
    s.start_recording();
    s.handle_close_keys(true, false);
    assert!(!s.quit_requested);
    s.cancel_recording();
    s.handle_close_keys(true, false);
    assert!(s.quit_requested);
    let mut t = SettingsApp::new(form(Config::default()));
    t.start_recording();
    t.handle_close_keys(false, true);
    assert!(t.quit_requested);
}

#[test]
fn autostart_toggle_banner() {
    let provider = FakeProvider::new(true);
    let mut s = SettingsApp::new(form(cfg_with("Alt+J", 10.0, true)));
    s.apply_autostart_toggle(&provider, false, |_c: &Config| Ok(())).unwrap();
    assert_eq!(s.banner.as_deref(), Some("Autostart disabled"));
    assert!(!s.form.autostart);
    let failing = FakeProvider::failing_enable();
    let err = s.apply_autostart_toggle(&failing, true, |_c: &Config| Ok(())).unwrap_err();
    assert_eq!(s.banner.as_deref(), Some("autostart: fake enable failed"));
    assert_eq!(err, AutostartError::Backend("fake enable failed".to_string()));
    assert!(!s.form.autostart);
}

#[test]
fn settings_page_routing() {
    assert!(page_wants_settings("?settings", "/"));
    assert!(page_wants_settings("", "/settings.html"));
    assert!(!page_wants_settings("?x=1", "/index.html"));
    assert!(!page_wants_settings("?setting", "/"));
}
