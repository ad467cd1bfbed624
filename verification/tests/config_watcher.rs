use nudge::config::Config;
use nudge::config_watcher::{diff, event_mentions_config, ConfigChange};
use nudge::number::FloatBits;

fn cfg_with(hotkey: &str, interval: f64, autostart: bool) -> Config {
    Config {
        hotkey: hotkey.to_string(),
        default_interval_minutes: FloatBits(interval.to_bits()),
        autostart,
    }
}

#[test]
fn diff_empty_when_equal() {
    let a = Config::default();
    let b = Config::default();
    assert!(diff(&a, &b).is_empty());
}

#[test]
fn diff_detects_hotkey_change() {
    let a = cfg_with("Ctrl+Shift+Space", 10.0, false);
    let b = cfg_with("Alt+J", 10.0, false);
    let changes = diff(&a, &b);
    assert_eq!(changes.len(), 1);
    assert_eq!(
        changes[0],
        ConfigChange::HotkeyChanged { from: "Ctrl+Shift+Space".to_string(), to: "Alt+J".to_string() }
    );
}

#[test]
fn diff_detects_interval_change() {
    let a = cfg_with("Ctrl+Shift+Space", 10.0, false);
    let b = cfg_with("Ctrl+Shift+Space", 5.0, false);
    assert_eq!(diff(&a, &b), vec![ConfigChange::IntervalChanged]);
}

#[test]
fn diff_detects_autostart_change() {
    let a = cfg_with("Ctrl+Shift+Space", 10.0, false);
    let b = cfg_with("Ctrl+Shift+Space", 10.0, true);
    assert_eq!(diff(&a, &b), vec![ConfigChange::AutostartChanged]);
}

#[test]
fn diff_detects_multiple_fields() {
    let a = cfg_with("Ctrl+Shift+Space", 10.0, false);
    let b = cfg_with("Alt+J", 5.0, true);
    let changes = diff(&a, &b);
    assert_eq!(changes.len(), 3);
    assert!(matches!(changes[0], ConfigChange::HotkeyChanged { .. }));
    assert_eq!(changes[1], ConfigChange::IntervalChanged);
    assert_eq!(changes[2], ConfigChange::AutostartChanged);
}

#[test]
fn diff_nan_interval_compares_equal_to_itself() {
    let a = cfg_with("X", f64::NAN, false);
    let b = cfg_with("X", f64::NAN, false);
    assert!(diff(&a, &b).is_empty());
}

// ---- further cases -------------------------------------------

#[test]
fn diff_positive_and_negative_zero_differ() {
    let a = cfg_with("X", 0.0, false);
    let b = cfg_with("X", -0.0, false);
    assert_eq!(diff(&a, &b), vec![ConfigChange::IntervalChanged]);
}

#[test]
fn watcher_filter_matches_config_name_only() {
    let names = vec![Some("journal-rust.ndjson".to_string()), None];
    assert!(!event_mentions_config(&names, "config.json"));
    let names = vec![Some("config.json.tmp".to_string()), Some("config.json".to_string())];
    assert!(event_mentions_config(&names, "config.json"));
    assert!(!event_mentions_config(&[], "config.json"));
}
