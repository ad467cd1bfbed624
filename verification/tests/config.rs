use nudge::config::{
    config_path, config_path_for, parse_config_arg, settle_load, temp_path, Config, ConfigError,
    LoadOutcome,
};
use nudge::hotkey::{default_hotkey, MOD_ALT};
use nudge::number::FloatBits;

fn bits(f: f64) -> FloatBits {
    FloatBits(f.to_bits())
}

fn value(b: FloatBits) -> f64 {
    f64::from_bits(b.0)
}

#[test]
fn default_hotkey_label_matches_parser_default() {
    let cfg = Config::default();
    let (hk, invalid) = cfg.resolved_hotkey();
    assert!(!invalid);
    assert_eq!(hk, default_hotkey());
}

#[test]
fn resolves_user_hotkey() {
    let cfg = Config { hotkey: "Alt+J".to_string(), ..Config::default() };
    let (hk, invalid) = cfg.resolved_hotkey();
    assert!(!invalid);
    assert_eq!(hk.modifiers, MOD_ALT);
    assert_eq!(hk.key.as_str(), "J");
}

#[test]
fn invalid_hotkey_falls_back_silently() {
    let cfg = Config { hotkey: "Notarealkey".to_string(), ..Config::default() };
    let (hk, invalid) = cfg.resolved_hotkey();
    assert!(invalid);
    assert_eq!(hk, default_hotkey());
}

#[test]
fn default_interval_minutes_is_ten() {
    let cfg = Config::default();
    assert_eq!(value(cfg.default_interval_minutes), 10.0);
    let (mins, invalid) = cfg.resolved_interval_minutes();
    assert!(!invalid);
    assert_eq!(value(mins), 10.0);
}

#[test]
fn resolves_explicit_interval() {
    let cfg = Config { default_interval_minutes: bits(5.0), ..Config::default() };
    let (mins, invalid) = cfg.resolved_interval_minutes();
    assert!(!invalid);
    assert_eq!(value(mins), 5.0);
}

#[test]
fn resolves_fractional_interval() {
    let cfg = Config { default_interval_minutes: bits(0.5), ..Config::default() };
    let (mins, invalid) = cfg.resolved_interval_minutes();
    assert!(!invalid);
    assert_eq!(value(mins), 0.5);
}

#[test]
fn invalid_interval_falls_back_silently() {
    for bad in [0.0, -3.0, f64::NAN, f64::INFINITY, f64::NEG_INFINITY] {
        let cfg = Config { default_interval_minutes: bits(bad), ..Config::default() };
        let (mins, invalid) = cfg.resolved_interval_minutes();
        assert!(invalid, "{bad} should be flagged invalid");
        assert_eq!(value(mins), 10.0, "{bad} should fall back to 10.0");
    }
}

#[test]
fn autostart_defaults_to_false() {
    assert!(!Config::default().autostart);
}

#[test]
fn config_path_under_documents_nudge() {
    assert_eq!(config_path("/d"), "/d/Nudge/config.json");
}

#[test]
fn missing_file_returns_default() {
    let (cfg, err) = settle_load("/tmp/does-not-exist.json", LoadOutcome::Missing);
    assert_eq!(cfg, Config::default());
    assert!(err.is_none(), "missing file is not an error");
}

#[test]
fn malformed_file_returns_default_with_error() {
    let (cfg, err) =
        settle_load("/tmp/config.json", LoadOutcome::Malformed("expected value".to_string()));
    assert_eq!(cfg, Config::default());
    assert!(matches!(err, Some(ConfigError::Parse { .. })));
}

#[test]
fn parse_config_arg_absent_returns_none() {
    assert_eq!(parse_config_arg(&[]), None);
    assert_eq!(parse_config_arg(&["--other", "value"]), None);
}

#[test]
fn parse_config_arg_space_separated() {
    assert_eq!(parse_config_arg(&["--config", "/tmp/foo.json"]), Some("/tmp/foo.json".to_string()));
}

#[test]
fn parse_config_arg_equals_form() {
    assert_eq!(parse_config_arg(&["--config=/tmp/foo.json"]), Some("/tmp/foo.json".to_string()));
}

#[test]
fn parse_config_arg_with_preceding_args() {
    assert_eq!(
        parse_config_arg(&["--verbose", "--config", "/tmp/x.json", "--quiet"]),
        Some("/tmp/x.json".to_string())
    );
}

#[test]
fn parse_config_arg_trailing_returns_none() {
    assert_eq!(parse_config_arg(&["--other", "--config"]), None);
}

#[test]
fn parse_config_arg_first_wins() {
    assert_eq!(
        parse_config_arg(&["--config", "/a.json", "--config", "/b.json"]),
        Some("/a.json".to_string())
    );
}

// ---- further cases -------------------------------------------

#[test]
fn unreadable_file_returns_default_with_io_error() {
    let (cfg, err) = settle_load("/x/config.json", LoadOutcome::Unreadable("denied".to_string()));
    assert_eq!(cfg, Config::default());
    assert_eq!(
        err,
        Some(ConfigError::Io { path: "/x/config.json".to_string(), detail: "denied".to_string() })
    );
    assert_eq!(err.unwrap().message(), "config I/O (/x/config.json): denied");
}

#[test]
fn parsed_file_is_taken_as_is() {
    let c = Config { hotkey: "Alt+J".to_string(), default_interval_minutes: bits(7.0), autostart: true };
    let (cfg, err) = settle_load("/x", LoadOutcome::Parsed(c.clone()));
    assert_eq!(cfg, c);
    assert!(err.is_none());
}

#[test]
fn parse_error_message() {
    let e = ConfigError::Parse { path: "p".to_string(), detail: "d".to_string() };
    assert_eq!(e.message(), "config parse (p): d");
}

#[test]
fn default_label_is_ctrl_shift_space() {
    assert_eq!(Config::default().hotkey, "Ctrl+Shift+Space");
}

#[test]
fn config_path_without_documents_uses_current_dir() {
    assert_eq!(config_path_for(None), "./Nudge/config.json");
    assert_eq!(config_path_for(Some("/home/u/Documents")), "/home/u/Documents/Nudge/config.json");
}

#[test]
fn temp_path_appends_tmp() {
    assert_eq!(temp_path("/d/Nudge/config.json"), "/d/Nudge/config.json.tmp");
}

#[test]
fn config_arg_equals_with_empty_value() {
    assert_eq!(parse_config_arg(&["--config="]), Some(String::new()));
}
