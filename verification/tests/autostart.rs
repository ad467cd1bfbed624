use nudge::autostart::{
    apply_autostart, autostart_step, os_call, AutostartError, AutostartProvider, AutostartStep,
    FakeProvider, OsCall,
};
use nudge::config::{Config, ConfigError};
use std::cell::RefCell;

fn recording_persist(
    sink: &RefCell<Option<Config>>,
) -> impl FnOnce(&Config) -> Result<(), ConfigError> + '_ {
    move |c: &Config| {
        *sink.borrow_mut() = Some(c.clone());
        Ok(())
    }
}

#[test]
fn enable_success_sets_and_persists_config() {
    let provider = FakeProvider::new(false);
    let mut config = Config::default();
    let saved = RefCell::new(None);
    apply_autostart(&provider, &mut config, true, recording_persist(&saved)).unwrap();
    assert!(config.autostart, "in-memory config reflects the change");
    assert!(provider.is_enabled().unwrap(), "OS state actually enabled");
    assert_eq!(saved.borrow().as_ref().map(|c| c.autostart), Some(true));
}

#[test]
fn disable_success_clears_and_persists_config() {
    let provider = FakeProvider::new(true);
    let mut config = Config { autostart: true, ..Config::default() };
    let saved = RefCell::new(None);
    apply_autostart(&provider, &mut config, false, recording_persist(&saved)).unwrap();
    assert!(!config.autostart);
    assert!(!provider.is_enabled().unwrap());
    assert_eq!(saved.borrow().as_ref().map(|c| c.autostart), Some(false));
}

#[test]
fn backend_failure_leaves_config_untouched_and_skips_persist() {
    let provider = FakeProvider::failing_enable();
    let mut config = Config::default();
    let saved = RefCell::new(None);
    let err = apply_autostart(&provider, &mut config, true, recording_persist(&saved)).unwrap_err();
    assert!(matches!(err, AutostartError::Backend(_)));
    assert!(!config.autostart, "config not mutated on backend failure");
    assert!(saved.borrow().is_none(), "persist never called on backend failure");
}

#[test]
fn unconfirmed_change_is_a_backend_error() {
    let provider = FakeProvider::unconfirmed();
    let mut config = Config::default();
    let saved = RefCell::new(None);
    let err = apply_autostart(&provider, &mut config, true, recording_persist(&saved)).unwrap_err();
    assert!(matches!(err, AutostartError::Backend(_)));
    assert!(!config.autostart);
    assert!(saved.borrow().is_none());
}

#[test]
fn persist_failure_surfaces_as_persist_error() {
    let provider = FakeProvider::new(false);
    let mut config = Config::default();
    let err = apply_autostart(&provider, &mut config, true, |_c| {
        Err(ConfigError::Io { path: "x".to_string(), detail: "disk full".to_string() })
    })
    .unwrap_err();
    assert!(matches!(err, AutostartError::Persist(_)));
    assert!(provider.is_enabled().unwrap(), "OS change still happened");
}

#[test]
fn enable_is_idempotent() {
    let provider = FakeProvider::new(true);
    let mut config = Config::default();
    let saved = RefCell::new(None);
    apply_autostart(&provider, &mut config, true, recording_persist(&saved)).unwrap();
    assert!(config.autostart);
    assert_eq!(saved.borrow().as_ref().map(|c| c.autostart), Some(true));
}

// ---- further cases -------------------------------------------

#[test]
fn disable_failure_is_a_backend_error_and_keeps_config() {
    let provider = FakeProvider::failing_disable();
    let mut config = Config { autostart: true, ..Config::default() };
    let saved = RefCell::new(None);
    let err = apply_autostart(&provider, &mut config, false, recording_persist(&saved)).unwrap_err();
    assert_eq!(err, AutostartError::Backend("fake disable failed".to_string()));
    assert_eq!(err.message(), "autostart: fake disable failed");
    assert!(config.autostart);
    assert!(saved.borrow().is_none());
}

#[test]
fn unconfirmed_message_names_both_states() {
    let provider = FakeProvider::unconfirmed();
    let mut config = Config::default();
    let err = apply_autostart(&provider, &mut config, true, |_c| Ok(())).unwrap_err();
    assert_eq!(
        err,
        AutostartError::Backend(
            "system did not confirm autostart=true (is_enabled reports false)".to_string()
        )
    );
}

#[test]
fn persist_error_message() {
    let err = AutostartError::Persist(ConfigError::Io { path: "x".to_string(), detail: "disk full".to_string() });
    assert_eq!(err.message(), "autostart persisted change failed: config I/O (x): disk full");
}

#[test]
fn persisted_config_keeps_other_fields() {
    let provider = FakeProvider::new(false);
    let mut config = Config { hotkey: "Alt+J".to_string(), ..Config::default() };
    let saved = RefCell::new(None);
    apply_autostart(&provider, &mut config, true, recording_persist(&saved)).unwrap();
    let s = saved.borrow().clone().unwrap();
    assert_eq!(s.hotkey, "Alt+J");
    assert_eq!(config.hotkey, "Alt+J");
}

#[test]
fn failing_providers_report_their_fixed_state() {
    let stuck_off = FakeProvider::failing_enable();
    assert!(stuck_off.enable().is_err());
    assert_eq!(stuck_off.is_enabled(), Ok(false));
    let stuck_on = FakeProvider::failing_disable();
    assert!(stuck_on.disable().is_err());
    assert_eq!(stuck_on.is_enabled(), Ok(true));
}

#[test]
fn os_call_follows_the_desired_state() {
    assert_eq!(os_call(true), OsCall::Enable);
    assert_eq!(os_call(false), OsCall::Disable);
}

#[test]
fn each_step_settles_the_transaction() {
    assert_eq!(
        autostart_step(Err("denied".to_string()), None, true),
        AutostartStep::Fail("denied".to_string())
    );
    assert_eq!(autostart_step(Ok(()), None, true), AutostartStep::Confirm);
    assert_eq!(
        autostart_step(Ok(()), Some(Err("no answer".to_string())), false),
        AutostartStep::Fail("no answer".to_string())
    );
    assert_eq!(autostart_step(Ok(()), Some(Ok(true)), true), AutostartStep::Commit);
    assert_eq!(autostart_step(Ok(()), Some(Ok(false)), false), AutostartStep::Commit);
    assert_eq!(
        autostart_step(Ok(()), Some(Ok(false)), true),
        AutostartStep::Fail("system did not confirm autostart=true (is_enabled reports false)".to_string())
    );
}
