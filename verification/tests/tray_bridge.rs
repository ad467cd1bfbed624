use nudge::config::Config;
use nudge::config_watcher::ConfigChange;
use nudge::hotkey::{hotkey_from_egui, parse, KeyModifiers, RecorderKey};
use nudge::number::FloatBits;
use nudge::span::Span;
use nudge::tray_bridge::{
    hotkey_registration, load_hwnd, modifiers_to_win32, reload_plan, request_config_reload,
    set_popup_visible, set_timer_state, set_tray_clicked, set_tray_thread_id, store_hwnd,
    take_config_reload, take_timer_fired, take_tray_clicked, set_timer_fired, vk_for_key,
    AnimatorTimer, BridgeState, TrayLoop,
};

#[test]
fn virtual_keys_for_tokens() {
    assert_eq!(vk_for_key("A"), Some(0x41));
    assert_eq!(vk_for_key("Z"), Some(0x5A));
    assert_eq!(vk_for_key("0"), Some(0x30));
    assert_eq!(vk_for_key("F1"), Some(0x70));
    assert_eq!(vk_for_key("F24"), Some(0x87));
    assert_eq!(vk_for_key("F25"), None);
    assert_eq!(vk_for_key("F0"), None);
    assert_eq!(vk_for_key("F"), Some(0x46));
    assert_eq!(vk_for_key("SPACE"), Some(0x20));
    assert_eq!(vk_for_key("ENTER"), Some(0x0D));
    assert_eq!(vk_for_key("TAB"), Some(0x09));
    assert_eq!(vk_for_key("ESCAPE"), Some(0x1B));
    assert_eq!(vk_for_key("BACKSPACE"), Some(0x08));
    assert_eq!(vk_for_key("a"), None);
    assert_eq!(vk_for_key("HOME"), None);
    assert_eq!(vk_for_key(""), None);
}

#[test]
fn win32_modifier_flags() {
    assert_eq!(modifiers_to_win32(0), 0x4000);
    assert_eq!(modifiers_to_win32(1), 0x4002);
    assert_eq!(modifiers_to_win32(2), 0x4001);
    assert_eq!(modifiers_to_win32(4), 0x4004);
    assert_eq!(modifiers_to_win32(8), 0x4008);
    assert_eq!(modifiers_to_win32(15), 0x400F);
}

#[test]
fn default_hotkey_registers_as_ctrl_shift_space() {
    let hk = parse("Ctrl+Shift+Space").unwrap();
    assert_eq!(hotkey_registration(&hk), Some((0x4006, 0x20)));
    let f = parse("Alt+F12").unwrap();
    assert_eq!(hotkey_registration(&f), Some((0x4001, 0x7B)));
}

#[test]
fn edge_flags_are_taken_once() {
    let mut s = BridgeState::new();
    assert!(!take_tray_clicked(&mut s));
    set_tray_clicked(&mut s);
    assert!(take_tray_clicked(&mut s));
    assert!(!take_tray_clicked(&mut s));
    set_timer_fired(&mut s);
    assert!(take_timer_fired(&mut s));
    assert!(!take_timer_fired(&mut s));
}

#[test]
fn window_handle_is_known_once_stored() {
    let mut s = BridgeState::new();
    assert_eq!(load_hwnd(&s), None);
    store_hwnd(&mut s, 0x1234);
    assert_eq!(load_hwnd(&s), Some(0x1234));
}

#[test]
fn setters_wake_the_tray_thread_once_it_is_known() {
    let mut s = BridgeState::new();
    assert!(s.popup_visible, "the popup is up at launch");
    assert_eq!(set_popup_visible(&mut s, false), None);
    assert!(!s.popup_visible);
    set_tray_thread_id(&mut s, 42);
    assert_eq!(request_config_reload(&mut s), Some(42));
    assert_eq!(request_config_reload(&mut s), Some(42));
    assert!(take_config_reload(&mut s), "two requests collapse into one re-read");
    assert!(!take_config_reload(&mut s));
    let t = AnimatorTimer { deadline: Span::from_secs(70), duration: Span::from_secs(60) };
    assert_eq!(set_timer_state(&mut s, t.deadline, t.duration), Some(42));
    assert_eq!(s.animator_timer, Some(t));
}

fn timer_120s() -> AnimatorTimer {
    AnimatorTimer { deadline: Span::from_secs(130), duration: Span::from_secs(120) }
}

#[test]
fn parks_while_popup_visible_or_without_timer() {
    let mut l = TrayLoop::new();
    let before = l;
    let t = l.tick(true, Some(timer_120s()), Span::from_secs(20));
    assert_eq!(t.wait_ms, u32::MAX);
    assert!(t.frame.is_none() && !t.redraw && t.tooltip.is_none() && !t.fire);
    assert_eq!(l, before);
    let t = l.tick(false, None, Span::from_secs(20));
    assert_eq!(t.wait_ms, u32::MAX);
    assert_eq!(l, before);
}

#[test]
fn first_turn_draws_and_sets_tooltip_then_dedupes() {
    let mut l = TrayLoop::new();
    // 35 s into a 120 s timer that started at 10 s.
    let t = l.tick(false, Some(timer_120s()), Span::from_secs(45));
    assert!(t.redraw);
    assert_eq!(t.frame.unwrap().petals_remaining, 9);
    assert_eq!(t.tooltip.as_deref(), Some("~2 min"));
    assert!(!t.fire);
    // Sleep until the next petal drop at 40 s: 5 s.
    assert_eq!(t.wait_ms, 5_000);
    let t2 = l.tick(false, Some(timer_120s()), Span::from_secs(46));
    assert!(!t2.redraw, "same icon, no redraw");
    assert!(t2.tooltip.is_none(), "same minute count, no tooltip refresh");
    assert_eq!(t2.wait_ms, 4_000);
}

#[test]
fn drift_wakes_at_thirty_hertz() {
    let mut l = TrayLoop::new();
    let t = l.tick(false, Some(timer_120s()), Span::new(40, 100_000_000));
    let f = t.frame.unwrap();
    assert!(f.drift.is_some());
    assert_eq!(t.wait_ms, 33);
    assert_eq!(l.last_icon.drift_hundredths, 40);
}

#[test]
fn fires_once_per_deadline_after_the_final_drift() {
    let mut l = TrayLoop::new();
    let before_fire = l.tick(false, Some(timer_120s()), Span::new(130, 100_000_000));
    assert!(!before_fire.fire);
    assert_eq!(before_fire.wait_ms, 33);
    assert_eq!(before_fire.tooltip.as_deref(), Some("now"));
    let t = l.tick(false, Some(timer_120s()), Span::new(130, 300_000_000));
    assert!(t.fire);
    assert_eq!(t.wait_ms, u32::MAX);
    let again = l.tick(false, Some(timer_120s()), Span::from_secs(131));
    assert!(!again.fire, "one timer fires the popup once");
    assert_eq!(again.wait_ms, 10);
    let next = AnimatorTimer { deadline: Span::from_secs(300), duration: Span::from_secs(120) };
    let t3 = l.tick(false, Some(next), Span::from_secs(301));
    assert!(t3.fire, "a new deadline fires again");
}

#[test]
fn long_petal_wait_is_capped_at_a_minute() {
    let mut l = TrayLoop::new();
    let t = AnimatorTimer { deadline: Span::from_secs(3600), duration: Span::from_secs(3600) };
    let r = l.tick(false, Some(t), Span::from_secs(1));
    assert_eq!(r.wait_ms, 60_000);
}

fn cfg(hotkey: &str, mins: f64, autostart: bool) -> Config {
    Config { hotkey: hotkey.to_string(), default_interval_minutes: FloatBits(mins.to_bits()), autostart }
}

#[test]
fn reload_failure_keeps_everything() {
    let p = reload_plan(&Config::default(), None, true);
    assert!(p.changes.is_empty());
    assert!(!p.unregister && p.register.is_none() && !p.adopt);
}

#[test]
fn reload_without_changes_does_nothing() {
    let p = reload_plan(&Config::default(), Some(&Config::default()), true);
    assert!(p.changes.is_empty() && !p.adopt && !p.unregister && p.register.is_none());
}

#[test]
fn reload_rebinds_a_changed_hotkey() {
    let old = cfg("Ctrl+Shift+Space", 10.0, false);
    let new = cfg("Alt+J", 10.0, false);
    let p = reload_plan(&old, Some(&new), true);
    assert_eq!(
        p.changes,
        vec![ConfigChange::HotkeyChanged { from: "Ctrl+Shift+Space".to_string(), to: "Alt+J".to_string() }]
    );
    assert!(p.unregister);
    assert_eq!(p.register, Some(parse("Alt+J").unwrap()));
    assert!(p.adopt);
    let q = reload_plan(&old, Some(&new), false);
    assert!(!q.unregister, "nothing bound, nothing to release");
}

#[test]
fn reload_with_unparseable_hotkey_unbinds() {
    let old = cfg("Ctrl+Shift+Space", 10.0, false);
    let new = cfg("Nonsense+", 10.0, false);
    let p = reload_plan(&old, Some(&new), true);
    assert!(p.unregister);
    assert!(p.register.is_none());
    assert!(p.adopt);
}

#[test]
fn reload_records_interval_and_autostart_only() {
    let old = cfg("Alt+J", 10.0, false);
    let new = cfg("Alt+J", 5.0, true);
    let p = reload_plan(&old, Some(&new), true);
    assert_eq!(p.changes, vec![ConfigChange::IntervalChanged, ConfigChange::AutostartChanged]);
    assert!(!p.unregister && p.register.is_none());
    assert!(p.adopt);
}

#[test]
fn every_recordable_key_registers() {
    let mut keys = vec![
        RecorderKey::Space,
        RecorderKey::Enter,
        RecorderKey::Tab,
        RecorderKey::Escape,
        RecorderKey::Backspace,
    ];
    keys.extend((0..26).map(RecorderKey::Letter));
    keys.extend((0..10).map(RecorderKey::Digit));
    keys.extend((1..=24).map(RecorderKey::Function));
    for k in keys {
        let hk = hotkey_from_egui(KeyModifiers::none(), k).unwrap();
        assert!(hotkey_registration(&hk).is_some(), "{k:?} must register");
    }
}
