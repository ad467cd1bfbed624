use nudge::hotkey::{
    default_hotkey, hotkey_from_egui, parse, KeyModifiers, ParseError, RecorderKey,
    MOD_ALT, MOD_CTRL, MOD_SHIFT, MOD_WIN,
};

fn mods(ctrl: bool, alt: bool, shift: bool, mac_cmd: bool, command: bool) -> KeyModifiers {
    KeyModifiers { alt, ctrl, shift, mac_cmd, command }
}

fn ctrl() -> KeyModifiers {
    mods(true, false, false, false, true)
}

#[test]
fn parses_ctrl_shift_space() {
    let hk = parse("Ctrl+Shift+Space").unwrap();
    assert_eq!(hk.modifiers, MOD_CTRL | MOD_SHIFT);
    assert_eq!(hk.key.as_str(), "SPACE");
}

#[test]
fn parses_case_insensitively() {
    let lower = parse("ctrl+shift+space").unwrap();
    let upper = parse("CTRL+SHIFT+SPACE").unwrap();
    let mixed = parse("Ctrl+Shift+Space").unwrap();
    assert_eq!(lower, upper);
    assert_eq!(lower, mixed);
}

#[test]
fn tolerates_whitespace() {
    let hk = parse("  Ctrl +  Shift +Space  ").unwrap();
    assert_eq!(hk.modifiers, MOD_CTRL | MOD_SHIFT);
    assert_eq!(hk.key.as_str(), "SPACE");
}

#[test]
fn accepts_control_alias() {
    let hk = parse("Control+A").unwrap();
    assert_eq!(hk.modifiers, MOD_CTRL);
    assert_eq!(hk.key.as_str(), "A");
}

#[test]
fn accepts_win_super_meta_cmd_as_win() {
    for s in ["Win+J", "Super+J", "Meta+J", "Cmd+J"] {
        let hk = parse(s).unwrap();
        assert_eq!(hk.modifiers, MOD_WIN, "for {}", s);
        assert_eq!(hk.key.as_str(), "J", "for {}", s);
    }
}

#[test]
fn single_letter_key_is_recognised() {
    let hk = parse("Ctrl+A").unwrap();
    assert_eq!(hk.modifiers, MOD_CTRL);
    assert_eq!(hk.key.as_str(), "A");
}

#[test]
fn digit_key_is_recognised() {
    let hk = parse("Ctrl+0").unwrap();
    assert_eq!(hk.key.as_str(), "0");
}

#[test]
fn f_keys_recognised() {
    for n in 1..=12u8 {
        let hk = parse(&format!("Ctrl+F{}", n)).unwrap();
        assert_eq!(hk.key.as_str(), &format!("F{}", n));
    }
}

#[test]
fn f25_is_rejected() {
    assert!(matches!(parse("Ctrl+F25"), Err(ParseError::UnknownToken(_))));
}

#[test]
fn named_keys() {
    assert_eq!(parse("Ctrl+Enter").unwrap().key.as_str(), "ENTER");
    assert_eq!(parse("Ctrl+Return").unwrap().key.as_str(), "ENTER");
    assert_eq!(parse("Ctrl+Esc").unwrap().key.as_str(), "ESCAPE");
    assert_eq!(parse("Ctrl+Tab").unwrap().key.as_str(), "TAB");
}

#[test]
fn duplicate_modifiers_collapse() {
    let hk = parse("Ctrl+Ctrl+A").unwrap();
    assert_eq!(hk.modifiers, MOD_CTRL);
}

#[test]
fn empty_input_errors() {
    assert_eq!(parse("").unwrap_err(), ParseError::Empty);
    assert_eq!(parse("   ").unwrap_err(), ParseError::Empty);
}

#[test]
fn only_modifiers_errors() {
    assert_eq!(parse("Ctrl+Shift").unwrap_err(), ParseError::MissingKey);
    assert_eq!(parse("Ctrl").unwrap_err(), ParseError::MissingKey);
}

#[test]
fn two_keys_errors() {
    assert_eq!(parse("Ctrl+A+B").unwrap_err(), ParseError::MultipleKeys);
}

#[test]
fn unknown_token_errors() {
    assert!(matches!(parse("Foo+Ctrl+A"), Err(ParseError::UnknownToken(t)) if t == "Foo"));
}

#[test]
fn empty_segment_errors() {
    assert!(matches!(parse("Ctrl++A"), Err(ParseError::UnknownToken(_))));
}

#[test]
fn format_roundtrips_ctrl_shift_space() {
    let hk = parse("Ctrl+Shift+Space").unwrap();
    assert_eq!(nudge::hotkey::format(&hk), "Ctrl+Shift+Space");
}

#[test]
fn format_orders_modifiers_canonically() {
    let hk = parse("Shift+Ctrl+A").unwrap();
    assert_eq!(nudge::hotkey::format(&hk), "Ctrl+Shift+A");
}

#[test]
fn format_keeps_f_keys_uppercase() {
    let hk = parse("ctrl+f5").unwrap();
    assert_eq!(nudge::hotkey::format(&hk), "Ctrl+F5");
}

#[test]
fn default_hotkey_is_ctrl_shift_space() {
    let hk = default_hotkey();
    assert_eq!(nudge::hotkey::format(&hk), "Ctrl+Shift+Space");
}

// ---- the recorder ----------------------------------------------------------

#[test]
fn letters_map_to_uppercase_token() {
    let letters = [
        "A", "B", "C", "D", "E", "F", "G", "H", "I", "J", "K", "L", "M", "N", "O", "P", "Q", "R",
        "S", "T", "U", "V", "W", "X", "Y", "Z",
    ];
    for (i, expected) in letters.iter().enumerate() {
        let hk = hotkey_from_egui(KeyModifiers::none(), RecorderKey::Letter(i as u8))
            .unwrap_or_else(|| panic!("letter {expected:?} must map"));
        assert_eq!(hk.key.as_str(), *expected, "letter {expected:?}");
        assert_eq!(hk.modifiers, 0, "no modifiers passed");
    }
}

#[test]
fn digits_map_to_token() {
    let digits = ["0", "1", "2", "3", "4", "5", "6", "7", "8", "9"];
    for (d, expected) in digits.iter().enumerate() {
        let hk = hotkey_from_egui(ctrl(), RecorderKey::Digit(d as u8)).unwrap();
        assert_eq!(hk.key.as_str(), *expected);
        assert_eq!(hk.modifiers, MOD_CTRL);
    }
}

#[test]
fn f_keys_map_to_token() {
    for n in 1..=24u8 {
        let hk = hotkey_from_egui(KeyModifiers::none(), RecorderKey::Function(n)).unwrap();
        assert_eq!(hk.key.as_str(), format!("F{n}"));
    }
}

#[test]
fn named_keys_map() {
    let named = [
        (RecorderKey::Space, "SPACE"),
        (RecorderKey::Enter, "ENTER"),
        (RecorderKey::Tab, "TAB"),
        (RecorderKey::Escape, "ESCAPE"),
        (RecorderKey::Backspace, "BACKSPACE"),
    ];
    for (k, expected) in named {
        let hk = hotkey_from_egui(KeyModifiers::none(), k).unwrap();
        assert_eq!(hk.key.as_str(), expected);
    }
}

#[test]
fn modifiers_compose() {
    let m = mods(true, false, true, false, false);
    let hk = hotkey_from_egui(m, RecorderKey::Letter(0)).unwrap();
    assert_eq!(hk.modifiers, MOD_CTRL | MOD_SHIFT);
    assert_eq!(hk.key.as_str(), "A");
}

#[test]
fn all_four_modifiers_compose() {
    let m = mods(true, true, true, true, true);
    let hk = hotkey_from_egui(m, RecorderKey::Letter(9)).unwrap();
    assert_eq!(hk.modifiers, MOD_CTRL | MOD_ALT | MOD_SHIFT | MOD_WIN);
    assert_eq!(hk.key.as_str(), "J");
}

#[test]
fn unsupported_key_returns_none() {
    for k in [RecorderKey::Other, RecorderKey::Function(25), RecorderKey::Function(0)] {
        assert!(hotkey_from_egui(ctrl(), k).is_none(), "{k:?} must be rejected");
    }
}

#[test]
fn roundtrip_via_format_and_parse() {
    let samples = [
        (mods(true, false, true, false, false), RecorderKey::Space),
        (mods(false, true, false, false, false), RecorderKey::Letter(9)),
        (KeyModifiers::none(), RecorderKey::Function(12)),
        (mods(true, true, false, false, false), RecorderKey::Digit(7)),
        (ctrl(), RecorderKey::Enter),
        (ctrl(), RecorderKey::Backspace),
    ];
    for (m, k) in samples {
        let hk = hotkey_from_egui(m, k).expect("supported");
        let text = nudge::hotkey::format(&hk);
        let parsed = parse(&text).expect("format() output must parse");
        assert_eq!(parsed, hk, "roundtrip failed for {text}");
    }
}

// ---- further cases -------------------------------------------

#[test]
fn parse_error_messages() {
    assert_eq!(ParseError::Empty.message(), "hotkey string is empty");
    assert!(parse("Ctrl+Shift").unwrap_err().message().len() > 0);
}

#[test]
fn f_key_with_plus_sign_or_leading_zero_is_canonicalised() {
    assert_eq!(parse("Ctrl+F05").unwrap().key.as_str(), "F5");
    assert_eq!(nudge::hotkey::format(&parse("alt+win+f24").unwrap()), "Alt+Win+F24");
}

#[test]
fn command_alone_does_not_set_win() {
    let hk = hotkey_from_egui(mods(false, false, false, false, true), RecorderKey::Letter(0)).unwrap();
    assert_eq!(hk.modifiers, 0);
}

#[test]
fn each_modifier_bit_follows_its_segments() {
    let h = parse(" control +  alt+q ").unwrap();
    assert_eq!(h.modifiers, MOD_CTRL | MOD_ALT);
    assert_eq!(h.key.as_str(), "Q");
    let h = parse("cmd+Meta+F7").unwrap();
    assert_eq!(h.modifiers, MOD_WIN);
    assert_eq!(h.key.as_str(), "F7");
    let h = parse("Super+SHIFT+ctrl+Alt+return").unwrap();
    assert_eq!(h.modifiers, MOD_CTRL | MOD_ALT | MOD_SHIFT | MOD_WIN);
    assert_eq!(h.key.as_str(), "ENTER");
}
