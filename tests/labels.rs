use dmnote::labels::{
    build_key_labels, keyboard_key_to_global, numpad_override_label, other_key_labels,
    should_skip_keyboard_event, IsKeyboardEventInjected, KeyPress, KeyboardEvent, KeyboardKey,
};

fn event(vk: Option<u32>, scan: Option<u32>, flags: Option<u32>) -> KeyboardEvent {
    KeyboardEvent {
        pressed: KeyPress::Down(false),
        key: vk.map(KeyboardKey::from_vk),
        vk_code: vk,
        scan_code: scan,
        flags,
        is_injected: Some(IsKeyboardEventInjected::NotInjected),
    }
}

#[test]
fn right_alt_and_han_eng_map_to_twenty_one() {
    assert_eq!(build_key_labels(&event(Some(0xA5), Some(56), Some(1))), vec!["21", "RIGHT ALT"]);
    assert_eq!(build_key_labels(&event(Some(0x15), None, None)), vec!["21", "RIGHT ALT"]);
}

#[test]
fn numpad_scan_codes_need_extended_flag_off() {
    assert_eq!(build_key_labels(&event(Some(0x25), Some(75), Some(0))), vec!["NUMPAD 4"]);
    assert_eq!(build_key_labels(&event(Some(0x25), Some(75), Some(1))), vec!["LEFT ARROW"]);
    assert_eq!(build_key_labels(&event(Some(0x24), Some(71), None)), vec!["NUMPAD 7"]);
    assert_eq!(build_key_labels(&event(Some(0x2E), Some(83), Some(0))), vec!["NUMPAD DELETE"]);
    assert_eq!(numpad_override_label(&event(None, Some(82), None)), Some("NUMPAD 0"));
    assert_eq!(numpad_override_label(&event(None, Some(30), None)), None);
}

#[test]
fn numpad_return_needs_extended_flag_on() {
    assert_eq!(build_key_labels(&event(Some(0x0D), Some(28), Some(1))), vec!["NUMPAD RETURN"]);
    assert_eq!(build_key_labels(&event(Some(0x0D), Some(28), Some(0))), vec!["RETURN", "NUMPAD RETURN"]);
}

#[test]
fn table_keeps_legacy_aliases() {
    assert_eq!(build_key_labels(&event(Some(0x41), Some(30), None)), vec!["A"]);
    assert_eq!(build_key_labels(&event(Some(0xA3), Some(29), Some(1))), vec!["25", "RIGHT CTRL"]);
    assert_eq!(build_key_labels(&event(Some(0x5B), Some(91), Some(1))), vec!["91", "LEFT WINDOWS"]);
    assert_eq!(build_key_labels(&event(Some(0xBE), Some(52), None)), vec!["DOT", "PERIOD"]);
    assert_eq!(keyboard_key_to_global(KeyboardKey::F24), vec!["F24"]);
    assert!(keyboard_key_to_global(KeyboardKey::InvalidKeyCodeReceived).is_empty());
}

#[test]
fn unknown_codes_use_fixed_names_or_decimal() {
    assert_eq!(other_key_labels(187), vec!["EQUALS", "="]);
    assert_eq!(other_key_labels(189), vec!["MINUS", "-"]);
    assert_eq!(other_key_labels(93), vec!["CONTEXT MENU", "APPS"]);
    assert_eq!(other_key_labels(19), vec!["PAUSE"]);
    assert_eq!(other_key_labels(255), vec!["PAUSE"]);
    assert_eq!(other_key_labels(35), vec!["END"]);
    assert_eq!(other_key_labels(7), vec!["7"]);
    assert_eq!(other_key_labels(4_000_000_000), vec!["4000000000"]);
    assert_eq!(build_key_labels(&event(Some(0x23), Some(79), Some(1))), vec!["END"]);
    assert_eq!(build_key_labels(&event(Some(250), None, None)), vec!["250"]);
}

#[test]
fn without_a_key_the_code_is_the_label() {
    let e = KeyboardEvent {
        pressed: KeyPress::Up(false),
        key: None,
        vk_code: None,
        scan_code: Some(123),
        flags: None,
        is_injected: None,
    };
    assert_eq!(build_key_labels(&e), vec!["123"]);
    let none = KeyboardEvent { scan_code: None, ..e };
    assert!(build_key_labels(&none).is_empty());
}

#[test]
fn labelling_is_stable() {
    let e = event(Some(0x53), Some(31), None);
    let a = build_key_labels(&e);
    let b = build_key_labels(&e);
    assert_eq!(a, b);
    assert_eq!(a[0], "S");
}

#[test]
fn injected_and_ime_shift_are_skipped() {
    let mut e = event(Some(0xA0), Some(42), None);
    assert!(!should_skip_keyboard_event(&e));
    e.is_injected = Some(IsKeyboardEventInjected::Injected);
    assert!(should_skip_keyboard_event(&e));
    let ime = event(Some(0x10), Some(554), None);
    assert!(should_skip_keyboard_event(&ime));
    let mut a = event(Some(0x41), Some(554), None);
    assert!(!should_skip_keyboard_event(&a));
    a.is_injected = Some(IsKeyboardEventInjected::Injected);
    assert!(should_skip_keyboard_event(&a));
}

#[test]
fn virtual_key_table_names_keys() {
    assert_eq!(KeyboardKey::from_vk(0x41), KeyboardKey::A);
    assert_eq!(KeyboardKey::from_vk(0x87), KeyboardKey::F24);
    assert_eq!(KeyboardKey::from_vk(0x69), KeyboardKey::Numpad9);
    assert_eq!(KeyboardKey::from_vk(35), KeyboardKey::Other(35));
}
