use dmnote::capture::{
    normalize_raw_key, code_name_to_vk, detect_hotkey, labels_for_mouse_button_transition, record_for_event,
    HotkeyBinding, ModifierState,
};
use dmnote::ipc::{DaemonCommand, HookKeyState, InputDeviceKind};
use dmnote::labels::{IsKeyboardEventInjected, KeyPress, KeyboardEvent, KeyboardKey};

fn key_event(vk: u32, scan: u32, down: bool) -> KeyboardEvent {
    KeyboardEvent {
        pressed: if down { KeyPress::Down(false) } else { KeyPress::Up(false) },
        key: Some(KeyboardKey::from_vk(vk)),
        vk_code: Some(vk),
        scan_code: Some(scan),
        flags: Some(0),
        is_injected: Some(IsKeyboardEventInjected::NotInjected),
    }
}

fn binding(key: &str, ctrl: bool, shift: bool) -> HotkeyBinding {
    HotkeyBinding { key: key.to_string(), ctrl, shift, alt: false, meta: false }
}

#[test]
fn keyboard_event_becomes_record() {
    let m = record_for_event(&key_event(0x41, 30, true)).unwrap();
    assert_eq!(m.labels, vec!["A"]);
    assert_eq!(m.state, HookKeyState::Down);
    assert_eq!(m.device, InputDeviceKind::Keyboard);
    assert_eq!(m.vk_code, Some(0x41));
    assert_eq!(m.scan_code, Some(30));
    let up = record_for_event(&key_event(0x41, 30, false)).unwrap();
    assert_eq!(up.state, HookKeyState::Up);
}

#[test]
fn skipped_or_unlabelled_events_give_no_record() {
    let mut e = key_event(0xA0, 42, true);
    e.is_injected = Some(IsKeyboardEventInjected::Injected);
    assert!(record_for_event(&e).is_none());
    let blank = KeyboardEvent {
        pressed: KeyPress::Down(false),
        key: None,
        vk_code: None,
        scan_code: None,
        flags: None,
        is_injected: None,
    };
    assert!(record_for_event(&blank).is_none());
}

#[test]
fn mouse_flags_expand_in_fixed_order() {
    let all = labels_for_mouse_button_transition(0x3FF);
    let got: Vec<(&str, HookKeyState)> = all.iter().map(|(l, s)| (l.as_str(), *s)).collect();
    assert_eq!(
        got,
        vec![
            ("MOUSE1", HookKeyState::Down),
            ("MOUSE1", HookKeyState::Up),
            ("MOUSE2", HookKeyState::Down),
            ("MOUSE2", HookKeyState::Up),
            ("MOUSE3", HookKeyState::Down),
            ("MOUSE3", HookKeyState::Up),
            ("MOUSE4", HookKeyState::Down),
            ("MOUSE4", HookKeyState::Up),
            ("MOUSE5", HookKeyState::Down),
            ("MOUSE5", HookKeyState::Up),
        ]
    );
    let some = labels_for_mouse_button_transition(0x0004 | 0x0200);
    assert_eq!(some, vec![("MOUSE2".to_string(), HookKeyState::Down), ("MOUSE5".to_string(), HookKeyState::Up)]);
    assert!(labels_for_mouse_button_transition(0x400).is_empty());
}

#[test]
fn code_names_map_to_virtual_keys() {
    assert_eq!(code_name_to_vk("KeyA"), Some(0x41));
    assert_eq!(code_name_to_vk("Digit9"), Some(0x39));
    assert_eq!(code_name_to_vk("F24"), Some(0x87));
    assert_eq!(code_name_to_vk("ArrowDown"), Some(0x28));
    assert_eq!(code_name_to_vk("Equal"), Some(0xBB));
    assert_eq!(code_name_to_vk(""), None);
    assert_eq!(code_name_to_vk("keya"), None);
}

#[test]
fn hotkey_fires_only_with_exact_modifiers() {
    let b = binding("KeyO", true, true);
    let mut mods = ModifierState::none_held();
    assert_eq!(detect_hotkey(&mut mods, &b, Some(0x4F), HookKeyState::Down), None);
    assert_eq!(detect_hotkey(&mut mods, &b, Some(0xA2), HookKeyState::Down), None);
    assert_eq!(detect_hotkey(&mut mods, &b, Some(0x4F), HookKeyState::Down), None);
    assert_eq!(detect_hotkey(&mut mods, &b, Some(0xA1), HookKeyState::Down), None);
    assert_eq!(detect_hotkey(&mut mods, &b, Some(0x4F), HookKeyState::Down), Some(DaemonCommand::ToggleOverlay));
    assert_eq!(detect_hotkey(&mut mods, &b, Some(0x4F), HookKeyState::Up), None);
    assert_eq!(detect_hotkey(&mut mods, &b, Some(0xA4), HookKeyState::Down), None);
    assert_eq!(detect_hotkey(&mut mods, &b, Some(0x4F), HookKeyState::Down), None);
    assert_eq!(detect_hotkey(&mut mods, &b, Some(0xA4), HookKeyState::Up), None);
    assert_eq!(detect_hotkey(&mut mods, &b, Some(0x4F), HookKeyState::Down), Some(DaemonCommand::ToggleOverlay));
    assert!(mods.left_ctrl && mods.right_shift && !mods.left_alt);
}

#[test]
fn empty_key_disables_hotkey() {
    let b = binding("", false, false);
    let mut mods = ModifierState::none_held();
    assert_eq!(detect_hotkey(&mut mods, &b, Some(0x4F), HookKeyState::Down), None);
    assert_eq!(detect_hotkey(&mut mods, &b, None, HookKeyState::Down), None);
}

#[test]
fn raw_keys_are_sided_and_flagged() {
    assert_eq!(normalize_raw_key(0x10, 0x2A, 0), (0xA0, 0));
    assert_eq!(normalize_raw_key(0x10, 0x36, 0), (0xA1, 0));
    assert_eq!(normalize_raw_key(0x11, 0x1D, 2), (0xA3, 1));
    assert_eq!(normalize_raw_key(0x11, 0x1D, 0), (0xA2, 0));
    assert_eq!(normalize_raw_key(0x12, 0x38, 3), (0xA5, 1));
    assert_eq!(normalize_raw_key(0x12, 0x38, 1), (0xA4, 0));
    assert_eq!(normalize_raw_key(0x41, 0x1E, 0), (0x41, 0));
    assert_eq!(normalize_raw_key(0x0D, 0x1C, 2), (0x0D, 1));
}
