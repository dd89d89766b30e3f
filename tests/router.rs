use dmnote::ipc::{parse_legacy_line, HookKeyState, HookMessage, InputDeviceKind};
use dmnote::labels::{build_key_labels, IsKeyboardEventInjected, KeyPress, KeyboardEvent, KeyboardKey};
use dmnote::router::{match_candidate, route_record, ActiveKeys, KeyCounters, RawInputSubscribers};

fn strings(v: &[&str]) -> Vec<String> {
    v.iter().map(|s| s.to_string()).collect()
}

fn record(labels: &[&str], state: HookKeyState) -> HookMessage {
    HookMessage {
        device: InputDeviceKind::Keyboard,
        labels: strings(labels),
        state,
        vk_code: None,
        scan_code: None,
        flags: None,
    }
}

#[test]
fn first_configured_label_matches() {
    let valid = strings(&["RIGHT ALT", "21", "A"]);
    assert_eq!(match_candidate(&valid, &strings(&["21", "RIGHT ALT"])), Some("21".to_string()));
    assert_eq!(match_candidate(&valid, &strings(&["Q", "A"])), Some("A".to_string()));
    assert_eq!(match_candidate(&valid, &strings(&["Q"])), None);
    assert_eq!(match_candidate(&valid, &Vec::new()), None);
}

#[test]
fn right_alt_event_reaches_engine_as_twenty_one() {
    let e = KeyboardEvent {
        pressed: KeyPress::Down(false),
        key: Some(KeyboardKey::RightAlt),
        vk_code: Some(0xA5),
        scan_code: Some(56),
        flags: None,
        is_injected: Some(IsKeyboardEventInjected::NotInjected),
    };
    let labels = build_key_labels(&e);
    let msg = HookMessage {
        device: InputDeviceKind::Keyboard,
        labels,
        state: HookKeyState::Down,
        vk_code: Some(0xA5),
        scan_code: Some(56),
        flags: None,
    };
    let mut active = ActiveKeys::new();
    let mut counters = KeyCounters::new(true);
    let valid = strings(&["21", "A"]);
    let r = route_record(&mut active, &mut counters, "4key", &valid, 0, &msg);
    assert_eq!(r.key, Some("21".to_string()));
    assert_eq!(r.note_event, Some(HookKeyState::Down));
    assert!(!r.broadcast_raw);
}

#[test]
fn autorepeat_press_is_suppressed_and_release_pairs() {
    let mut active = ActiveKeys::new();
    let mut counters = KeyCounters::new(true);
    let valid = strings(&["A"]);
    let down = record(&["A"], HookKeyState::Down);
    let up = record(&["A"], HookKeyState::Up);
    assert_eq!(route_record(&mut active, &mut counters, "4key", &valid, 1, &down).note_event, Some(HookKeyState::Down));
    let again = route_record(&mut active, &mut counters, "4key", &valid, 1, &down);
    assert_eq!(again.note_event, None);
    assert!(again.broadcast_raw);
    assert_eq!(route_record(&mut active, &mut counters, "4key", &valid, 1, &up).note_event, Some(HookKeyState::Up));
    assert_eq!(route_record(&mut active, &mut counters, "4key", &valid, 1, &up).note_event, None);
    assert_eq!(route_record(&mut active, &mut counters, "4key", &valid, 1, &down).note_event, Some(HookKeyState::Down));
}

#[test]
fn unmatched_record_is_only_broadcast() {
    let mut active = ActiveKeys::new();
    let mut counters = KeyCounters::new(true);
    let r = route_record(&mut active, &mut counters, "4key", &strings(&["A"]), 2, &record(&["B"], HookKeyState::Down));
    assert!(r.broadcast_raw);
    assert_eq!(r.key, None);
    assert_eq!(r.note_event, None);
}

#[test]
fn modes_are_held_separately() {
    let mut active = ActiveKeys::new();
    let mut counters = KeyCounters::new(true);
    assert!(active.register_key_down("4key", "A"));
    assert!(active.register_key_down("5key", "A"));
    assert!(!active.register_key_down("4key", "A"));
    assert!(active.register_key_up("4key", "A"));
    assert!(!active.register_key_up("4key", "A"));
    assert!(!active.register_key_down("5key", "A"));
    active.clear_active_keys();
    assert!(active.register_key_down("5key", "A"));
}

#[test]
fn subscriber_count_never_goes_below_zero() {
    let mut s = RawInputSubscribers::new();
    assert_eq!(s.unsubscribe_raw_input(), 0);
    assert_eq!(s.subscribe_raw_input(), 1);
    assert_eq!(s.subscribe_raw_input(), 2);
    assert_eq!(s.unsubscribe_raw_input(), 1);
    assert_eq!(s.raw_input_subscriber_count(), 1);
}

#[test]
fn accepted_presses_are_counted_per_mode_and_key() {
    let mut active = ActiveKeys::new();
    let mut counters = KeyCounters::new(true);
    let valid = strings(&["A", "B"]);
    let down_a = record(&["A"], HookKeyState::Down);
    let up_a = record(&["A"], HookKeyState::Up);
    assert_eq!(route_record(&mut active, &mut counters, "4key", &valid, 0, &down_a).count, Some(1));
    assert_eq!(route_record(&mut active, &mut counters, "4key", &valid, 0, &down_a).count, None);
    assert_eq!(route_record(&mut active, &mut counters, "4key", &valid, 0, &up_a).count, None);
    assert_eq!(route_record(&mut active, &mut counters, "4key", &valid, 0, &down_a).count, Some(2));
    assert_eq!(counters.count("4key", "A"), 2);
    assert_eq!(counters.count("4key", "B"), 0);
    assert_eq!(counters.count("5key", "A"), 0);
    counters.reset_mode_counters("4key");
    assert_eq!(counters.count("4key", "A"), 0);
}

#[test]
fn counting_off_counts_nothing() {
    let mut counters = KeyCounters::new(false);
    assert_eq!(counters.increment_key_counter("4key", "A"), None);
    assert_eq!(counters.count("4key", "A"), 0);
    let mut on = KeyCounters::new(true);
    assert_eq!(on.increment_key_counter("4key", "A"), Some(1));
    assert_eq!(on.increment_key_counter("5key", "A"), Some(1));
    assert_eq!(on.increment_key_counter("4key", "A"), Some(2));
    on.reset_mode_counters("5key");
    assert_eq!(on.count("4key", "A"), 2);
    assert_eq!(on.count("5key", "A"), 0);
}

#[test]
fn legacy_short_lines_become_records() {
    let down = parse_legacy_line("D:LEFT SHIFT").unwrap();
    assert_eq!(down.labels, vec!["LEFT SHIFT"]);
    assert_eq!(down.state, HookKeyState::Down);
    assert_eq!(down.device, InputDeviceKind::Keyboard);
    assert_eq!(down.vk_code, None);
    let up = parse_legacy_line("U:A").unwrap();
    assert_eq!(up.labels, vec!["A"]);
    assert_eq!(up.state, HookKeyState::Up);
    assert_eq!(parse_legacy_line("X:한").unwrap().labels, vec!["한"]);
    assert!(parse_legacy_line("D:").is_none());
    assert!(parse_legacy_line("DA").is_none());
    assert!(parse_legacy_line("DD:A").is_none());
    assert!(parse_legacy_line("").is_none());
}
