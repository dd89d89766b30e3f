//! Capture-side logic: turning raw events into records, mouse button
//! transitions, and global hotkey detection.

use vstd::prelude::*;

use crate::ipc::{DaemonCommand, HookKeyState, HookMessage, InputDeviceKind};
use crate::labels::{build_key_labels, key_labels, labels_view, should_skip_keyboard_event, skips, KeyPress, KeyboardEvent};
use crate::models::same_str;

verus! {

/// The transition of a key press.
pub open spec fn press_state(p: KeyPress) -> HookKeyState {
    match p {
        KeyPress::Down(_) => HookKeyState::Down,
        KeyPress::Up(_) => HookKeyState::Up,
    }
}

/// The record a keyboard event becomes: none when it is skipped or has no
/// label.
pub fn record_for_event(event: &KeyboardEvent) -> (r: Option<HookMessage>)
    ensures
        match r {
            None => skips(*event) || key_labels(*event).len() == 0,
            Some(m) => {
                &&& !skips(*event)
                &&& key_labels(*event).len() > 0
                &&& labels_view(m.labels@) == key_labels(*event)
                &&& m.device == InputDeviceKind::Keyboard
                &&& m.state == press_state(event.pressed)
                &&& m.vk_code == event.vk_code
                &&& m.scan_code == event.scan_code
                &&& m.flags == event.flags
            },
        },
{
    if should_skip_keyboard_event(event) {
        return None;
    }
    let labels = build_key_labels(event);
    if labels.len() == 0 {
        return None;
    }
    let state = match event.pressed {
        KeyPress::Down(_) => HookKeyState::Down,
        KeyPress::Up(_) => HookKeyState::Up,
    };
    Some(HookMessage {
        device: InputDeviceKind::Keyboard,
        labels,
        state,
        vk_code: event.vk_code,
        scan_code: event.scan_code,
        flags: event.flags,
    })
}

/// Label of mouse button `i` (0 left, 1 right, 2 middle, 3 and 4 the side
/// buttons).
pub open spec fn mouse_label(i: nat) -> Seq<char> {
    if i == 0 {
        "MOUSE1"@
    } else if i == 1 {
        "MOUSE2"@
    } else if i == 2 {
        "MOUSE3"@
    } else if i == 3 {
        "MOUSE4"@
    } else {
        "MOUSE5"@
    }
}

/// Transitions in button-flag bits `flags`, taking bits 0 to `k - 1` in order:
/// bit `2i` is button `i` going down, bit `2i + 1` the same button going up.
pub open spec fn mouse_transitions(flags: u32, k: nat) -> Seq<(Seq<char>, HookKeyState)>
    decreases k,
{
    if k == 0 {
        seq![]
    } else {
        let prev = mouse_transitions(flags, (k - 1) as nat);
        let bit = (k - 1) as nat;
        if (flags as nat / crate::ieee::two_pow(bit)) % 2 == 1 {
            prev.push((mouse_label(bit / 2), if bit % 2 == 0 { HookKeyState::Down } else { HookKeyState::Up }))
        } else {
            prev
        }
    }
}

/// Labelled transitions of a mouse button-flags word, in the fixed order
/// left down, left up, right down, right up, middle, then the two side buttons.
pub fn labels_for_mouse_button_transition(button_flags: u32) -> (r: Vec<(String, HookKeyState)>)
    ensures
        r@.map_values(|p: (String, HookKeyState)| (p.0@, p.1)) == mouse_transitions(button_flags, 10),
{
    let mut out: Vec<(String, HookKeyState)> = Vec::new();
    let mut rest: u32 = button_flags;
    let mut bit: u32 = 0;
    assert(crate::ieee::two_pow(0) == 1);
    assert(out@.map_values(|p: (String, HookKeyState)| (p.0@, p.1)) =~= mouse_transitions(button_flags, 0));
    while bit < 10
        invariant
            bit <= 10,
            rest as nat == button_flags as nat / crate::ieee::two_pow(bit as nat),
            out@.map_values(|p: (String, HookKeyState)| (p.0@, p.1)) == mouse_transitions(button_flags, bit as nat),
        decreases 10 - bit,
    {
        let ghost before = out@.map_values(|p: (String, HookKeyState)| (p.0@, p.1));
        if rest % 2 == 1 {
            let label = if bit / 2 == 0 {
                "MOUSE1".to_owned()
            } else if bit / 2 == 1 {
                "MOUSE2".to_owned()
            } else if bit / 2 == 2 {
                "MOUSE3".to_owned()
            } else if bit / 2 == 3 {
                "MOUSE4".to_owned()
            } else {
                "MOUSE5".to_owned()
            };
            let state = if bit % 2 == 0 {
                HookKeyState::Down
            } else {
                HookKeyState::Up
            };
            out.push((label, state));
            assert(out@.map_values(|p: (String, HookKeyState)| (p.0@, p.1)) =~= before.push((mouse_label((bit / 2) as nat), state)));
        }
        proof {
            crate::ieee::lemma_div_two_pow_step(button_flags as nat, bit as nat);
        }
        rest = rest / 2;
        bit = bit + 1;
    }
    out
}

/// The virtual-key code of a hotkey code name.
pub open spec fn code_name_vk(name: Seq<char>) -> Option<u32> {
    if name == "KeyA"@ {
        Some(65u32)
    } else
    if name == "KeyB"@ {
        Some(66u32)
    } else
    if name == "KeyC"@ {
        Some(67u32)
    } else
    if name == "KeyD"@ {
        Some(68u32)
    } else
    if name == "KeyE"@ {
        Some(69u32)
    } else
    if name == "KeyF"@ {
        Some(70u32)
    } else
    if name == "KeyG"@ {
        Some(71u32)
    } else
    if name == "KeyH"@ {
        Some(72u32)
    } else
    if name == "KeyI"@ {
        Some(73u32)
    } else
    if name == "KeyJ"@ {
        Some(74u32)
    } else
    if name == "KeyK"@ {
        Some(75u32)
    } else
    if name == "KeyL"@ {
        Some(76u32)
    } else
    if name == "KeyM"@ {
        Some(77u32)
    } else
    if name == "KeyN"@ {
        Some(78u32)
    } else
    if name == "KeyO"@ {
        Some(79u32)
    } else
    if name == "KeyP"@ {
        Some(80u32)
    } else
    if name == "KeyQ"@ {
        Some(81u32)
    } else
    if name == "KeyR"@ {
        Some(82u32)
    } else
    if name == "KeyS"@ {
        Some(83u32)
    } else
    if name == "KeyT"@ {
        Some(84u32)
    } else
    if name == "KeyU"@ {
        Some(85u32)
    } else
    if name == "KeyV"@ {
        Some(86u32)
    } else
    if name == "KeyW"@ {
        Some(87u32)
    } else
    if name == "KeyX"@ {
        Some(88u32)
    } else
    if name == "KeyY"@ {
        Some(89u32)
    } else
    if name == "KeyZ"@ {
        Some(90u32)
    } else
    if name == "Digit0"@ {
        Some(48u32)
    } else
    if name == "Digit1"@ {
        Some(49u32)
    } else
    if name == "Digit2"@ {
        Some(50u32)
    } else
    if name == "Digit3"@ {
        Some(51u32)
    } else
    if name == "Digit4"@ {
        Some(52u32)
    } else
    if name == "Digit5"@ {
        Some(53u32)
    } else
    if name == "Digit6"@ {
        Some(54u32)
    } else
    if name == "Digit7"@ {
        Some(55u32)
    } else
    if name == "Digit8"@ {
        Some(56u32)
    } else
    if name == "Digit9"@ {
        Some(57u32)
    } else
    if name == "F1"@ {
        Some(112u32)
    } else
    if name == "F2"@ {
        Some(113u32)
    } else
    if name == "F3"@ {
        Some(114u32)
    } else
    if name == "F4"@ {
        Some(115u32)
    } else
    if name == "F5"@ {
        Some(116u32)
    } else
    if name == "F6"@ {
        Some(117u32)
    } else
    if name == "F7"@ {
        Some(118u32)
    } else
    if name == "F8"@ {
        Some(119u32)
    } else
    if name == "F9"@ {
        Some(120u32)
    } else
    if name == "F10"@ {
        Some(121u32)
    } else
    if name == "F11"@ {
        Some(122u32)
    } else
    if name == "F12"@ {
        Some(123u32)
    } else
    if name == "F13"@ {
        Some(124u32)
    } else
    if name == "F14"@ {
        Some(125u32)
    } else
    if name == "F15"@ {
        Some(126u32)
    } else
    if name == "F16"@ {
        Some(127u32)
    } else
    if name == "F17"@ {
        Some(128u32)
    } else
    if name == "F18"@ {
        Some(129u32)
    } else
    if name == "F19"@ {
        Some(130u32)
    } else
    if name == "F20"@ {
        Some(131u32)
    } else
    if name == "F21"@ {
        Some(132u32)
    } else
    if name == "F22"@ {
        Some(133u32)
    } else
    if name == "F23"@ {
        Some(134u32)
    } else
    if name == "F24"@ {
        Some(135u32)
    } else
    if name == "Tab"@ {
        Some(9u32)
    } else
    if name == "Enter"@ {
        Some(13u32)
    } else
    if name == "Escape"@ {
        Some(27u32)
    } else
    if name == "Space"@ {
        Some(32u32)
    } else
    if name == "Backspace"@ {
        Some(8u32)
    } else
    if name == "Insert"@ {
        Some(45u32)
    } else
    if name == "Delete"@ {
        Some(46u32)
    } else
    if name == "Home"@ {
        Some(36u32)
    } else
    if name == "End"@ {
        Some(35u32)
    } else
    if name == "PageUp"@ {
        Some(33u32)
    } else
    if name == "PageDown"@ {
        Some(34u32)
    } else
    if name == "ArrowLeft"@ {
        Some(37u32)
    } else
    if name == "ArrowUp"@ {
        Some(38u32)
    } else
    if name == "ArrowRight"@ {
        Some(39u32)
    } else
    if name == "ArrowDown"@ {
        Some(40u32)
    } else
    if name == "Comma"@ {
        Some(188u32)
    } else
    if name == "Period"@ {
        Some(190u32)
    } else
    if name == "Slash"@ {
        Some(191u32)
    } else
    if name == "Semicolon"@ {
        Some(186u32)
    } else
    if name == "Quote"@ {
        Some(222u32)
    } else
    if name == "BracketLeft"@ {
        Some(219u32)
    } else
    if name == "BracketRight"@ {
        Some(221u32)
    } else
    if name == "Backslash"@ {
        Some(220u32)
    } else
    if name == "Backquote"@ {
        Some(192u32)
    } else
    if name == "Minus"@ {
        Some(189u32)
    } else
    if name == "Equal"@ {
        Some(187u32)
    } else
    {
        None
    }
}

/// The virtual-key code of a hotkey code name (`KeyA`, `Digit0`, `F1`,
/// `ArrowLeft`, ...), if it is one.
pub fn code_name_to_vk(name: &str) -> (r: Option<u32>)
    ensures
        r == code_name_vk(name@),
{
    if same_str(name, "KeyA") {
        return Some(65);
    }
    if same_str(name, "KeyB") {
        return Some(66);
    }
    if same_str(name, "KeyC") {
        return Some(67);
    }
    if same_str(name, "KeyD") {
        return Some(68);
    }
    if same_str(name, "KeyE") {
        return Some(69);
    }
    if same_str(name, "KeyF") {
        return Some(70);
    }
    if same_str(name, "KeyG") {
        return Some(71);
    }
    if same_str(name, "KeyH") {
        return Some(72);
    }
    if same_str(name, "KeyI") {
        return Some(73);
    }
    if same_str(name, "KeyJ") {
        return Some(74);
    }
    if same_str(name, "KeyK") {
        return Some(75);
    }
    if same_str(name, "KeyL") {
        return Some(76);
    }
    if same_str(name, "KeyM") {
        return Some(77);
    }
    if same_str(name, "KeyN") {
        return Some(78);
    }
    if same_str(name, "KeyO") {
        return Some(79);
    }
    if same_str(name, "KeyP") {
        return Some(80);
    }
    if same_str(name, "KeyQ") {
        return Some(81);
    }
    if same_str(name, "KeyR") {
        return Some(82);
    }
    if same_str(name, "KeyS") {
        return Some(83);
    }
    if same_str(name, "KeyT") {
        return Some(84);
    }
    if same_str(name, "KeyU") {
        return Some(85);
    }
    if same_str(name, "KeyV") {
        return Some(86);
    }
    if same_str(name, "KeyW") {
        return Some(87);
    }
    if same_str(name, "KeyX") {
        return Some(88);
    }
    if same_str(name, "KeyY") {
        return Some(89);
    }
    if same_str(name, "KeyZ") {
        return Some(90);
    }
    if same_str(name, "Digit0") {
        return Some(48);
    }
    if same_str(name, "Digit1") {
        return Some(49);
    }
    if same_str(name, "Digit2") {
        return Some(50);
    }
    if same_str(name, "Digit3") {
        return Some(51);
    }
    if same_str(name, "Digit4") {
        return Some(52);
    }
    if same_str(name, "Digit5") {
        return Some(53);
    }
    if same_str(name, "Digit6") {
        return Some(54);
    }
    if same_str(name, "Digit7") {
        return Some(55);
    }
    if same_str(name, "Digit8") {
        return Some(56);
    }
    if same_str(name, "Digit9") {
        return Some(57);
    }
    if same_str(name, "F1") {
        return Some(112);
    }
    if same_str(name, "F2") {
        return Some(113);
    }
    if same_str(name, "F3") {
        return Some(114);
    }
    if same_str(name, "F4") {
        return Some(115);
    }
    if same_str(name, "F5") {
        return Some(116);
    }
    if same_str(name, "F6") {
        return Some(117);
    }
    if same_str(name, "F7") {
        return Some(118);
    }
    if same_str(name, "F8") {
        return Some(119);
    }
    if same_str(name, "F9") {
        return Some(120);
    }
    if same_str(name, "F10") {
        return Some(121);
    }
    if same_str(name, "F11") {
        return Some(122);
    }
    if same_str(name, "F12") {
        return Some(123);
    }
    if same_str(name, "F13") {
        return Some(124);
    }
    if same_str(name, "F14") {
        return Some(125);
    }
    if same_str(name, "F15") {
        return Some(126);
    }
    if same_str(name, "F16") {
        return Some(127);
    }
    if same_str(name, "F17") {
        return Some(128);
    }
    if same_str(name, "F18") {
        return Some(129);
    }
    if same_str(name, "F19") {
        return Some(130);
    }
    if same_str(name, "F20") {
        return Some(131);
    }
    if same_str(name, "F21") {
        return Some(132);
    }
    if same_str(name, "F22") {
        return Some(133);
    }
    if same_str(name, "F23") {
        return Some(134);
    }
    if same_str(name, "F24") {
        return Some(135);
    }
    if same_str(name, "Tab") {
        return Some(9);
    }
    if same_str(name, "Enter") {
        return Some(13);
    }
    if same_str(name, "Escape") {
        return Some(27);
    }
    if same_str(name, "Space") {
        return Some(32);
    }
    if same_str(name, "Backspace") {
        return Some(8);
    }
    if same_str(name, "Insert") {
        return Some(45);
    }
    if same_str(name, "Delete") {
        return Some(46);
    }
    if same_str(name, "Home") {
        return Some(36);
    }
    if same_str(name, "End") {
        return Some(35);
    }
    if same_str(name, "PageUp") {
        return Some(33);
    }
    if same_str(name, "PageDown") {
        return Some(34);
    }
    if same_str(name, "ArrowLeft") {
        return Some(37);
    }
    if same_str(name, "ArrowUp") {
        return Some(38);
    }
    if same_str(name, "ArrowRight") {
        return Some(39);
    }
    if same_str(name, "ArrowDown") {
        return Some(40);
    }
    if same_str(name, "Comma") {
        return Some(188);
    }
    if same_str(name, "Period") {
        return Some(190);
    }
    if same_str(name, "Slash") {
        return Some(191);
    }
    if same_str(name, "Semicolon") {
        return Some(186);
    }
    if same_str(name, "Quote") {
        return Some(222);
    }
    if same_str(name, "BracketLeft") {
        return Some(219);
    }
    if same_str(name, "BracketRight") {
        return Some(221);
    }
    if same_str(name, "Backslash") {
        return Some(220);
    }
    if same_str(name, "Backquote") {
        return Some(192);
    }
    if same_str(name, "Minus") {
        return Some(189);
    }
    if same_str(name, "Equal") {
        return Some(187);
    }
    None
}

/// A global hotkey: a base key by code name (empty disables it) and the
/// modifier classes that must be held.
#[derive(Debug)]
pub struct HotkeyBinding {
    pub key: String,
    pub ctrl: bool,
    pub shift: bool,
    pub alt: bool,
    pub meta: bool,
}

/// Which of the eight modifier half-keys are held.
#[derive(Debug, Clone, Copy, PartialEq, Eq, Structural)]
pub struct ModifierState {
    pub left_ctrl: bool,
    pub right_ctrl: bool,
    pub left_shift: bool,
    pub right_shift: bool,
    pub left_alt: bool,
    pub right_alt: bool,
    pub left_meta: bool,
    pub right_meta: bool,
}

/// Virtual-key codes of the eight modifier half-keys.
pub open spec fn is_modifier_vk(vk: u32) -> bool {
    vk == 0xA2 || vk == 0xA3 || vk == 0xA0 || vk == 0xA1 || vk == 0xA4 || vk == 0xA5 || vk == 0x5B
        || vk == 0x5C
}

/// The modifier state after half-key `vk` goes down (`down`) or up.
pub open spec fn modifiers_after(m: ModifierState, vk: u32, down: bool) -> ModifierState {
    if vk == 0xA2 {
        ModifierState { left_ctrl: down, ..m }
    } else if vk == 0xA3 {
        ModifierState { right_ctrl: down, ..m }
    } else if vk == 0xA0 {
        ModifierState { left_shift: down, ..m }
    } else if vk == 0xA1 {
        ModifierState { right_shift: down, ..m }
    } else if vk == 0xA4 {
        ModifierState { left_alt: down, ..m }
    } else if vk == 0xA5 {
        ModifierState { right_alt: down, ..m }
    } else if vk == 0x5B {
        ModifierState { left_meta: down, ..m }
    } else if vk == 0x5C {
        ModifierState { right_meta: down, ..m }
    } else {
        m
    }
}

/// The held modifier classes are exactly those the binding asks for.
pub open spec fn modifiers_match(m: ModifierState, b: HotkeyBinding) -> bool {
    &&& (m.left_ctrl || m.right_ctrl) == b.ctrl
    &&& (m.left_shift || m.right_shift) == b.shift
    &&& (m.left_alt || m.right_alt) == b.alt
    &&& (m.left_meta || m.right_meta) == b.meta
}

impl ModifierState {
    pub fn none_held() -> (r: ModifierState)
        ensures
            !r.left_ctrl && !r.right_ctrl && !r.left_shift && !r.right_shift && !r.left_alt
                && !r.right_alt && !r.left_meta && !r.right_meta,
    {
        ModifierState {
            left_ctrl: false,
            right_ctrl: false,
            left_shift: false,
            right_shift: false,
            left_alt: false,
            right_alt: false,
            left_meta: false,
            right_meta: false,
        }
    }

    /// Records a transition of key `vk`.
    pub fn update(&mut self, vk: u32, down: bool)
        ensures
            *final(self) == modifiers_after(*old(self), vk, down),
    {
        if vk == 0xA2 {
            self.left_ctrl = down;
        } else if vk == 0xA3 {
            self.right_ctrl = down;
        } else if vk == 0xA0 {
            self.left_shift = down;
        } else if vk == 0xA1 {
            self.right_shift = down;
        } else if vk == 0xA4 {
            self.left_alt = down;
        } else if vk == 0xA5 {
            self.right_alt = down;
        } else if vk == 0x5B {
            self.left_meta = down;
        } else if vk == 0x5C {
            self.right_meta = down;
        }
    }

    /// Whether the held modifier classes are exactly those `binding` asks for.
    pub fn matches(&self, binding: &HotkeyBinding) -> (r: bool)
        ensures
            r == modifiers_match(*self, *binding),
    {
        (self.left_ctrl || self.right_ctrl) == binding.ctrl && (self.left_shift
            || self.right_shift) == binding.shift && (self.left_alt || self.right_alt)
            == binding.alt && (self.left_meta || self.right_meta) == binding.meta
    }
}

/// Tracks modifiers across records and reports when the toggle-overlay
/// hotkey fires: on a press of its base key (not a modifier) while exactly
/// its modifier classes are held. The command goes out before the record.
pub fn detect_hotkey(
    mods: &mut ModifierState,
    binding: &HotkeyBinding,
    vk_code: Option<u32>,
    state: HookKeyState,
) -> (r: Option<DaemonCommand>)
    ensures
        *final(mods) == (match vk_code {
            Some(vk) => modifiers_after(*old(mods), vk, state == HookKeyState::Down),
            None => *old(mods),
        }),
        r.is_some() ==> r == Some(DaemonCommand::ToggleOverlay),
        r.is_some() <==> (state == HookKeyState::Down && vk_code.is_some() && !is_modifier_vk(
            vk_code.unwrap(),
        ) && code_name_vk(binding.key@) == vk_code && modifiers_match(*old(mods), *binding)),
{
    let vk = match vk_code {
        Some(vk) => vk,
        None => {
            return None;
        },
    };
    let down = match state {
        HookKeyState::Down => true,
        HookKeyState::Up => false,
    };
    let modifier = vk == 0xA2 || vk == 0xA3 || vk == 0xA0 || vk == 0xA1 || vk == 0xA4 || vk
        == 0xA5 || vk == 0x5B || vk == 0x5C;
    let fires = down && !modifier && match code_name_to_vk(binding.key.as_str()) {
        Some(base) => base == vk,
        None => false,
    } && mods.matches(binding);
    mods.update(vk, down);
    if fires {
        Some(DaemonCommand::ToggleOverlay)
    } else {
        None
    }
}

/// Raw-input flag bit marking an extended (E0-prefixed) key.
pub const RI_KEY_E0: u32 = 0x02;

/// Whether raw-input flags mark an extended key.
pub open spec fn raw_extended(raw_flags: u32) -> bool {
    (raw_flags / 2) % 2 == 1
}

/// The sided virtual-key code of a raw event: the neutral Shift, Control and
/// Menu codes become their left or right forms (Shift by scan code 54, the
/// others by the extended flag); other codes stay.
pub open spec fn sided_vk(vk: u32, scan_code: u32, raw_flags: u32) -> u32 {
    if vk == 0x10 {
        if scan_code == 0x36 {
            0xA1
        } else {
            0xA0
        }
    } else if vk == 0x11 {
        if raw_extended(raw_flags) {
            0xA3
        } else {
            0xA2
        }
    } else if vk == 0x12 {
        if raw_extended(raw_flags) {
            0xA5
        } else {
            0xA4
        }
    } else {
        vk
    }
}

/// Normalises a raw-input key event for labelling: the sided virtual-key code,
/// and hook-style flags whose extended bit mirrors the raw extended flag.
pub fn normalize_raw_key(vk: u32, scan_code: u32, raw_flags: u32) -> (r: (u32, u32))
    ensures
        r.0 == sided_vk(vk, scan_code, raw_flags),
        r.1 == (if raw_extended(raw_flags) {
            crate::labels::LLKHF_EXTENDED
        } else {
            0
        }),
{
    let extended = (raw_flags / 2) % 2 == 1;
    let sided = if vk == 0x10 {
        if scan_code == 0x36 {
            0xA1
        } else {
            0xA0
        }
    } else if vk == 0x11 {
        if extended {
            0xA3
        } else {
            0xA2
        }
    } else if vk == 0x12 {
        if extended {
            0xA5
        } else {
            0xA4
        }
    } else {
        vk
    };
    let flags = if extended {
        crate::labels::LLKHF_EXTENDED
    } else {
        0
    };
    (sided, flags)
}

} // verus!
