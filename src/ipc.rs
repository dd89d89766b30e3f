//! Records and commands that the capture daemon sends to the host.

use vstd::prelude::*;
use vstd::string::StringSliceAdditionalSpecFns;
use vstd::utf8::{encode_utf8, encode_utf8_valid_utf8, is_char_boundary, valid_utf8};

verus! {

/// Key transition of a record.
#[derive(Debug, Copy, Clone, PartialEq, Eq, Structural)]
pub enum HookKeyState {
    Down,
    Up,
}

/// Device a record came from.
#[derive(Debug, Copy, Clone, PartialEq, Eq, Structural)]
pub enum InputDeviceKind {
    Keyboard,
    Mouse,
    Gamepad,
    Unknown,
}

/// A command sent on the record stream.
#[derive(Debug, Copy, Clone, PartialEq, Eq, Structural)]
pub enum DaemonCommand {
    ToggleOverlay,
    ToggleOverlayLock,
    ToggleAlwaysOnTop,
}

/// One input record: its labels, primary first, and the transition.
#[derive(Debug)]
pub struct HookMessage {
    pub device: InputDeviceKind,
    pub labels: Vec<String>,
    pub state: HookKeyState,
    pub vk_code: Option<u32>,
    pub scan_code: Option<u32>,
    pub flags: Option<u32>,
}

impl HookKeyState {
    /// The word the record stream uses for the transition.
    pub fn as_str(&self) -> (r: &'static str)
        ensures
            r@ == (match self {
                HookKeyState::Down => "DOWN"@,
                HookKeyState::Up => "UP"@,
            }),
    {
        match self {
            HookKeyState::Down => "DOWN",
            HookKeyState::Up => "UP",
        }
    }
}

impl InputDeviceKind {
    /// The word the record stream uses for the device.
    pub fn as_str(&self) -> (r: &'static str)
        ensures
            r@ == (match self {
                InputDeviceKind::Keyboard => "keyboard"@,
                InputDeviceKind::Mouse => "mouse"@,
                InputDeviceKind::Gamepad => "gamepad"@,
                InputDeviceKind::Unknown => "unknown"@,
            }),
    {
        match self {
            InputDeviceKind::Keyboard => "keyboard",
            InputDeviceKind::Mouse => "mouse",
            InputDeviceKind::Gamepad => "gamepad",
            InputDeviceKind::Unknown => "unknown",
        }
    }
}

/// Transition of a line in the short legacy form `D:<label>` / `U:<label>`,
/// read on its UTF-8 bytes: at least three bytes with a colon second; `D`
/// first is a press, anything else a release.
pub open spec fn legacy_state(bytes: Seq<u8>) -> Option<HookKeyState> {
    if bytes.len() >= 3 && bytes[1] == 0x3Au8 {
        Some(
            if bytes[0] == 0x44u8 {
                HookKeyState::Down
            } else {
                HookKeyState::Up
            },
        )
    } else {
        None
    }
}

proof fn lemma_colon_second_boundary(bytes: Seq<u8>)
    requires
        valid_utf8(bytes),
        bytes.len() >= 3,
        bytes[1] == 0x3Au8,
    ensures
        is_char_boundary(bytes, 2),
{
    reveal_with_fuel(valid_utf8, 3);
    reveal_with_fuel(is_char_boundary, 3);
}

/// Reads a line in the short legacy form: the keyboard record of its single
/// label, the bytes after the colon. Other lines give nothing.
pub fn parse_legacy_line(line: &str) -> (r: Option<HookMessage>)
    ensures
        match legacy_state(line.spec_bytes()) {
            None => r.is_none(),
            Some(state) => {
                &&& r.is_some()
                &&& r.unwrap().state == state
                &&& r.unwrap().device == InputDeviceKind::Keyboard
                &&& r.unwrap().labels@.len() == 1
                &&& encode_utf8(r.unwrap().labels@[0]@) == line.spec_bytes().subrange(
                    2,
                    line.spec_bytes().len() as int,
                )
                &&& r.unwrap().vk_code.is_none()
                &&& r.unwrap().scan_code.is_none()
                &&& r.unwrap().flags.is_none()
            },
        },
{
    let bytes = line.as_bytes();
    if bytes.len() < 3 || bytes[1] != 0x3A {
        return None;
    }
    proof {
        encode_utf8_valid_utf8(line@);
        lemma_colon_second_boundary(line.spec_bytes());
    }
    let state = if bytes[0] == 0x44 {
        HookKeyState::Down
    } else {
        HookKeyState::Up
    };
    let (_, rest) = line.split_at(2);
    let label = rest.to_owned();
    let labels = vec![label];
    Some(
        HookMessage {
            device: InputDeviceKind::Keyboard,
            labels,
            state,
            vk_code: None,
            scan_code: None,
            flags: None,
        },
    )
}

} // verus!
