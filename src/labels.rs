//! Key labels: the canonical names that tie captured input to configured
//! tracks.

use vstd::prelude::*;

verus! {

/// Extended-key bit of low-level hook flags.
pub const LLKHF_EXTENDED: u32 = 0x01;

/// Whether the operating system marked an event as injected.
#[derive(Debug, Clone, Copy, PartialEq, Eq, Structural)]
pub enum IsKeyboardEventInjected {
    Injected,
    NotInjected,
}

/// Key transition.
#[derive(Debug, Clone, Copy, PartialEq, Eq, Structural)]
pub enum KeyPress {
    Down(bool),
    Up(bool),
}

/// Keys the capture layer tells apart.
#[derive(Debug, Clone, Copy, PartialEq, Eq, Structural)]
pub enum KeyboardKey {
    A,
    B,
    C,
    D,
    E,
    F,
    G,
    H,
    I,
    J,
    K,
    L,
    M,
    N,
    O,
    P,
    Q,
    R,
    S,
    T,
    U,
    V,
    W,
    X,
    Y,
    Z,
    Number0,
    Number1,
    Number2,
    Number3,
    Number4,
    Number5,
    Number6,
    Number7,
    Number8,
    Number9,
    LeftAlt,
    RightAlt,
    LeftShift,
    RightShift,
    LeftControl,
    RightControl,
    BackSpace,
    Tab,
    Enter,
    Escape,
    Space,
    PageUp,
    PageDown,
    Home,
    ArrowLeft,
    ArrowUp,
    ArrowRight,
    ArrowDown,
    Print,
    PrintScreen,
    Insert,
    Delete,
    LeftWindows,
    RightWindows,
    Comma,
    Period,
    Slash,
    SemiColon,
    Apostrophe,
    LeftBrace,
    BackwardSlash,
    RightBrace,
    Grave,
    Add,
    Subtract,
    Decimal,
    Divide,
    Multiply,
    Separator,
    F1,
    F2,
    F3,
    F4,
    F5,
    F6,
    F7,
    F8,
    F9,
    F10,
    F11,
    F12,
    F13,
    F14,
    F15,
    F16,
    F17,
    F18,
    F19,
    F20,
    F21,
    F22,
    F23,
    F24,
    NumLock,
    ScrollLock,
    CapsLock,
    Numpad0,
    Numpad1,
    Numpad2,
    Numpad3,
    Numpad4,
    Numpad5,
    Numpad6,
    Numpad7,
    Numpad8,
    Numpad9,
    Other(u32),
    InvalidKeyCodeReceived,
}

/// One raw keyboard event.
#[derive(Debug, Clone, Copy)]
pub struct KeyboardEvent {
    pub pressed: KeyPress,
    pub key: Option<KeyboardKey>,
    pub vk_code: Option<u32>,
    pub scan_code: Option<u32>,
    pub flags: Option<u32>,
    pub is_injected: Option<IsKeyboardEventInjected>,
}

/// The key a virtual-key code names.
pub open spec fn key_of_vk(vk: u32) -> KeyboardKey {
    match vk {
        0x41 => KeyboardKey::A,
        0x42 => KeyboardKey::B,
        0x43 => KeyboardKey::C,
        0x44 => KeyboardKey::D,
        0x45 => KeyboardKey::E,
        0x46 => KeyboardKey::F,
        0x47 => KeyboardKey::G,
        0x48 => KeyboardKey::H,
        0x49 => KeyboardKey::I,
        0x4A => KeyboardKey::J,
        0x4B => KeyboardKey::K,
        0x4C => KeyboardKey::L,
        0x4D => KeyboardKey::M,
        0x4E => KeyboardKey::N,
        0x4F => KeyboardKey::O,
        0x50 => KeyboardKey::P,
        0x51 => KeyboardKey::Q,
        0x52 => KeyboardKey::R,
        0x53 => KeyboardKey::S,
        0x54 => KeyboardKey::T,
        0x55 => KeyboardKey::U,
        0x56 => KeyboardKey::V,
        0x57 => KeyboardKey::W,
        0x58 => KeyboardKey::X,
        0x59 => KeyboardKey::Y,
        0x5A => KeyboardKey::Z,
        0x30 => KeyboardKey::Number0,
        0x31 => KeyboardKey::Number1,
        0x32 => KeyboardKey::Number2,
        0x33 => KeyboardKey::Number3,
        0x34 => KeyboardKey::Number4,
        0x35 => KeyboardKey::Number5,
        0x36 => KeyboardKey::Number6,
        0x37 => KeyboardKey::Number7,
        0x38 => KeyboardKey::Number8,
        0x39 => KeyboardKey::Number9,
        0xA4 => KeyboardKey::LeftAlt,
        0xA5 => KeyboardKey::RightAlt,
        0xA0 => KeyboardKey::LeftShift,
        0xA1 => KeyboardKey::RightShift,
        0xA2 => KeyboardKey::LeftControl,
        0xA3 => KeyboardKey::RightControl,
        0x08 => KeyboardKey::BackSpace,
        0x09 => KeyboardKey::Tab,
        0x0D => KeyboardKey::Enter,
        0x1B => KeyboardKey::Escape,
        0x20 => KeyboardKey::Space,
        0x21 => KeyboardKey::PageUp,
        0x22 => KeyboardKey::PageDown,
        0x24 => KeyboardKey::Home,
        0x25 => KeyboardKey::ArrowLeft,
        0x26 => KeyboardKey::ArrowUp,
        0x27 => KeyboardKey::ArrowRight,
        0x28 => KeyboardKey::ArrowDown,
        0x2A => KeyboardKey::Print,
        0x2C => KeyboardKey::PrintScreen,
        0x2D => KeyboardKey::Insert,
        0x2E => KeyboardKey::Delete,
        0x5B => KeyboardKey::LeftWindows,
        0x5C => KeyboardKey::RightWindows,
        0xBC => KeyboardKey::Comma,
        0xBE => KeyboardKey::Period,
        0xBF => KeyboardKey::Slash,
        0xBA => KeyboardKey::SemiColon,
        0xDE => KeyboardKey::Apostrophe,
        0xDB => KeyboardKey::LeftBrace,
        0xDC => KeyboardKey::BackwardSlash,
        0xDD => KeyboardKey::RightBrace,
        0xC0 => KeyboardKey::Grave,
        0x6B => KeyboardKey::Add,
        0x6D => KeyboardKey::Subtract,
        0x6E => KeyboardKey::Decimal,
        0x6F => KeyboardKey::Divide,
        0x6A => KeyboardKey::Multiply,
        0x6C => KeyboardKey::Separator,
        0x70 => KeyboardKey::F1,
        0x71 => KeyboardKey::F2,
        0x72 => KeyboardKey::F3,
        0x73 => KeyboardKey::F4,
        0x74 => KeyboardKey::F5,
        0x75 => KeyboardKey::F6,
        0x76 => KeyboardKey::F7,
        0x77 => KeyboardKey::F8,
        0x78 => KeyboardKey::F9,
        0x79 => KeyboardKey::F10,
        0x7A => KeyboardKey::F11,
        0x7B => KeyboardKey::F12,
        0x7C => KeyboardKey::F13,
        0x7D => KeyboardKey::F14,
        0x7E => KeyboardKey::F15,
        0x7F => KeyboardKey::F16,
        0x80 => KeyboardKey::F17,
        0x81 => KeyboardKey::F18,
        0x82 => KeyboardKey::F19,
        0x83 => KeyboardKey::F20,
        0x84 => KeyboardKey::F21,
        0x85 => KeyboardKey::F22,
        0x86 => KeyboardKey::F23,
        0x87 => KeyboardKey::F24,
        0x90 => KeyboardKey::NumLock,
        0x91 => KeyboardKey::ScrollLock,
        0x14 => KeyboardKey::CapsLock,
        0x60 => KeyboardKey::Numpad0,
        0x61 => KeyboardKey::Numpad1,
        0x62 => KeyboardKey::Numpad2,
        0x63 => KeyboardKey::Numpad3,
        0x64 => KeyboardKey::Numpad4,
        0x65 => KeyboardKey::Numpad5,
        0x66 => KeyboardKey::Numpad6,
        0x67 => KeyboardKey::Numpad7,
        0x68 => KeyboardKey::Numpad8,
        0x69 => KeyboardKey::Numpad9,
        other => KeyboardKey::Other(other),
    }
}

impl KeyboardKey {
    /// The key a virtual-key code names.
    pub fn from_vk(vk: u32) -> (r: KeyboardKey)
        ensures
            r == key_of_vk(vk),
    {
        match vk {
            0x41 => KeyboardKey::A,
            0x42 => KeyboardKey::B,
            0x43 => KeyboardKey::C,
            0x44 => KeyboardKey::D,
            0x45 => KeyboardKey::E,
            0x46 => KeyboardKey::F,
            0x47 => KeyboardKey::G,
            0x48 => KeyboardKey::H,
            0x49 => KeyboardKey::I,
            0x4A => KeyboardKey::J,
            0x4B => KeyboardKey::K,
            0x4C => KeyboardKey::L,
            0x4D => KeyboardKey::M,
            0x4E => KeyboardKey::N,
            0x4F => KeyboardKey::O,
            0x50 => KeyboardKey::P,
            0x51 => KeyboardKey::Q,
            0x52 => KeyboardKey::R,
            0x53 => KeyboardKey::S,
            0x54 => KeyboardKey::T,
            0x55 => KeyboardKey::U,
            0x56 => KeyboardKey::V,
            0x57 => KeyboardKey::W,
            0x58 => KeyboardKey::X,
            0x59 => KeyboardKey::Y,
            0x5A => KeyboardKey::Z,
            0x30 => KeyboardKey::Number0,
            0x31 => KeyboardKey::Number1,
            0x32 => KeyboardKey::Number2,
            0x33 => KeyboardKey::Number3,
            0x34 => KeyboardKey::Number4,
            0x35 => KeyboardKey::Number5,
            0x36 => KeyboardKey::Number6,
            0x37 => KeyboardKey::Number7,
            0x38 => KeyboardKey::Number8,
            0x39 => KeyboardKey::Number9,
            0xA4 => KeyboardKey::LeftAlt,
            0xA5 => KeyboardKey::RightAlt,
            0xA0 => KeyboardKey::LeftShift,
            0xA1 => KeyboardKey::RightShift,
            0xA2 => KeyboardKey::LeftControl,
            0xA3 => KeyboardKey::RightControl,
            0x08 => KeyboardKey::BackSpace,
            0x09 => KeyboardKey::Tab,
            0x0D => KeyboardKey::Enter,
            0x1B => KeyboardKey::Escape,
            0x20 => KeyboardKey::Space,
            0x21 => KeyboardKey::PageUp,
            0x22 => KeyboardKey::PageDown,
            0x24 => KeyboardKey::Home,
            0x25 => KeyboardKey::ArrowLeft,
            0x26 => KeyboardKey::ArrowUp,
            0x27 => KeyboardKey::ArrowRight,
            0x28 => KeyboardKey::ArrowDown,
            0x2A => KeyboardKey::Print,
            0x2C => KeyboardKey::PrintScreen,
            0x2D => KeyboardKey::Insert,
            0x2E => KeyboardKey::Delete,
            0x5B => KeyboardKey::LeftWindows,
            0x5C => KeyboardKey::RightWindows,
            0xBC => KeyboardKey::Comma,
            0xBE => KeyboardKey::Period,
            0xBF => KeyboardKey::Slash,
            0xBA => KeyboardKey::SemiColon,
            0xDE => KeyboardKey::Apostrophe,
            0xDB => KeyboardKey::LeftBrace,
            0xDC => KeyboardKey::BackwardSlash,
            0xDD => KeyboardKey::RightBrace,
            0xC0 => KeyboardKey::Grave,
            0x6B => KeyboardKey::Add,
            0x6D => KeyboardKey::Subtract,
            0x6E => KeyboardKey::Decimal,
            0x6F => KeyboardKey::Divide,
            0x6A => KeyboardKey::Multiply,
            0x6C => KeyboardKey::Separator,
            0x70 => KeyboardKey::F1,
            0x71 => KeyboardKey::F2,
            0x72 => KeyboardKey::F3,
            0x73 => KeyboardKey::F4,
            0x74 => KeyboardKey::F5,
            0x75 => KeyboardKey::F6,
            0x76 => KeyboardKey::F7,
            0x77 => KeyboardKey::F8,
            0x78 => KeyboardKey::F9,
            0x79 => KeyboardKey::F10,
            0x7A => KeyboardKey::F11,
            0x7B => KeyboardKey::F12,
            0x7C => KeyboardKey::F13,
            0x7D => KeyboardKey::F14,
            0x7E => KeyboardKey::F15,
            0x7F => KeyboardKey::F16,
            0x80 => KeyboardKey::F17,
            0x81 => KeyboardKey::F18,
            0x82 => KeyboardKey::F19,
            0x83 => KeyboardKey::F20,
            0x84 => KeyboardKey::F21,
            0x85 => KeyboardKey::F22,
            0x86 => KeyboardKey::F23,
            0x87 => KeyboardKey::F24,
            0x90 => KeyboardKey::NumLock,
            0x91 => KeyboardKey::ScrollLock,
            0x14 => KeyboardKey::CapsLock,
            0x60 => KeyboardKey::Numpad0,
            0x61 => KeyboardKey::Numpad1,
            0x62 => KeyboardKey::Numpad2,
            0x63 => KeyboardKey::Numpad3,
            0x64 => KeyboardKey::Numpad4,
            0x65 => KeyboardKey::Numpad5,
            0x66 => KeyboardKey::Numpad6,
            0x67 => KeyboardKey::Numpad7,
            0x68 => KeyboardKey::Numpad8,
            0x69 => KeyboardKey::Numpad9,
            other => KeyboardKey::Other(other),
        }
    }
}

/// The character of a decimal digit.
pub open spec fn digit_char(d: nat) -> char {
    if d == 0 {
        '0'
    } else if d == 1 {
        '1'
    } else if d == 2 {
        '2'
    } else if d == 3 {
        '3'
    } else if d == 4 {
        '4'
    } else if d == 5 {
        '5'
    } else if d == 6 {
        '6'
    } else if d == 7 {
        '7'
    } else if d == 8 {
        '8'
    } else {
        '9'
    }
}

/// Decimal digits of `n`, most significant first, without leading zeros.
pub open spec fn decimal_digits(n: nat) -> Seq<char>
    decreases n,
{
    if n < 10 {
        seq![digit_char(n)]
    } else {
        decimal_digits(n / 10).push(digit_char(n % 10))
    }
}

/// Relies on `<u32 as ToString>::to_string`, whose `Display` writes the
/// decimal digits of the value with no sign, padding or separators.
#[verifier::external_body]
fn decimal_string(n: u32) -> (r: String)
    ensures
        r@ == decimal_digits(n as nat),
{
    n.to_string()
}

/// Views of labels.
pub open spec fn labels_view(v: Seq<String>) -> Seq<Seq<char>> {
    v.map_values(|s: String| s@)
}

/// Labels of a key code the table does not name.
pub open spec fn other_labels(code: u32) -> Seq<Seq<char>> {
    if code == 187 {
        seq!["EQUALS"@, "="@]
    } else if code == 189 {
        seq!["MINUS"@, "-"@]
    } else if code == 93 {
        seq!["CONTEXT MENU"@, "APPS"@]
    } else if code == 19 || code == 255 {
        seq!["PAUSE"@]
    } else if code == 35 {
        seq!["END"@]
    } else {
        seq![decimal_digits(code as nat)]
    }
}

/// Labels of a key code the table does not name.
pub fn other_key_labels(code: u32) -> (r: Vec<String>)
    ensures
        labels_view(r@) =~= other_labels(code),
{
    if code == 187 {
        vec!["EQUALS".to_owned(), "=".to_owned()]
    } else if code == 189 {
        vec!["MINUS".to_owned(), "-".to_owned()]
    } else if code == 93 {
        vec!["CONTEXT MENU".to_owned(), "APPS".to_owned()]
    } else if code == 19 || code == 255 {
        vec!["PAUSE".to_owned()]
    } else if code == 35 {
        vec!["END".to_owned()]
    } else {
        vec![decimal_string(code)]
    }
}

/// Labels of a key, primary first, then legacy aliases.
pub open spec fn global_labels(key: KeyboardKey) -> Seq<Seq<char>> {
    match key {
        KeyboardKey::A => seq!["A"@],
        KeyboardKey::B => seq!["B"@],
        KeyboardKey::C => seq!["C"@],
        KeyboardKey::D => seq!["D"@],
        KeyboardKey::E => seq!["E"@],
        KeyboardKey::F => seq!["F"@],
        KeyboardKey::G => seq!["G"@],
        KeyboardKey::H => seq!["H"@],
        KeyboardKey::I => seq!["I"@],
        KeyboardKey::J => seq!["J"@],
        KeyboardKey::K => seq!["K"@],
        KeyboardKey::L => seq!["L"@],
        KeyboardKey::M => seq!["M"@],
        KeyboardKey::N => seq!["N"@],
        KeyboardKey::O => seq!["O"@],
        KeyboardKey::P => seq!["P"@],
        KeyboardKey::Q => seq!["Q"@],
        KeyboardKey::R => seq!["R"@],
        KeyboardKey::S => seq!["S"@],
        KeyboardKey::T => seq!["T"@],
        KeyboardKey::U => seq!["U"@],
        KeyboardKey::V => seq!["V"@],
        KeyboardKey::W => seq!["W"@],
        KeyboardKey::X => seq!["X"@],
        KeyboardKey::Y => seq!["Y"@],
        KeyboardKey::Z => seq!["Z"@],
        KeyboardKey::Number0 => seq!["0"@],
        KeyboardKey::Number1 => seq!["1"@],
        KeyboardKey::Number2 => seq!["2"@],
        KeyboardKey::Number3 => seq!["3"@],
        KeyboardKey::Number4 => seq!["4"@],
        KeyboardKey::Number5 => seq!["5"@],
        KeyboardKey::Number6 => seq!["6"@],
        KeyboardKey::Number7 => seq!["7"@],
        KeyboardKey::Number8 => seq!["8"@],
        KeyboardKey::Number9 => seq!["9"@],
        KeyboardKey::LeftAlt => seq!["LEFT ALT"@],
        KeyboardKey::RightAlt => seq!["RIGHT ALT"@],
        KeyboardKey::LeftShift => seq!["LEFT SHIFT"@],
        KeyboardKey::RightShift => seq!["RIGHT SHIFT"@],
        KeyboardKey::LeftControl => seq!["LEFT CTRL"@],
        KeyboardKey::RightControl => seq!["25"@, "RIGHT CTRL"@],
        KeyboardKey::BackSpace => seq!["BACKSPACE"@],
        KeyboardKey::Tab => seq!["TAB"@],
        KeyboardKey::Enter => seq!["RETURN"@, "NUMPAD RETURN"@],
        KeyboardKey::Escape => seq!["ESCAPE"@],
        KeyboardKey::Space => seq!["SPACE"@],
        KeyboardKey::PageUp => seq!["PAGE UP"@],
        KeyboardKey::PageDown => seq!["PAGE DOWN"@],
        KeyboardKey::Home => seq!["HOME"@],
        KeyboardKey::ArrowLeft => seq!["LEFT ARROW"@],
        KeyboardKey::ArrowUp => seq!["UP ARROW"@],
        KeyboardKey::ArrowRight => seq!["RIGHT ARROW"@],
        KeyboardKey::ArrowDown => seq!["DOWN ARROW"@],
        KeyboardKey::Print => seq!["PRINT"@],
        KeyboardKey::PrintScreen => seq!["PRINT SCREEN"@],
        KeyboardKey::Insert => seq!["INS"@],
        KeyboardKey::Delete => seq!["DELETE"@],
        KeyboardKey::LeftWindows => seq!["91"@, "LEFT WINDOWS"@],
        KeyboardKey::RightWindows => seq!["92"@, "RIGHT WINDOWS"@],
        KeyboardKey::Comma => seq!["COMMA"@],
        KeyboardKey::Period => seq!["DOT"@, "PERIOD"@],
        KeyboardKey::Slash => seq!["FORWARD SLASH"@, "/"@],
        KeyboardKey::SemiColon => seq!["SEMICOLON"@],
        KeyboardKey::Apostrophe => seq!["QUOTE"@],
        KeyboardKey::LeftBrace => seq!["SQUARE BRACKET OPEN"@],
        KeyboardKey::BackwardSlash => seq!["BACKSLASH"@],
        KeyboardKey::RightBrace => seq!["SQUARE BRACKET CLOSE"@],
        KeyboardKey::Grave => seq!["SECTION"@, "GRAVE"@],
        KeyboardKey::Add => seq!["NUMPAD PLUS"@, "+"@],
        KeyboardKey::Subtract => seq!["NUMPAD MINUS"@, "-"@],
        KeyboardKey::Decimal => seq!["NUMPAD DELETE"@, "DECIMAL"@],
        KeyboardKey::Divide => seq!["NUMPAD DIVIDE"@, "/"@],
        KeyboardKey::Multiply => seq!["NUMPAD MULTIPLY"@, "*"@],
        KeyboardKey::Separator => seq!["NUMPAD SEPARATOR"@],
        KeyboardKey::F1 => seq!["F1"@],
        KeyboardKey::F2 => seq!["F2"@],
        KeyboardKey::F3 => seq!["F3"@],
        KeyboardKey::F4 => seq!["F4"@],
        KeyboardKey::F5 => seq!["F5"@],
        KeyboardKey::F6 => seq!["F6"@],
        KeyboardKey::F7 => seq!["F7"@],
        KeyboardKey::F8 => seq!["F8"@],
        KeyboardKey::F9 => seq!["F9"@],
        KeyboardKey::F10 => seq!["F10"@],
        KeyboardKey::F11 => seq!["F11"@],
        KeyboardKey::F12 => seq!["F12"@],
        KeyboardKey::F13 => seq!["F13"@],
        KeyboardKey::F14 => seq!["F14"@],
        KeyboardKey::F15 => seq!["F15"@],
        KeyboardKey::F16 => seq!["F16"@],
        KeyboardKey::F17 => seq!["F17"@],
        KeyboardKey::F18 => seq!["F18"@],
        KeyboardKey::F19 => seq!["F19"@],
        KeyboardKey::F20 => seq!["F20"@],
        KeyboardKey::F21 => seq!["F21"@],
        KeyboardKey::F22 => seq!["F22"@],
        KeyboardKey::F23 => seq!["F23"@],
        KeyboardKey::F24 => seq!["F24"@],
        KeyboardKey::NumLock => seq!["NUM LOCK"@],
        KeyboardKey::ScrollLock => seq!["SCROLL LOCK"@],
        KeyboardKey::CapsLock => seq!["CAPS LOCK"@],
        KeyboardKey::Numpad0 => seq!["NUMPAD 0"@],
        KeyboardKey::Numpad1 => seq!["NUMPAD 1"@],
        KeyboardKey::Numpad2 => seq!["NUMPAD 2"@],
        KeyboardKey::Numpad3 => seq!["NUMPAD 3"@],
        KeyboardKey::Numpad4 => seq!["NUMPAD 4"@],
        KeyboardKey::Numpad5 => seq!["NUMPAD 5"@],
        KeyboardKey::Numpad6 => seq!["NUMPAD 6"@],
        KeyboardKey::Numpad7 => seq!["NUMPAD 7"@],
        KeyboardKey::Numpad8 => seq!["NUMPAD 8"@],
        KeyboardKey::Numpad9 => seq!["NUMPAD 9"@],
        KeyboardKey::Other(code) => other_labels(code),
        KeyboardKey::InvalidKeyCodeReceived => seq![],
    }
}

/// Labels of a key, primary first, then legacy aliases.
pub fn keyboard_key_to_global(key: KeyboardKey) -> (r: Vec<String>)
    ensures
        labels_view(r@) =~= global_labels(key),
{
    match key {
        KeyboardKey::A => vec!["A".to_owned()],
        KeyboardKey::B => vec!["B".to_owned()],
        KeyboardKey::C => vec!["C".to_owned()],
        KeyboardKey::D => vec!["D".to_owned()],
        KeyboardKey::E => vec!["E".to_owned()],
        KeyboardKey::F => vec!["F".to_owned()],
        KeyboardKey::G => vec!["G".to_owned()],
        KeyboardKey::H => vec!["H".to_owned()],
        KeyboardKey::I => vec!["I".to_owned()],
        KeyboardKey::J => vec!["J".to_owned()],
        KeyboardKey::K => vec!["K".to_owned()],
        KeyboardKey::L => vec!["L".to_owned()],
        KeyboardKey::M => vec!["M".to_owned()],
        KeyboardKey::N => vec!["N".to_owned()],
        KeyboardKey::O => vec!["O".to_owned()],
        KeyboardKey::P => vec!["P".to_owned()],
        KeyboardKey::Q => vec!["Q".to_owned()],
        KeyboardKey::R => vec!["R".to_owned()],
        KeyboardKey::S => vec!["S".to_owned()],
        KeyboardKey::T => vec!["T".to_owned()],
        KeyboardKey::U => vec!["U".to_owned()],
        KeyboardKey::V => vec!["V".to_owned()],
        KeyboardKey::W => vec!["W".to_owned()],
        KeyboardKey::X => vec!["X".to_owned()],
        KeyboardKey::Y => vec!["Y".to_owned()],
        KeyboardKey::Z => vec!["Z".to_owned()],
        KeyboardKey::Number0 => vec!["0".to_owned()],
        KeyboardKey::Number1 => vec!["1".to_owned()],
        KeyboardKey::Number2 => vec!["2".to_owned()],
        KeyboardKey::Number3 => vec!["3".to_owned()],
        KeyboardKey::Number4 => vec!["4".to_owned()],
        KeyboardKey::Number5 => vec!["5".to_owned()],
        KeyboardKey::Number6 => vec!["6".to_owned()],
        KeyboardKey::Number7 => vec!["7".to_owned()],
        KeyboardKey::Number8 => vec!["8".to_owned()],
        KeyboardKey::Number9 => vec!["9".to_owned()],
        KeyboardKey::LeftAlt => vec!["LEFT ALT".to_owned()],
        KeyboardKey::RightAlt => vec!["RIGHT ALT".to_owned()],
        KeyboardKey::LeftShift => vec!["LEFT SHIFT".to_owned()],
        KeyboardKey::RightShift => vec!["RIGHT SHIFT".to_owned()],
        KeyboardKey::LeftControl => vec!["LEFT CTRL".to_owned()],
        KeyboardKey::RightControl => vec!["25".to_owned(), "RIGHT CTRL".to_owned()],
        KeyboardKey::BackSpace => vec!["BACKSPACE".to_owned()],
        KeyboardKey::Tab => vec!["TAB".to_owned()],
        KeyboardKey::Enter => vec!["RETURN".to_owned(), "NUMPAD RETURN".to_owned()],
        KeyboardKey::Escape => vec!["ESCAPE".to_owned()],
        KeyboardKey::Space => vec!["SPACE".to_owned()],
        KeyboardKey::PageUp => vec!["PAGE UP".to_owned()],
        KeyboardKey::PageDown => vec!["PAGE DOWN".to_owned()],
        KeyboardKey::Home => vec!["HOME".to_owned()],
        KeyboardKey::ArrowLeft => vec!["LEFT ARROW".to_owned()],
        KeyboardKey::ArrowUp => vec!["UP ARROW".to_owned()],
        KeyboardKey::ArrowRight => vec!["RIGHT ARROW".to_owned()],
        KeyboardKey::ArrowDown => vec!["DOWN ARROW".to_owned()],
        KeyboardKey::Print => vec!["PRINT".to_owned()],
        KeyboardKey::PrintScreen => vec!["PRINT SCREEN".to_owned()],
        KeyboardKey::Insert => vec!["INS".to_owned()],
        KeyboardKey::Delete => vec!["DELETE".to_owned()],
        KeyboardKey::LeftWindows => vec!["91".to_owned(), "LEFT WINDOWS".to_owned()],
        KeyboardKey::RightWindows => vec!["92".to_owned(), "RIGHT WINDOWS".to_owned()],
        KeyboardKey::Comma => vec!["COMMA".to_owned()],
        KeyboardKey::Period => vec!["DOT".to_owned(), "PERIOD".to_owned()],
        KeyboardKey::Slash => vec!["FORWARD SLASH".to_owned(), "/".to_owned()],
        KeyboardKey::SemiColon => vec!["SEMICOLON".to_owned()],
        KeyboardKey::Apostrophe => vec!["QUOTE".to_owned()],
        KeyboardKey::LeftBrace => vec!["SQUARE BRACKET OPEN".to_owned()],
        KeyboardKey::BackwardSlash => vec!["BACKSLASH".to_owned()],
        KeyboardKey::RightBrace => vec!["SQUARE BRACKET CLOSE".to_owned()],
        KeyboardKey::Grave => vec!["SECTION".to_owned(), "GRAVE".to_owned()],
        KeyboardKey::Add => vec!["NUMPAD PLUS".to_owned(), "+".to_owned()],
        KeyboardKey::Subtract => vec!["NUMPAD MINUS".to_owned(), "-".to_owned()],
        KeyboardKey::Decimal => vec!["NUMPAD DELETE".to_owned(), "DECIMAL".to_owned()],
        KeyboardKey::Divide => vec!["NUMPAD DIVIDE".to_owned(), "/".to_owned()],
        KeyboardKey::Multiply => vec!["NUMPAD MULTIPLY".to_owned(), "*".to_owned()],
        KeyboardKey::Separator => vec!["NUMPAD SEPARATOR".to_owned()],
        KeyboardKey::F1 => vec!["F1".to_owned()],
        KeyboardKey::F2 => vec!["F2".to_owned()],
        KeyboardKey::F3 => vec!["F3".to_owned()],
        KeyboardKey::F4 => vec!["F4".to_owned()],
        KeyboardKey::F5 => vec!["F5".to_owned()],
        KeyboardKey::F6 => vec!["F6".to_owned()],
        KeyboardKey::F7 => vec!["F7".to_owned()],
        KeyboardKey::F8 => vec!["F8".to_owned()],
        KeyboardKey::F9 => vec!["F9".to_owned()],
        KeyboardKey::F10 => vec!["F10".to_owned()],
        KeyboardKey::F11 => vec!["F11".to_owned()],
        KeyboardKey::F12 => vec!["F12".to_owned()],
        KeyboardKey::F13 => vec!["F13".to_owned()],
        KeyboardKey::F14 => vec!["F14".to_owned()],
        KeyboardKey::F15 => vec!["F15".to_owned()],
        KeyboardKey::F16 => vec!["F16".to_owned()],
        KeyboardKey::F17 => vec!["F17".to_owned()],
        KeyboardKey::F18 => vec!["F18".to_owned()],
        KeyboardKey::F19 => vec!["F19".to_owned()],
        KeyboardKey::F20 => vec!["F20".to_owned()],
        KeyboardKey::F21 => vec!["F21".to_owned()],
        KeyboardKey::F22 => vec!["F22".to_owned()],
        KeyboardKey::F23 => vec!["F23".to_owned()],
        KeyboardKey::F24 => vec!["F24".to_owned()],
        KeyboardKey::NumLock => vec!["NUM LOCK".to_owned()],
        KeyboardKey::ScrollLock => vec!["SCROLL LOCK".to_owned()],
        KeyboardKey::CapsLock => vec!["CAPS LOCK".to_owned()],
        KeyboardKey::Numpad0 => vec!["NUMPAD 0".to_owned()],
        KeyboardKey::Numpad1 => vec!["NUMPAD 1".to_owned()],
        KeyboardKey::Numpad2 => vec!["NUMPAD 2".to_owned()],
        KeyboardKey::Numpad3 => vec!["NUMPAD 3".to_owned()],
        KeyboardKey::Numpad4 => vec!["NUMPAD 4".to_owned()],
        KeyboardKey::Numpad5 => vec!["NUMPAD 5".to_owned()],
        KeyboardKey::Numpad6 => vec!["NUMPAD 6".to_owned()],
        KeyboardKey::Numpad7 => vec!["NUMPAD 7".to_owned()],
        KeyboardKey::Numpad8 => vec!["NUMPAD 8".to_owned()],
        KeyboardKey::Numpad9 => vec!["NUMPAD 9".to_owned()],
        KeyboardKey::Other(code) => other_key_labels(code),
        KeyboardKey::InvalidKeyCodeReceived => Vec::new(),
    }
}

/// Numpad label a scan code stands for, when it is one of the numpad codes.
pub open spec fn numpad_label(scan_code: u32) -> Option<Seq<char>> {
    if scan_code == 82 {
        Some("NUMPAD 0"@)
    } else if scan_code == 79 {
        Some("NUMPAD 1"@)
    } else if scan_code == 80 {
        Some("NUMPAD 2"@)
    } else if scan_code == 81 {
        Some("NUMPAD 3"@)
    } else if scan_code == 75 {
        Some("NUMPAD 4"@)
    } else if scan_code == 76 {
        Some("NUMPAD 5"@)
    } else if scan_code == 77 {
        Some("NUMPAD 6"@)
    } else if scan_code == 71 {
        Some("NUMPAD 7"@)
    } else if scan_code == 72 {
        Some("NUMPAD 8"@)
    } else if scan_code == 73 {
        Some("NUMPAD 9"@)
    } else if scan_code == 28 {
        Some("NUMPAD RETURN"@)
    } else if scan_code == 83 {
        Some("NUMPAD DELETE"@)
    } else {
        None
    }
}

/// The numpad label of an event: a numpad scan code with the extended flag
/// off (on, for scan code 28).
pub open spec fn numpad_override(e: KeyboardEvent) -> Option<Seq<char>> {
    match e.scan_code {
        None => None,
        Some(sc) => {
            let flags: u32 = match e.flags {
                Some(f) => f,
                None => 0,
            };
            let extended = flags % 2 == 1;
            if numpad_label(sc).is_some() && (if sc == 28 {
                extended
            } else {
                !extended
            }) {
                numpad_label(sc)
            } else {
                None
            }
        },
    }
}

/// The numpad label of an event, if the numpad rule applies.
pub fn numpad_override_label(event: &KeyboardEvent) -> (r: Option<&'static str>)
    ensures
        r.is_some() == numpad_override(*event).is_some(),
        r.is_some() ==> r.unwrap()@ == numpad_override(*event).unwrap(),
{
    let scan_code = match event.scan_code {
        Some(sc) => sc,
        None => {
            return None;
        },
    };
    let label: &'static str = if scan_code == 82 {
        "NUMPAD 0"
    } else if scan_code == 79 {
        "NUMPAD 1"
    } else if scan_code == 80 {
        "NUMPAD 2"
    } else if scan_code == 81 {
        "NUMPAD 3"
    } else if scan_code == 75 {
        "NUMPAD 4"
    } else if scan_code == 76 {
        "NUMPAD 5"
    } else if scan_code == 77 {
        "NUMPAD 6"
    } else if scan_code == 71 {
        "NUMPAD 7"
    } else if scan_code == 72 {
        "NUMPAD 8"
    } else if scan_code == 73 {
        "NUMPAD 9"
    } else if scan_code == 28 {
        "NUMPAD RETURN"
    } else if scan_code == 83 {
        "NUMPAD DELETE"
    } else {
        return None;
    };
    let flags: u32 = match event.flags {
        Some(f) => f,
        None => 0,
    };
    let is_extended = flags % 2 == 1;
    if scan_code == 28 {
        if is_extended {
            Some(label)
        } else {
            None
        }
    } else {
        if !is_extended {
            Some(label)
        } else {
            None
        }
    }
}

/// `target` followed by each item of `items` that is not already there.
pub open spec fn extended_unique(target: Seq<Seq<char>>, items: Seq<Seq<char>>) -> Seq<Seq<char>>
    decreases items.len(),
{
    if items.len() == 0 {
        target
    } else {
        let prev = extended_unique(target, items.drop_last());
        if prev.contains(items.last()) {
            prev
        } else {
            prev.push(items.last())
        }
    }
}

/// Appends each item of `items` that `target` does not hold yet.
fn extend_unique(target: &mut Vec<String>, items: Vec<String>)
    ensures
        labels_view(final(target)@) == extended_unique(labels_view(old(target)@), labels_view(items@)),
{
    let ghost t0 = labels_view(target@);
    let ghost iv = labels_view(items@);
    let mut i: usize = 0;
    proof {
        assert(iv.subrange(0, 0) =~= Seq::<Seq<char>>::empty());
    }
    while i < items.len()
        invariant
            i <= items@.len() == iv.len(),
            iv == labels_view(items@),
            labels_view(target@) == extended_unique(t0, iv.subrange(0, i as int)),
        decreases items@.len() - i,
    {
        let item = &items[i];
        let ghost tv = labels_view(target@);
        let mut found = false;
        let mut j: usize = 0;
        while j < target.len()
            invariant
                j <= target@.len(),
                tv == labels_view(target@),
                found == (exists|k: int| 0 <= k < j && tv[k] == item@),
            decreases target@.len() - j,
        {
            assert(tv[j as int] == target@[j as int]@);
            if target[j] == *item {
                found = true;
            }
            proof {
                if !found {
                    assert forall|k: int| 0 <= k < j + 1 implies tv[k] != item@ by {
                        if k < j {
                            assert(!(0 <= k < j && tv[k] == item@));
                        }
                    }
                }
            }
            j = j + 1;
        }
        proof {
            let sub = iv.subrange(0, i + 1);
            assert(sub.drop_last() =~= iv.subrange(0, i as int));
            assert(sub.last() == item@);
            if tv.contains(item@) {
                let k = choose|k: int| 0 <= k < tv.len() && tv[k] == item@;
                assert(found);
            }
        }
        if !found {
            target.push(item.clone());
            proof {
                assert(labels_view(target@) =~= tv.push(item@));
            }
        }
        i = i + 1;
    }
    proof {
        assert(iv.subrange(0, iv.len() as int) =~= iv);
    }
}

/// The labels of an event, primary first.
pub open spec fn key_labels(e: KeyboardEvent) -> Seq<Seq<char>> {
    if e.vk_code == Some(0xA5u32) || e.vk_code == Some(0x15u32) {
        seq!["21"@, "RIGHT ALT"@]
    } else {
        let base = match numpad_override(e) {
            Some(l) => seq![l],
            None => match e.key {
                Some(k) => extended_unique(seq![], global_labels(k)),
                None => seq![],
            },
        };
        if base.len() > 0 {
            base
        } else {
            match e.vk_code {
                Some(vk) => seq![decimal_digits(vk as nat)],
                None => match e.scan_code {
                    Some(sc) => seq![decimal_digits(sc as nat)],
                    None => seq![],
                },
            }
        }
    }
}

/// The labels of an event: the Right-Alt / Han-Eng override, else the
/// numpad rule, else the key table, else the decimal code.
pub fn build_key_labels(event: &KeyboardEvent) -> (r: Vec<String>)
    ensures
        labels_view(r@) == key_labels(*event),
{
    let mut labels: Vec<String> = Vec::new();
    if let Some(vk_code) = event.vk_code {
        if vk_code == 0xA5 || vk_code == 0x15 {
            labels.push("21".to_owned());
            labels.push("RIGHT ALT".to_owned());
            assert(labels_view(labels@) =~= key_labels(*event));
            return labels;
        }
    }
    if let Some(label) = numpad_override_label(event) {
        labels.push(label.to_owned());
        assert(labels_view(labels@) =~= seq![numpad_override(*event).unwrap()]);
    } else if let Some(key) = event.key {
        assert(labels_view(labels@) =~= Seq::<Seq<char>>::empty());
        extend_unique(&mut labels, keyboard_key_to_global(key));
    } else {
        assert(labels_view(labels@) =~= Seq::<Seq<char>>::empty());
    }
    if labels.len() == 0 {
        if let Some(vk_code) = event.vk_code {
            labels.push(decimal_string(vk_code));
        } else if let Some(scan_code) = event.scan_code {
            labels.push(decimal_string(scan_code));
        }
        assert(labels_view(labels@) =~= key_labels(*event));
    }
    labels
}

/// Whether an event is dropped before labelling: any injected event, and a
/// Shift event whose scan code is the IME-synthesized companion (554).
pub open spec fn skips(e: KeyboardEvent) -> bool {
    let is_shift = e.vk_code == Some(0x10u32) || e.vk_code == Some(0xA0u32) || e.vk_code == Some(
        0xA1u32,
    ) || e.key == Some(KeyboardKey::LeftShift) || e.key == Some(KeyboardKey::RightShift);
    e.is_injected == Some(IsKeyboardEventInjected::Injected) || (is_shift && e.scan_code == Some(
        554u32,
    ))
}

/// Whether an event is dropped before labelling.
pub fn should_skip_keyboard_event(event: &KeyboardEvent) -> (r: bool)
    ensures
        r == skips(*event),
{
    let injected = match event.is_injected {
        Some(IsKeyboardEventInjected::Injected) => true,
        _ => false,
    };
    if injected {
        return true;
    }
    let shift_vk = match event.vk_code {
        Some(vk) => vk == 0x10 || vk == 0xA0 || vk == 0xA1,
        None => false,
    };
    let shift_key = match event.key {
        Some(KeyboardKey::LeftShift) => true,
        Some(KeyboardKey::RightShift) => true,
        _ => false,
    };
    if !shift_vk && !shift_key {
        return false;
    }
    match event.scan_code {
        Some(sc) => sc == 554,
        None => false,
    }
}

/// Labelling depends on the event alone: two evaluations of one event give
/// the same labels, and so the same primary label.
pub proof fn lemma_labels_stable(a: KeyboardEvent, b: KeyboardEvent)
    requires
        a == b,
    ensures
        key_labels(a) == key_labels(b),
        key_labels(a).len() > 0 ==> key_labels(a)[0] == key_labels(b)[0],
{
}

} // verus!
