//! Persisted settings as the core reads them, the overlay anchor, and the
//! note colour shape.

use vstd::prelude::*;

verus! {

/// Whether two strings are equal.
pub fn same_str(a: &str, b: &str) -> (r: bool)
    ensures
        r == (a@ == b@),
{
    a.to_owned() == b.to_owned()
}

/// A copy of an optional string.
pub fn copy_opt(o: &Option<String>) -> (r: Option<String>)
    ensures
        opt_view(r) == opt_view(*o),
{
    match o {
        Some(s) => Some(s.clone()),
        None => None,
    }
}

/// View of an optional string.
pub open spec fn opt_view(o: Option<String>) -> Option<Seq<char>> {
    match o {
        Some(s) => Some(s@),
        None => None,
    }
}

/// Fill colour of a note: one colour, or a top-to-bottom gradient.
#[derive(Debug)]
pub enum NoteColor {
    Solid(String),
    Gradient { top: String, bottom: String },
}

/// Where the key counter sits.
#[derive(Debug, Clone, Copy, PartialEq, Eq, Structural)]
pub enum KeyCounterPlacement {
    Inside,
    Outside,
}

/// Which side the key counter aligns to.
#[derive(Debug, Clone, Copy, PartialEq, Eq, Structural)]
pub enum KeyCounterAlign {
    Top,
    Bottom,
    Left,
    Right,
}

/// Counter colours while idle and while pressed.
#[derive(Debug)]
pub struct KeyCounterColor {
    pub idle: String,
    pub active: String,
}

/// Display settings of a key counter.
#[derive(Debug)]
pub struct KeyCounterSettings {
    pub enabled: bool,
    pub placement: KeyCounterPlacement,
    pub align: KeyCounterAlign,
    pub fill: KeyCounterColor,
    pub stroke: KeyCounterColor,
    pub gap: u32,
}

/// Which end of the track notes fade at.
#[derive(Debug, Clone, Copy, PartialEq, Eq, Structural)]
pub enum FadePosition {
    Auto,
    Top,
    Bottom,
}

/// Persisted note settings.
#[derive(Debug, Clone, Copy, PartialEq, Eq, Structural)]
pub struct NoteSettings {
    pub border_radius: u32,
    pub speed: u32,
    pub track_height: u32,
    pub reverse: bool,
    pub fade_position: FadePosition,
    pub delayed_note_enabled: bool,
    pub short_note_threshold_ms: u32,
    pub short_note_min_length_px: u32,
    pub key_display_delay_ms: u32,
}

impl NoteSettings {
    pub open spec fn default_spec() -> NoteSettings {
        NoteSettings {
            border_radius: 2,
            speed: 180,
            track_height: 150,
            reverse: false,
            fade_position: FadePosition::Auto,
            delayed_note_enabled: false,
            short_note_threshold_ms: 50,
            short_note_min_length_px: 30,
            key_display_delay_ms: 0,
        }
    }

    /// Factory settings.
    pub fn defaults() -> (r: NoteSettings)
        ensures
            r == NoteSettings::default_spec(),
    {
        NoteSettings {
            border_radius: 2,
            speed: 180,
            track_height: 150,
            reverse: false,
            fade_position: FadePosition::Auto,
            delayed_note_enabled: false,
            short_note_threshold_ms: 50,
            short_note_min_length_px: 30,
            key_display_delay_ms: 0,
        }
    }
}

/// User stylesheet.
#[derive(Debug)]
pub struct CustomCss {
    pub path: Option<String>,
    pub content: String,
}

/// Per-tab stylesheet.
#[derive(Debug)]
pub struct TabCss {
    pub path: Option<String>,
    pub content: String,
    pub enabled: bool,
}

/// One user script.
#[derive(Debug)]
pub struct JsPlugin {
    pub id: String,
    pub name: String,
    pub path: Option<String>,
    pub content: String,
    pub enabled: bool,
}

/// User scripts.
#[derive(Debug)]
pub struct CustomJs {
    pub path: Option<String>,
    pub content: String,
    pub plugins: Vec<JsPlugin>,
}

/// A user-defined key tab.
#[derive(Debug)]
pub struct CustomTab {
    pub id: String,
    pub name: String,
}

/// Overlay state sent to a window at start.
#[derive(Debug)]
pub struct BootstrapOverlayState {
    pub visible: bool,
    pub locked: bool,
    pub anchor: String,
}

/// Corner or centre of the overlay that stays put on resize.
#[derive(Debug, Clone, Copy, PartialEq, Eq, Structural)]
pub enum OverlayResizeAnchor {
    TopLeft,
    TopRight,
    BottomLeft,
    BottomRight,
    Center,
}

/// Persisted name of an anchor.
pub open spec fn anchor_name(a: OverlayResizeAnchor) -> Seq<char> {
    match a {
        OverlayResizeAnchor::TopLeft => "top-left"@,
        OverlayResizeAnchor::TopRight => "top-right"@,
        OverlayResizeAnchor::BottomLeft => "bottom-left"@,
        OverlayResizeAnchor::BottomRight => "bottom-right"@,
        OverlayResizeAnchor::Center => "center"@,
    }
}

impl OverlayResizeAnchor {
    /// Persisted name of the anchor.
    pub fn as_str(&self) -> (r: &'static str)
        ensures
            r@ == anchor_name(*self),
    {
        match self {
            OverlayResizeAnchor::TopLeft => "top-left",
            OverlayResizeAnchor::TopRight => "top-right",
            OverlayResizeAnchor::BottomLeft => "bottom-left",
            OverlayResizeAnchor::BottomRight => "bottom-right",
            OverlayResizeAnchor::Center => "center",
        }
    }
}

/// The anchor whose persisted name is `value`, if any.
pub fn overlay_resize_anchor_from_str(value: &str) -> (r: Option<OverlayResizeAnchor>)
    ensures
        match r {
            Some(a) => anchor_name(a) == value@,
            None => forall|a: OverlayResizeAnchor| anchor_name(a) != value@,
        },
{
    if same_str(value, "top-left") {
        Some(OverlayResizeAnchor::TopLeft)
    } else if same_str(value, "top-right") {
        Some(OverlayResizeAnchor::TopRight)
    } else if same_str(value, "bottom-left") {
        Some(OverlayResizeAnchor::BottomLeft)
    } else if same_str(value, "bottom-right") {
        Some(OverlayResizeAnchor::BottomRight)
    } else if same_str(value, "center") {
        Some(OverlayResizeAnchor::Center)
    } else {
        None
    }
}

} // verus!
