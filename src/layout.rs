//! What a track looks like, as the note buffer stores it.

use vstd::prelude::*;

verus! {

/// Visual parameters of one note, each a binary32 bit pattern as the renderer
/// reads it.
#[derive(Clone, Copy, Debug)]
pub struct NoteStyle {
    /// Left edge of the track, in px.
    pub track_x: u32,
    /// Bottom edge of the track, in px.
    pub track_bottom_y: u32,
    /// Width of the track, in px.
    pub width: u32,
    /// Top fill: sRGB red, green, blue, then linear alpha.
    pub color_top: [u32; 4],
    /// Bottom fill: sRGB red, green, blue, then linear alpha.
    pub color_bottom: [u32; 4],
    /// Corner radius, in px.
    pub border_radius: u32,
    /// Glow size, top alpha, bottom alpha.
    pub glow: [u32; 3],
    /// Top glow colour, sRGB.
    pub glow_color_top: [u32; 3],
    /// Bottom glow colour, sRGB.
    pub glow_color_bottom: [u32; 3],
}

/// A normalized track layout: its ordering index and its note style.
#[derive(Clone, Copy, Debug)]
pub struct TrackLayout {
    pub track_index: i32,
    pub style: NoteStyle,
}

/// A binary32 bit pattern denotes a value greater than zero: positive sign,
/// not zero, not NaN (positive infinity included).
pub open spec fn single_is_positive(bits: u32) -> bool {
    0 < bits <= 0x7F80_0000
}

/// Tests whether a binary32 bit pattern denotes a value greater than zero.
pub fn single_positive(bits: u32) -> (r: bool)
    ensures
        r == single_is_positive(bits),
{
    0 < bits && bits <= 0x7F80_0000
}

} // verus!
