//! Message kinds and inputs of the note engine.

use vstd::prelude::*;

use crate::layout::TrackLayout;

verus! {

/// Kind of change that a frame reports.
#[derive(Debug, Clone, Copy, PartialEq, Eq, Structural)]
pub enum NoteMessageType {
    Sync,
    Add,
    Finalize,
    Cleanup,
    Clear,
}

impl NoteMessageType {
    /// The tag byte written into a frame header.
    pub open spec fn code_spec(self) -> u8 {
        match self {
            NoteMessageType::Sync => 0,
            NoteMessageType::Add => 1,
            NoteMessageType::Finalize => 2,
            NoteMessageType::Cleanup => 3,
            NoteMessageType::Clear => 4,
        }
    }

    /// The tag byte written into a frame header.
    pub fn code(&self) -> (r: u8)
        ensures
            r == self.code_spec(),
    {
        match self {
            NoteMessageType::Sync => 0,
            NoteMessageType::Add => 1,
            NoteMessageType::Finalize => 2,
            NoteMessageType::Cleanup => 3,
            NoteMessageType::Clear => 4,
        }
    }
}

/// A partial update of the engine settings; absent fields keep their value.
#[derive(Debug, Clone, Copy)]
pub struct NoteSettingsInput {
    /// Fall speed, px per second.
    pub speed: Option<u32>,
    /// Visible track height, px.
    pub track_height: Option<u32>,
    pub delayed_note_enabled: Option<bool>,
    /// Display delay, ms.
    pub short_note_threshold_ms: Option<u32>,
    /// Minimum drawn length of a note, px.
    pub short_note_min_length_px: Option<u32>,
}

/// One track layout as configured, before filtering.
#[derive(Debug)]
pub struct TrackLayoutInput {
    pub track_key: String,
    pub layout: TrackLayout,
    pub note_effect_enabled: Option<bool>,
}

/// Engine settings in force.
#[derive(Debug, Clone, Copy, PartialEq, Eq, Structural)]
pub struct RuntimeSettings {
    pub flow_speed: u32,
    pub track_height: u32,
    pub delay_enabled: bool,
    pub delay_ms: u32,
    pub short_note_min_length_px: u32,
}

/// Default fall speed, px per second.
pub const DEFAULT_FLOW_SPEED: u32 = 180;

/// Default track height, px.
pub const DEFAULT_TRACK_HEIGHT: u32 = 150;

impl RuntimeSettings {
    pub open spec fn default_spec() -> RuntimeSettings {
        RuntimeSettings {
            flow_speed: DEFAULT_FLOW_SPEED,
            track_height: DEFAULT_TRACK_HEIGHT,
            delay_enabled: false,
            delay_ms: 0,
            short_note_min_length_px: 0,
        }
    }

    pub fn default_settings() -> (r: RuntimeSettings)
        ensures
            r == RuntimeSettings::default_spec(),
    {
        RuntimeSettings {
            flow_speed: DEFAULT_FLOW_SPEED,
            track_height: DEFAULT_TRACK_HEIGHT,
            delay_enabled: false,
            delay_ms: 0,
            short_note_min_length_px: 0,
        }
    }

    /// Settings with the present fields of `input` applied.
    pub open spec fn patched(self, input: NoteSettingsInput) -> RuntimeSettings {
        RuntimeSettings {
            flow_speed: match input.speed {
                Some(v) => v,
                None => self.flow_speed,
            },
            track_height: match input.track_height {
                Some(v) => v,
                None => self.track_height,
            },
            delay_enabled: match input.delayed_note_enabled {
                Some(v) => v,
                None => self.delay_enabled,
            },
            delay_ms: match input.short_note_threshold_ms {
                Some(v) => v,
                None => self.delay_ms,
            },
            short_note_min_length_px: match input.short_note_min_length_px {
                Some(v) => v,
                None => self.short_note_min_length_px,
            },
        }
    }

    /// Whether new presses are deferred by the display delay.
    pub open spec fn uses_delay(self) -> bool {
        self.delay_enabled && self.delay_ms > 0
    }

    /// Minimum note length in ms: `round(min_px * 1000 / flow_speed)`, zero when
    /// either is zero.
    pub open spec fn min_length_ms_spec(self) -> nat {
        if self.short_note_min_length_px == 0 || self.flow_speed == 0 {
            0
        } else {
            ((2000 * self.short_note_min_length_px + self.flow_speed) / (2
                * self.flow_speed)) as nat
        }
    }

    /// Minimum note length in ms.
    pub fn min_length_ms(&self) -> (r: u64)
        ensures
            r == self.min_length_ms_spec(),
    {
        if self.short_note_min_length_px == 0 || self.flow_speed == 0 {
            return 0;
        }
        let px = self.short_note_min_length_px as u64;
        let fs = self.flow_speed as u64;
        (2000 * px + fs) / (2 * fs)
    }
}

} // verus!
