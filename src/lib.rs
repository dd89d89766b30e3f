//! Falling-note overlay core: key labels, the note buffer and its frame
//! encoding, the note lifecycle engine, input routing state and settings.

pub mod ieee;
pub mod layout;
pub mod buffer;
pub mod types;
pub mod engine;
pub mod labels;
pub mod ipc;
pub mod router;
pub mod models;
pub mod settings;
pub mod capture;
