//! Hotkey capture and matching over a global keyboard hook, and single-flight
//! playback of a command script as simulated keystrokes.

pub mod dispatch;
pub mod dispatch_laws;
pub mod engine;
pub mod engine_laws;
pub mod hotkey;
pub mod hotkey_laws;
pub mod keys;
pub mod label;
pub mod messages;
pub mod playback;
pub mod playback_laws;
pub mod script;
pub mod text;
