//! A pulse-driven MIDI loop sequencer: transport state, quantized loops,
//! the slot grid and the player that walks it.

pub mod clock;
pub mod config;
pub mod engine;
pub mod midi;
pub mod monitor;
pub mod options;
pub mod playback;
pub mod ports;
pub mod smf;
pub mod text;
