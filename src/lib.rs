//! A real-time audio rendering core: layout-agnostic sample buffers, the processor contract,
//! a sample-accurate transport clock, MIDI intake, the bridge between capture and render
//! callbacks, the decisions of the standalone engine runtime, and looped playback of decoded
//! audio.
pub mod bridge;
pub mod buffer;
pub mod engine;
pub mod metronome;
pub mod midi;
pub mod options;
pub mod player;
pub mod processor;
pub mod spacing;
pub mod transport;
