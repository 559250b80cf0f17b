//! Text commands for a MIDI console, turned into three-byte channel-voice
//! messages.

pub mod command;
pub mod console;
pub mod message;
pub mod registry;
pub mod token;
