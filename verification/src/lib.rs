//! Verified core of a small terminal music tracker: pattern data, the
//! playback clock, the key-driven editor state machine and the text that
//! the screens show.

pub mod console;
pub mod demo;
pub mod playback;
pub mod render;
pub mod sequencer;
pub mod session;
pub mod song;
pub mod text;
pub mod ui;
