//! A music quiz library: tracks read from tagged audio files, a deduplicated
//! library of them, and timed rounds that ask which candidate is playing.
pub mod game;
pub mod media;

pub use game::{Game, Round};
pub use media::{Image, Picture, TagData, Track};
