//! Hit judgement for a two-lane rhythm game: a playback clock, a queue of
//! pending hit objects, classification of key presses, and the rules that
//! decide which objects were struck, with what timing error, and which expired.
//!
//! All times are whole microseconds (`i64`).

pub mod beatmap;
pub mod clock;
pub mod input;
pub mod settings;
pub mod judge;
pub mod system;
