//! Pitches and timed note events.

pub mod note;
pub mod note_data;
