//! Collectors of notes from a stream of MIDI note events.
//!
//! A MIDI reader hands each parser the events of a file in order; the parser
//! pairs note-on and note-off events into [`NoteData`](crate::notes::note_data::NoteData).

pub mod chord_parser;
pub mod lead_parser;
pub mod midi_parser;
