//! The parser that collects a single-voice lead from a MIDI file.

use crate::notes::note::Note;
use crate::notes::note_data::{DeltaTime, NoteData, Velocity};
use vstd::prelude::*;

verus! {

/// Collects the notes of a lead: each note-off event closes the note that
/// the last note-on event opened.
#[derive(Debug)]
pub struct LeadParser {
    current_note_on: Option<(Note, Velocity, DeltaTime)>,
    extracted_lead: Vec<NoteData>,
}

impl LeadParser {
    /// The pitch, velocity and time of the last note-on event, if any.
    pub closed spec fn current(&self) -> Option<(Note, Velocity, DeltaTime)> {
        self.current_note_on
    }

    /// The notes collected so far.
    pub closed spec fn extracted(&self) -> Seq<NoteData> {
        self.extracted_lead@
    }

    /// Constructs a parser that has seen no event.
    pub fn new() -> (r: Self)
        ensures
            r.current() is None,
            r.extracted() == Seq::<NoteData>::empty(),
    {
        LeadParser { current_note_on: None, extracted_lead: Vec::new() }
    }

    /// Takes a note-on event: the note becomes the one to close next.
    pub fn note_on(&mut self, delta_time: DeltaTime, note: Note, velocity: Velocity)
        ensures
            final(self).current() == Some((note, velocity, delta_time)),
            final(self).extracted() == old(self).extracted(),
    {
        self.current_note_on = Some((note, velocity, delta_time));
    }

    /// Takes a note-off event: the last opened note is collected, lasting
    /// `delta_time` ticks; an event with no note opened before is skipped.
    pub fn note_off(&mut self, delta_time: DeltaTime)
        ensures
            final(self).current() == old(self).current(),
            old(self).current() is None ==> final(self).extracted() == old(self).extracted(),
            old(self).current() matches Some((note, velocity, start)) ==> final(self).extracted()
                == old(self).extracted().push(NoteData { note, velocity, start, length: delta_time, delay: 0 }),
    {
        if let Some((note, velocity, start)) = self.current_note_on {
            self.extracted_lead.push(NoteData::new(note, velocity, start, delta_time, 0));
        }
    }

    /// Extracts the collected lead.
    pub fn extract_lead(self) -> (r: Vec<NoteData>)
        ensures
            r@ == self.extracted(),
    {
        self.extracted_lead
    }
}

} // verus!
