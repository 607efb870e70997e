//! A single timed note event of a lead.

use crate::notes::note::{compare_int, compare_u64, lemma_note_at_pitch, Note};
use vstd::prelude::*;

verus! {

/// Velocity of the note, typically in 0..=127.
pub type Velocity = u8;

/// A point or span of time, in ticks of the MIDI file.
pub type DeltaTime = u32;

/// Holder of the pitch, velocity, start time, length and the delay
/// (pause before the note), all times in [`DeltaTime`] ticks.
#[derive(Copy, Clone, PartialEq, Eq, Structural, Debug, Hash)]
pub struct NoteData {
    pub note: Note,
    pub velocity: Velocity,
    pub start: DeltaTime,
    pub length: DeltaTime,
    pub delay: DeltaTime,
}



impl NoteData {
    /// A note event is well formed when it lasts at least one tick.
    pub open spec fn wf(self) -> bool {
        self.length > 0
    }

    /// This event with its pitch replaced by `note`, all else kept.
    pub open spec fn with_note(self, note: Note) -> NoteData {
        NoteData { note, ..self }
    }

    /// This event moved `d` semitones, or `None` where no note lies there.
    pub open spec fn shifted(self, d: int) -> Option<NoteData> {
        match self.note.shifted(d) {
            Some(n) => Some(self.with_note(n)),
            None => None,
        }
    }

    pub fn new(
        note: Note,
        velocity: Velocity,
        start: DeltaTime,
        length: DeltaTime,
        delay: DeltaTime,
    ) -> (r: Self)
        ensures
            r.note == note,
            r.velocity == velocity,
            r.start == start,
            r.length == length,
            r.delay == delay,
    {
        Self { note, velocity, start, length, delay }
    }

    /// Gets note (or pitch) of the data.
    pub fn note(&self) -> (r: Note)
        ensures
            r == self.note,
    {
        self.note
    }

    /// Gets velocity of the note.
    pub fn velocity(&self) -> (r: u8)
        ensures
            r == self.velocity,
    {
        self.velocity
    }

    /// Gets the start time of the note.
    pub fn start(&self) -> (r: DeltaTime)
        ensures
            r == self.start,
    {
        self.start
    }

    /// Gets length of the note.
    pub fn length(&self) -> (r: DeltaTime)
        ensures
            r == self.length,
    {
        self.length
    }

    /// Gets the delay (pause before the note) of the note.
    pub fn delay(&self) -> (r: DeltaTime)
        ensures
            r == self.delay,
    {
        self.delay
    }

    /// Clones the data with the new note.
    pub fn clone_with_new_note(&self, note: Note) -> (r: Self)
        ensures
            r == self.with_note(note),
    {
        Self::new(note, self.velocity, self.start, self.length, self.delay)
    }

    /// Clones the data with the new velocity.
    pub fn clone_with_velocity(&self, velocity: Velocity) -> (r: Self)
        ensures
            r == (NoteData { velocity, ..*self }),
    {
        Self::new(self.note, velocity, self.start, self.length, self.delay)
    }

    /// Clones the data with the new start.
    pub fn clone_with_new_start(&self, start: DeltaTime) -> (r: Self)
        ensures
            r == (NoteData { start, ..*self }),
    {
        Self::new(self.note, self.velocity, start, self.length, self.delay)
    }

    /// Clones the data with the new length.
    pub fn clone_with_new_length(&self, length: DeltaTime) -> (r: Self)
        ensures
            r == (NoteData { length, ..*self }),
    {
        Self::new(self.note, self.velocity, self.start, length, self.delay)
    }

    /// Clones the data with the new delay.
    pub fn clone_with_new_delay(&self, delay: DeltaTime) -> (r: Self)
        ensures
            r == (NoteData { delay, ..*self }),
    {
        Self::new(self.note, self.velocity, self.start, self.length, delay)
    }

    /// Increases note's pitch by the given number of semitones,
    /// keeping velocity and timing; `None` where no such note exists.
    pub fn up(&self, semitones: u8) -> (r: Option<Self>)
        ensures
            r == self.shifted(semitones as int),
    {
        match self.note.up(semitones) {
            Some(n) => Some(self.clone_with_new_note(n)),
            None => None,
        }
    }

    /// Decreases note's pitch by the given number of semitones,
    /// keeping velocity and timing; `None` where no such note exists.
    pub fn down(&self, semitones: u8) -> (r: Option<Self>)
        ensures
            r == self.shifted(-(semitones as int)),
    {
        match self.note.down(semitones) {
            Some(n) => Some(self.clone_with_new_note(n)),
            None => None,
        }
    }

    /// Increases note's pitch by an octave.
    pub fn octave_up(&self) -> (r: Option<Self>)
        ensures
            r == self.shifted(12),
    {
        self.up(12)
    }

    /// Lowers note's pitch by an octave.
    pub fn octave_down(&self) -> (r: Option<Self>)
        ensures
            r == self.shifted(-12),
    {
        self.down(12)
    }
}

/// Note events are ordered by start time, then by pitch; events that share
/// both compare equal, whatever their velocity, length and delay.
pub open spec fn note_order(a: NoteData, b: NoteData) -> core::cmp::Ordering {
    if a.start != b.start {
        compare_int(a.start as int, b.start as int)
    } else {
        compare_int(a.note.pitch(), b.note.pitch())
    }
}

/// Events compare equal exactly when they share start and pitch (so also
/// pitch class and note), and swapping the events reverses the order.
pub proof fn lemma_note_order_consistent(a: NoteData, b: NoteData)
    ensures
        note_order(a, b) == core::cmp::Ordering::Equal <==> a.start == b.start && a.note == b.note,
        note_order(a, b) == core::cmp::Ordering::Less <==> note_order(b, a) == core::cmp::Ordering::Greater,
{
    lemma_note_at_pitch(a.note);
    lemma_note_at_pitch(b.note);
}

impl PartialOrd for NoteData {
    fn partial_cmp(&self, other: &NoteData) -> (r: Option<core::cmp::Ordering>) {
        match compare_u64(self.start as u64, other.start as u64) {
            core::cmp::Ordering::Equal => Some(compare_u64(self.note.midi() as u64, other.note.midi() as u64)),
            o => Some(o),
        }
    }
}

impl vstd::std_specs::cmp::PartialOrdSpecImpl for NoteData {
    open spec fn obeys_partial_cmp_spec() -> bool {
        true
    }

    open spec fn partial_cmp_spec(&self, other: &NoteData) -> Option<core::cmp::Ordering> {
        Some(note_order(*self, *other))
    }
}

} // verus!
