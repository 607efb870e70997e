//! The parser that collects chords from a MIDI file.

use crate::notes::note::Note;
use crate::notes::note_data::{DeltaTime, NoteData, Velocity};
use vstd::prelude::*;

verus! {

/// Notes of a chord.
pub type ChordData = Vec<NoteData>;

/// The velocity and time of the last note-on event of pitch `n`, if any.
pub open spec fn last_on(on: Seq<(Note, Velocity, DeltaTime)>, n: Note) -> Option<(Velocity, DeltaTime)>
    decreases on.len(),
{
    if on.len() == 0 {
        None
    } else if on.last().0 == n {
        Some((on.last().1, on.last().2))
    } else {
        last_on(on.drop_last(), n)
    }
}

/// Collects chords: the notes released between two runs of note-on events
/// form one chord.
#[derive(Debug)]
pub struct ChordParser {
    notes_on: Vec<(Note, Velocity, DeltaTime)>,
    current_chord_on: ChordData,
    extracted_chords: Vec<ChordData>,
}

impl ChordParser {
    /// Every note-on event so far, in order.
    pub closed spec fn opened(&self) -> Seq<(Note, Velocity, DeltaTime)> {
        self.notes_on@
    }

    /// The notes of the chord being collected.
    pub closed spec fn current_chord(&self) -> Seq<NoteData> {
        self.current_chord_on@
    }

    /// The chords completed so far.
    pub closed spec fn chords(&self) -> Seq<Seq<NoteData>> {
        self.extracted_chords@.map_values(|c: ChordData| c@)
    }

    /// Constructs a parser that has seen no event.
    pub fn new() -> (r: Self)
        ensures
            r.opened() == Seq::<(Note, Velocity, DeltaTime)>::empty(),
            r.current_chord() == Seq::<NoteData>::empty(),
            r.chords() == Seq::<Seq<NoteData>>::empty(),
    {
        let r = ChordParser { notes_on: Vec::new(), current_chord_on: Vec::new(), extracted_chords: Vec::new() };
        assert(r.chords() =~= Seq::<Seq<NoteData>>::empty());
        r
    }

    /// Completes the chord being collected.
    fn extract_latest_chord(&mut self)
        ensures
            final(self).opened() == old(self).opened(),
            final(self).current_chord() == Seq::<NoteData>::empty(),
            final(self).chords() == old(self).chords().push(old(self).current_chord()),
    {
        let chord = self.current_chord_on.split_off(0);
        assert(chord@ =~= old(self).current_chord());
        let ghost before = self.extracted_chords@;
        self.extracted_chords.push(chord);
        assert(self.extracted_chords@ == before.push(chord));
        assert(self.chords() =~= old(self).chords().push(old(self).current_chord()));
    }

    /// Takes a note-on event: a chord with released notes is completed
    /// first, then the note is opened.
    pub fn note_on(&mut self, delta_time: DeltaTime, note: Note, velocity: Velocity)
        ensures
            final(self).opened() == old(self).opened().push((note, velocity, delta_time)),
            old(self).current_chord().len() == 0 ==> final(self).chords() == old(self).chords(),
            old(self).current_chord().len() > 0 ==> final(self).chords() == old(self).chords().push(
                old(self).current_chord(),
            ),
            final(self).current_chord() == Seq::<NoteData>::empty(),
    {
        if self.current_chord_on.len() > 0 {
            self.extract_latest_chord();
        }
        self.notes_on.push((note, velocity, delta_time));
    }

    /// Takes a note-off event: the note, if it was opened, joins the chord
    /// being collected, lasting `delta_time` ticks.
    pub fn note_off(&mut self, delta_time: DeltaTime, note: Note)
        ensures
            final(self).opened() == old(self).opened(),
            final(self).chords() == old(self).chords(),
            last_on(old(self).opened(), note) is None ==> final(self).current_chord() == old(self).current_chord(),
            last_on(old(self).opened(), note) matches Some((velocity, start)) ==> final(self).current_chord()
                == old(self).current_chord().push(NoteData { note, velocity, start, length: delta_time, delay: 0 }),
    {
        match self.find_last_on(note) {
            Some((velocity, start)) => {
                self.current_chord_on.push(NoteData::new(note, velocity, start, delta_time, 0));
            },
            None => {},
        }
    }

    /// The velocity and time of the last note-on event of the pitch.
    fn find_last_on(&self, note: Note) -> (r: Option<(Velocity, DeltaTime)>)
        ensures
            r == last_on(self.opened(), note),
    {
        let ghost on = self.notes_on@;
        let mut i: usize = self.notes_on.len();
        assert(on.subrange(0, on.len() as int) =~= on);
        while i > 0
            invariant
                on == self.notes_on@,
                i <= on.len(),
                last_on(on, note) == last_on(on.subrange(0, i as int), note),
            decreases i,
        {
            let (n, velocity, start) = self.notes_on[i - 1];
            assert(on.subrange(0, i as int).drop_last() =~= on.subrange(0, i - 1));
            if n == note {
                return Some((velocity, start));
            }
            i = i - 1;
        }
        None
    }

    /// Extracts the completed chords, the one being collected last.
    pub fn extract_chords(self) -> (r: Vec<ChordData>)
        ensures
            self.current_chord().len() == 0 ==> r@.map_values(|c: ChordData| c@) == self.chords(),
            self.current_chord().len() > 0 ==> r@.map_values(|c: ChordData| c@) == self.chords().push(
                self.current_chord(),
            ),
    {
        let mut parser = self;
        if parser.current_chord_on.len() > 0 {
            parser.extract_latest_chord();
        }
        parser.extracted_chords
    }
}

} // verus!
