//! The parser that collects every note of a MIDI file.

use crate::notes::note::Note;
use crate::notes::note_data::{DeltaTime, NoteData, Velocity};
use vstd::prelude::*;

verus! {

/// Note events are ordered by start time, then by pitch.
pub open spec fn comes_before_or_with(a: NoteData, b: NoteData) -> bool {
    a.start < b.start || (a.start == b.start && a.note.pitch() <= b.note.pitch())
}

/// The notes are in order of start time, then pitch.
pub open spec fn is_in_note_order(s: Seq<NoteData>) -> bool {
    forall|i: int, j: int| 0 <= i < j < s.len() ==> comes_before_or_with(#[trigger] s[i], #[trigger] s[j])
}

/// `r` is `s` with `x` put after every note that comes before or with it
/// and before every other.
pub open spec fn inserted_in_order(s: Seq<NoteData>, x: NoteData, r: Seq<NoteData>) -> bool {
    exists|pos: int|
        {
            &&& 0 <= pos <= s.len()
            &&& r == s.insert(pos, x)
            &&& forall|j: int| 0 <= j < pos ==> comes_before_or_with(#[trigger] s[j], x)
            &&& forall|j: int| pos <= j < s.len() ==> !comes_before_or_with(#[trigger] s[j], x)
        }
}

/// The running time after an event `delta` ticks after `timer`, in the
/// 32-bit tick counter of the file.
pub open spec fn advanced(timer: DeltaTime, delta: DeltaTime) -> DeltaTime {
    ((timer + delta) % 0x1_0000_0000) as DeltaTime
}

/// A note that is sounding: its pitch, velocity, start time and the delay
/// of its note-on event.
pub type SoundingNote = (Note, Velocity, DeltaTime, DeltaTime);

/// Index of the sounding note with pitch `n`, or -1.
pub open spec fn sounding_index(on: Seq<SoundingNote>, n: Note) -> int {
    if exists|i: int| 0 <= i < on.len() && (#[trigger] on[i]).0 == n {
        choose|i: int| 0 <= i < on.len() && (#[trigger] on[i]).0 == n
    } else {
        -1
    }
}

/// Parses the note events of a single MIDI file into [`NoteData`].
#[derive(Debug)]
pub struct MidiParser {
    notes: Vec<NoteData>,
    delta_timer: DeltaTime,
    notes_on: Vec<SoundingNote>,
}

impl MidiParser {
    /// The finished notes, in order of start time and pitch.
    pub closed spec fn finished(&self) -> Seq<NoteData> {
        self.notes@
    }

    /// Ticks from the start of the file to the last event.
    pub closed spec fn timer(&self) -> DeltaTime {
        self.delta_timer
    }

    /// The notes that are sounding, at most one per pitch.
    pub closed spec fn sounding(&self) -> Seq<SoundingNote> {
        self.notes_on@
    }

    pub open spec fn wf(&self) -> bool {
        &&& is_in_note_order(self.finished())
        &&& forall|i: int, j: int|
            0 <= i < j < self.sounding().len() ==> (#[trigger] self.sounding()[i]).0 != (
            #[trigger] self.sounding()[j]).0
    }

    /// Constructs a new MIDI parser with no parsed data.
    pub fn new() -> (r: Self)
        ensures
            r.wf(),
            r.finished() == Seq::<NoteData>::empty(),
            r.timer() == 0,
            r.sounding() == Seq::<SoundingNote>::empty(),
    {
        MidiParser { notes: Vec::new(), delta_timer: 0, notes_on: Vec::new() }
    }

    /// Takes an event other than a note event, `delta_time` ticks after the
    /// one before it.
    pub fn other_event(&mut self, delta_time: DeltaTime)
        requires
            old(self).wf(),
        ensures
            final(self).wf(),
            final(self).timer() == advanced(old(self).timer(), delta_time),
            final(self).finished() == old(self).finished(),
            final(self).sounding() == old(self).sounding(),
    {
        self.delta_timer = ((self.delta_timer as u64 + delta_time as u64) % 0x1_0000_0000) as u32;
        assert(self.sounding() == old(self).sounding());
        assert(self.finished() == old(self).finished());
    }

    /// Takes a note-on event: the note starts sounding now, unless it
    /// already sounds.
    pub fn note_on(&mut self, delta_time: DeltaTime, note: Note, velocity: Velocity)
        requires
            old(self).wf(),
        ensures
            final(self).wf(),
            final(self).timer() == advanced(old(self).timer(), delta_time),
            final(self).finished() == old(self).finished(),
            sounding_index(old(self).sounding(), note) >= 0 ==> final(self).sounding() == old(self).sounding(),
            sounding_index(old(self).sounding(), note) < 0 ==> final(self).sounding() == old(self).sounding().push(
                (note, velocity, final(self).timer(), delta_time),
            ),
    {
        self.other_event(delta_time);
        match self.find_sounding(note) {
            Some(_) => {},
            None => {
                let ghost before = self.notes_on@;
                self.notes_on.push((note, velocity, self.delta_timer, delta_time));
                assert forall|i: int, j: int|
                    0 <= i < j < self.notes_on@.len() implies (#[trigger] self.notes_on@[i]).0 != (
                    #[trigger] self.notes_on@[j]).0 by {
                    if j == before.len() {
                        assert(before[i].0 != note);
                    }
                }
            },
        }
    }

    /// Takes a note-off event: the note, if it sounds, stops and becomes a
    /// finished note that lasted from its start until now.
    pub fn note_off(&mut self, delta_time: DeltaTime, note: Note)
        requires
            old(self).wf(),
        ensures
            final(self).wf(),
            final(self).timer() == advanced(old(self).timer(), delta_time),
            sounding_index(old(self).sounding(), note) < 0 ==> final(self).sounding() == old(self).sounding()
                && final(self).finished() == old(self).finished(),
            sounding_index(old(self).sounding(), note) >= 0 ==> {
                let i = sounding_index(old(self).sounding(), note);
                let (n, vel, start, delay) = old(self).sounding()[i];
                &&& final(self).sounding() == old(self).sounding().remove(i)
                &&& inserted_in_order(
                    old(self).finished(),
                    NoteData {
                        note: n,
                        velocity: vel,
                        start,
                        length: ((final(self).timer() - start) % 0x1_0000_0000) as DeltaTime,
                        delay,
                    },
                    final(self).finished(),
                )
            },
    {
        self.other_event(delta_time);
        match self.find_sounding(note) {
            None => {},
            Some(i) => {
                let (n, vel, start, delay) = self.notes_on[i];
                let ghost before = self.notes_on@;
                self.notes_on.remove(i);
                assert forall|a: int, b: int|
                    0 <= a < b < self.notes_on@.len() implies (#[trigger] self.notes_on@[a]).0 != (
                    #[trigger] self.notes_on@[b]).0 by {
                    let a0 = if a < i { a } else { a + 1 };
                    let b0 = if b < i { b } else { b + 1 };
                    assert(self.notes_on@[a] == before[a0] && self.notes_on@[b] == before[b0]);
                }
                let len = ((self.delta_timer as u64 + 0x1_0000_0000 - start as u64) % 0x1_0000_0000) as u32;
                let finished = NoteData::new(n, vel, start, len, delay);
                self.insert_finished(finished);
            },
        }
    }

    /// The place of the sounding note with the given pitch.
    fn find_sounding(&self, note: Note) -> (r: Option<usize>)
        requires
            self.wf(),
        ensures
            r is None <==> sounding_index(self.sounding(), note) < 0,
            r matches Some(i) ==> i == sounding_index(self.sounding(), note),
    {
        let mut i: usize = 0;
        while i < self.notes_on.len()
            invariant
                self.wf(),
                i <= self.notes_on.len(),
                forall|j: int| 0 <= j < i ==> (#[trigger] self.notes_on@[j]).0 != note,
            decreases self.notes_on.len() - i,
        {
            if self.notes_on[i].0 == note {
                proof {
                    let k = choose|k: int| 0 <= k < self.notes_on@.len() && (#[trigger] self.notes_on@[k]).0 == note;
                    if k != i {
                        assert(self.sounding()[k].0 == self.sounding()[i as int].0);
                        if k < i {
                            assert(self.sounding()[k].0 != self.sounding()[i as int].0);
                        } else {
                            assert(self.sounding()[i as int].0 != self.sounding()[k].0);
                        }
                    }
                }
                return Some(i);
            }
            i = i + 1;
        }
        None
    }

    /// Puts a finished note in its place: after every note that starts
    /// earlier, or at the same time at a lower or equal pitch.
    fn insert_finished(&mut self, x: NoteData)
        requires
            old(self).wf(),
        ensures
            final(self).wf(),
            final(self).timer() == old(self).timer(),
            final(self).sounding() == old(self).sounding(),
            inserted_in_order(old(self).finished(), x, final(self).finished()),
    {
        let ghost s = self.notes@;
        let mut pos: usize = 0;
        while pos < self.notes.len() && (self.notes[pos].start < x.start || (self.notes[pos].start == x.start
            && self.notes[pos].note.midi() <= x.note.midi()))
            invariant
                s == self.notes@,
                pos <= s.len(),
                forall|j: int| 0 <= j < pos ==> comes_before_or_with(#[trigger] s[j], x),
            decreases s.len() - pos,
        {
            pos = pos + 1;
        }
        proof {
            if pos < s.len() {
                assert(!comes_before_or_with(s[pos as int], x));
                assert forall|j: int| pos <= j < s.len() implies !comes_before_or_with(#[trigger] s[j], x) by {
                    if j > pos {
                        assert(comes_before_or_with(s[pos as int], s[j]));
                    }
                }
            }
        }
        self.notes.insert(pos, x);
        proof {
            let r = self.notes@;
            assert(r == s.insert(pos as int, x));
            assert forall|i: int, j: int| 0 <= i < j < r.len() implies comes_before_or_with(#[trigger] r[i], #[trigger] r[j]) by {
                if i < pos && j == pos {
                } else if i == pos && j > pos {
                    assert(r[j] == s[j - 1]);
                } else if i < pos && j > pos {
                    assert(r[j] == s[j - 1]);
                    assert(comes_before_or_with(s[i], s[j - 1]));
                } else if j < pos {
                    assert(comes_before_or_with(s[i], s[j]));
                } else {
                    assert(r[i] == s[i - 1] && r[j] == s[j - 1]);
                    assert(comes_before_or_with(s[i - 1], s[j - 1]));
                }
            }
            assert(inserted_in_order(s, x, r));
            assert(self.sounding() == old(self).sounding());
            assert(is_in_note_order(self.finished()));
        }
    }

    /// Extracts all parsed notes, in order of start time and pitch.
    pub fn extract_notes(self) -> (r: Vec<NoteData>)
        requires
            self.wf(),
        ensures
            r@ == self.finished(),
            is_in_note_order(r@),
    {
        self.notes
    }
}

} // verus!
