//! MIDI note events of leads and chords.

use crate::notes::note_data::{DeltaTime, NoteData};
use vstd::prelude::*;

verus! {

/// Channel of the lead track.
pub const LEAD_CHANNEL: u8 = 0;

/// Channel of the chord track.
pub const CHORD_CHANNEL: u8 = 1;

/// A MIDI note event: `delta_time` ticks after the event before it, on the
/// channel, for the MIDI note number, at the velocity. A note is released
/// by a note-on event of velocity 0.
#[derive(Copy, Clone, PartialEq, Eq, Structural, Debug)]
pub enum MidiMessage {
    NoteOn { delta_time: DeltaTime, channel: u8, note: u8, velocity: u8 },
    NoteOff { delta_time: DeltaTime, channel: u8, note: u8, velocity: u8 },
}

/// The event that starts the note `start` ticks after the event before it.
pub open spec fn on_event(n: NoteData, start: DeltaTime, channel: u8) -> MidiMessage {
    MidiMessage::NoteOn { delta_time: start, channel, note: n.note.pitch() as u8, velocity: n.velocity }
}

/// The event that releases the note `end` ticks after the event before it.
pub open spec fn off_event(n: NoteData, end: DeltaTime, channel: u8) -> MidiMessage {
    MidiMessage::NoteOn { delta_time: end, channel, note: n.note.pitch() as u8, velocity: 0 }
}

/// Ticks from the event before the note to its end: its delay and length.
pub open spec fn end_of(n: NoteData) -> int {
    n.delay + n.length
}

impl NoteData {
    /// Constructs the note-on event of the note, `start` ticks after the
    /// event before it.
    pub fn into_on_midi_event(self, start: DeltaTime, channel: u8) -> (r: MidiMessage)
        ensures
            r == on_event(self, start, channel),
    {
        MidiMessage::NoteOn { delta_time: start, channel, note: self.note.midi(), velocity: self.velocity }
    }

    /// Constructs the event that releases the note (a note-on of velocity
    /// 0), `end` ticks after the event before it.
    pub fn into_off_midi_event(self, end: DeltaTime, channel: u8) -> (r: MidiMessage)
        ensures
            r == off_event(self, end, channel),
    {
        MidiMessage::NoteOn { delta_time: end, channel, note: self.note.midi(), velocity: 0 }
    }

    /// Constructs both events of the note.
    pub fn into_on_off_midi_events(self, start: DeltaTime, end: DeltaTime, channel: u8) -> (r: (
        MidiMessage,
        MidiMessage,
    ))
        ensures
            r == (on_event(self, start, channel), off_event(self, end, channel)),
    {
        (self.into_on_midi_event(start, channel), self.into_off_midi_event(end, channel))
    }

    /// Ticks from the event before the note to its end.
    pub fn end_time(&self) -> (r: u64)
        ensures
            r == end_of(*self),
    {
        self.delay as u64 + self.length as u64
    }
}

/// The two events of a lead note: on after its delay, off after its length.
pub open spec fn note_events(n: NoteData) -> Seq<MidiMessage> {
    seq![on_event(n, n.delay, LEAD_CHANNEL), off_event(n, n.length, LEAD_CHANNEL)]
}

/// The events of the notes from `i` on, note after note.
pub open spec fn lead_events(lead: Seq<NoteData>) -> Seq<MidiMessage>
    decreases lead.len(),
{
    if lead.len() == 0 {
        Seq::empty()
    } else {
        lead_events(lead.drop_last()) + note_events(lead.last())
    }
}

/// Constructs the note-on and note-off events of a lead note: on after the
/// note's delay, off when its length is reached.
pub fn compose_note(note: NoteData) -> (r: Vec<MidiMessage>)
    ensures
        r@ == note_events(note),
{
    let r = vec![note.into_on_midi_event(note.delay, LEAD_CHANNEL), note.into_off_midi_event(note.length, LEAD_CHANNEL)];
    assert(r@ =~= note_events(note));
    r
}

/// Constructs the events of a whole lead, note after note.
pub fn compose_lead_from_generated(generated_lead: Vec<NoteData>) -> (r: Vec<MidiMessage>)
    ensures
        r@ == lead_events(generated_lead@),
{
    let mut r: Vec<MidiMessage> = Vec::new();
    let mut i: usize = 0;
    while i < generated_lead.len()
        invariant
            i <= generated_lead.len(),
            r@ == lead_events(generated_lead@.subrange(0, i as int)),
        decreases generated_lead.len() - i,
    {
        let events = compose_note(generated_lead[i]);
        let ghost before = r@;
        r.push(events[0]);
        r.push(events[1]);
        proof {
            let prefix = generated_lead@.subrange(0, i + 1);
            assert(prefix.drop_last() =~= generated_lead@.subrange(0, i as int));
            assert(r@ =~= before + note_events(generated_lead[i as int]));
        }
        i = i + 1;
    }
    assert(generated_lead@.subrange(0, generated_lead.len() as int) =~= generated_lead@);
    r
}

/// Relies on std's `slice::sort_by_key`: the same notes, ordered by end time.
#[verifier::external_body]
fn sort_by_end(chord: &mut Vec<NoteData>)
    ensures
        final(chord)@.to_multiset() == old(chord)@.to_multiset(),
        ordered_by_end(final(chord)@),
{
    chord.sort_by_key(|nd| nd.end_time())
}

/// The notes are in order of end time.
pub open spec fn ordered_by_end(s: Seq<NoteData>) -> bool {
    forall|i: int, j: int| 0 <= i < j < s.len() ==> end_of(#[trigger] s[i]) <= end_of(#[trigger] s[j])
}

/// The release of note `k` of a chord ordered by end time, timed from the
/// release before it.
pub open spec fn release_event(sorted: Seq<NoteData>, k: int) -> MidiMessage {
    let prev = if k == 0 {
        0
    } else {
        end_of(sorted[k - 1])
    };
    off_event(sorted[k], (end_of(sorted[k]) - prev) as DeltaTime, CHORD_CHANNEL)
}

/// From place `n` on, `r` holds the releases of the ordered chord.
pub open spec fn releases_match(sorted: Seq<NoteData>, r: Seq<MidiMessage>, n: int) -> bool {
    &&& r.len() == n + sorted.len()
    &&& forall|k: int| 0 <= k < sorted.len() ==> r[n + k] == #[trigger] release_event(sorted, k)
}

/// Constructs the events of a chord: all note-on events at once (after
/// each note's delay), then the releases in order of end time, each
/// timed from the release before it. All notes of a chord are expected to
/// share their delay.
pub fn compose_chord(chord: Vec<NoteData>) -> (r: Vec<MidiMessage>)
    requires
        forall|i: int| 0 <= i < chord.len() ==> end_of(#[trigger] chord[i]) <= u32::MAX,
    ensures
        r.len() == 2 * chord.len(),
        forall|i: int| 0 <= i < chord.len() ==> #[trigger] r[i] == on_event(chord[i], chord[i].delay, CHORD_CHANNEL),
        exists|sorted: Seq<NoteData>|
            sorted.to_multiset() == chord@.to_multiset() && ordered_by_end(sorted) && #[trigger] releases_match(
                sorted,
                r@,
                chord.len() as int,
            ),
{
    let mut r: Vec<MidiMessage> = Vec::new();
    let mut i: usize = 0;
    while i < chord.len()
        invariant
            i <= chord.len(),
            r.len() == i,
            forall|k: int| 0 <= k < i ==> #[trigger] r[k] == on_event(chord[k], chord[k].delay, CHORD_CHANNEL),
        decreases chord.len() - i,
    {
        r.push(chord[i].into_on_midi_event(chord[i].delay, CHORD_CHANNEL));
        i = i + 1;
    }
    let ghost unsorted = chord@;
    let mut sorted = chord;
    sort_by_end(&mut sorted);
    proof {
        unsorted.to_multiset_ensures();
        sorted@.to_multiset_ensures();
        assert forall|k: int| 0 <= k < sorted.len() implies end_of(#[trigger] sorted[k]) <= u32::MAX by {
            assert(sorted@.contains(sorted[k]));
            assert(sorted@.to_multiset().count(sorted[k]) > 0);
            assert(unsorted.contains(sorted[k]));
        }
    }
    let n = sorted.len();
    let mut prev_end: u64 = 0;
    let mut k: usize = 0;
    while k < n
        invariant
            n == sorted.len() == unsorted.len(),
            k <= n,
            r.len() == n + k,
            forall|m: int| 0 <= m < n ==> #[trigger] r[m] == on_event(unsorted[m], unsorted[m].delay, CHORD_CHANNEL),
            forall|m: int| 0 <= m < n ==> end_of(#[trigger] sorted[m]) <= u32::MAX,
            ordered_by_end(sorted@),
            prev_end == if k == 0 {
                0
            } else {
                end_of(sorted[k - 1])
            },
            forall|m: int| 0 <= m < k ==> r[n + m] == #[trigger] release_event(sorted@, m),
        decreases n - k,
    {
        let end = sorted[k].end_time();
        proof {
            if k > 0 {
                assert(end_of(sorted[k - 1]) <= end_of(sorted[k as int]));
            }
        }
        let offset = (end - prev_end) as u32;
        r.push(sorted[k].into_off_midi_event(offset, CHORD_CHANNEL));
        prev_end = end;
        k = k + 1;
    }
    assert(releases_match(sorted@, r@, n as int));
    r
}

/// The message moved to another channel, all else kept.
pub open spec fn on_channel(m: MidiMessage, channel: u8) -> MidiMessage {
    match m {
        MidiMessage::NoteOn { delta_time, note, velocity, .. } => MidiMessage::NoteOn { delta_time, channel, note, velocity },
        MidiMessage::NoteOff { delta_time, note, velocity, .. } => MidiMessage::NoteOff { delta_time, channel, note, velocity },
    }
}

/// Moves a note message to the given channel.
pub fn change_note_msg_channel(midi_msg: &MidiMessage, channel: u8) -> (r: MidiMessage)
    ensures
        r == on_channel(*midi_msg, channel),
{
    match midi_msg {
        MidiMessage::NoteOn { delta_time, note, velocity, .. } => MidiMessage::NoteOn {
            delta_time: *delta_time,
            channel,
            note: *note,
            velocity: *velocity,
        },
        MidiMessage::NoteOff { delta_time, note, velocity, .. } => MidiMessage::NoteOff {
            delta_time: *delta_time,
            channel,
            note: *note,
            velocity: *velocity,
        },
    }
}

} // verus!
