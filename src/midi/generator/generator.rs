//! Scale-aware pitch moves and the rule-based lead generator.

use crate::midi::generator::{get_bar_ratio, random_from_vec, BAR_PARTS, BAR_TICKS};
use crate::notes::note::{Note, OCTAVE};
use crate::notes::note_data::{DeltaTime, NoteData, Velocity};
use crate::random::{random_below, random_ratio};
use vstd::prelude::*;

verus! {

/// Direction code of a move up the scale.
pub const DIRECTION_UP: u32 = 0;

/// Direction code of a move down the scale.
pub const DIRECTION_DOWN: u32 = 1;

/// Largest number of scale steps that one random move takes.
pub const MAX_RANDOM_STEPS: u128 = 6;

/// Index of the first occurrence of `n` in `s`, or -1.
pub open spec fn first_index(s: Seq<Note>, n: Note) -> int
    decreases s.len(),
{
    if s.len() == 0 {
        -1
    } else {
        let r = first_index(s.drop_last(), n);
        if r >= 0 {
            r
        } else if s.last() == n {
            s.len() - 1
        } else {
            -1
        }
    }
}

/// The scale note `steps` places above (or below) the first occurrence of
/// `tonic` in the scale; `None` where `tonic` is not in the scale or the
/// place lies outside it.
pub open spec fn scale_step(scale: Seq<Note>, tonic: Note, steps: int, up: bool) -> Option<Note> {
    let pos = first_index(scale, tonic);
    let target = if up {
        pos + steps
    } else {
        pos - steps
    };
    if pos < 0 || target < 0 || target >= scale.len() {
        None
    } else {
        Some(scale[target])
    }
}

/// Distance in semitones from scale note `i` to pitch `p`.
pub open spec fn distance_to(scale: Seq<Note>, i: int, p: int) -> int {
    let d = scale[i].pitch() - p;
    if d < 0 {
        -d
    } else {
        d
    }
}

/// Scale note `i` is the first of the scale notes closest to pitch `p`.
pub open spec fn first_closest(scale: Seq<Note>, p: int, i: int) -> bool {
    &&& 0 <= i < scale.len()
    &&& forall|j: int| 0 <= j < scale.len() ==> distance_to(scale, i, p) <= #[trigger] distance_to(scale, j, p)
    &&& forall|j: int| 0 <= j < i ==> distance_to(scale, i, p) < #[trigger] distance_to(scale, j, p)
}

/// `r` is `d` with its pitch snapped to the scale: `d` itself where its pitch
/// is in the scale (or the scale is empty), else `d` with the first of the
/// scale notes closest to its pitch.
pub open spec fn snaps_to(scale: Seq<Note>, d: NoteData, r: NoteData) -> bool {
    if scale.contains(d.note) || scale.len() == 0 {
        r == d
    } else {
        exists|i: int| first_closest(scale, d.note.pitch(), i) && r == d.with_note(scale[i])
    }
}

/// `d` moved `steps` scale notes up or down, kept where the move is not
/// possible.
pub open spec fn stepped(scale: Seq<Note>, d: NoteData, steps: int, up: bool) -> NoteData {
    match scale_step(scale, d.note, steps, up) {
        Some(n) => d.with_note(n),
        None => d,
    }
}

/// `r` is what a random move can make of `d`: moved up or down by at most
/// six scale notes, then snapped to the scale.
pub open spec fn is_random_move(scale: Seq<Note>, d: NoteData, r: NoteData) -> bool {
    exists|steps: int, up: bool| 0 <= steps <= MAX_RANDOM_STEPS && #[trigger] snaps_to(scale, stepped(scale, d, steps, up), r)
}

proof fn lemma_first_index_push(s: Seq<Note>, n: Note, i: int)
    requires
        0 <= i < s.len(),
        first_index(s.subrange(0, i), n) == -1,
    ensures
        first_index(s.subrange(0, i + 1), n) == if s[i] == n {
            i
        } else {
            -1
        },
{
    assert(s.subrange(0, i + 1).drop_last() =~= s.subrange(0, i));
}

/// Once a prefix holds `n`, its first index is the whole sequence's.
proof fn lemma_first_index_prefix(s: Seq<Note>, n: Note, k: int)
    requires
        0 <= k <= s.len(),
        first_index(s.subrange(0, k), n) >= 0,
    ensures
        first_index(s, n) == first_index(s.subrange(0, k), n),
    decreases s.len() - k,
{
    if k < s.len() {
        assert(s.subrange(0, k + 1).drop_last() =~= s.subrange(0, k));
        lemma_first_index_prefix(s, n, k + 1);
    } else {
        assert(s.subrange(0, k) =~= s);
    }
}

/// Gets the note `steps` places above (`up`) or below the first occurrence of
/// the tonic in the scale, `None` where there is none.
fn map_index(tonic_note: Note, scale_notes: &Vec<Note>, steps: usize, up: bool) -> (r: Option<Note>)
    ensures
        r == scale_step(scale_notes@, tonic_note, steps as int, up),
{
    let ghost s = scale_notes@;
    let mut i: usize = 0;
    while i < scale_notes.len()
        invariant
            s == scale_notes@,
            i <= s.len(),
            first_index(s.subrange(0, i as int), tonic_note) == -1,
        decreases s.len() - i,
    {
        proof {
            lemma_first_index_push(s, tonic_note, i as int);
        }
        if scale_notes[i] == tonic_note {
            proof {
                lemma_first_index_prefix(s, tonic_note, i + 1);
            }
            if up {
                if steps < scale_notes.len() - i {
                    return Some(scale_notes[i + steps]);
                }
                return None;
            } else {
                if steps <= i {
                    return Some(scale_notes[i - steps]);
                }
                return None;
            }
        }
        i = i + 1;
    }
    assert(s.subrange(0, s.len() as int) =~= s);
    None
}

/// Fixes note's pitch to lie on the scale: a note already on the scale (or
/// any note, for an empty scale) is kept, else the first of the scale notes
/// closest to it in pitch is taken.
fn fix_note_to_closest_scaled(note: NoteData, scale_notes: &Vec<Note>) -> (r: NoteData)
    ensures
        snaps_to(scale_notes@, note, r),
{
    let ghost s = scale_notes@;
    let mut i: usize = 0;
    while i < scale_notes.len()
        invariant
            s == scale_notes@,
            i <= s.len(),
            forall|j: int| 0 <= j < i ==> s[j] != note.note,
        decreases s.len() - i,
    {
        if scale_notes[i] == note.note {
            assert(s.contains(note.note));
            return note;
        }
        i = i + 1;
    }
    assert(!s.contains(note.note));
    if scale_notes.len() == 0 {
        return note;
    }
    let p = note.note.midi();
    let mut best: usize = 0;
    let mut best_dist: u8 = if scale_notes[0].midi() >= p {
        scale_notes[0].midi() - p
    } else {
        p - scale_notes[0].midi()
    };
    let mut k: usize = 1;
    while k < scale_notes.len()
        invariant
            s == scale_notes@,
            p == note.note.pitch(),
            1 <= k <= s.len(),
            best < k,
            best_dist == distance_to(s, best as int, p as int),
            forall|j: int| 0 <= j < k ==> distance_to(s, best as int, p as int) <= #[trigger] distance_to(s, j, p as int),
            forall|j: int| 0 <= j < best ==> distance_to(s, best as int, p as int) < #[trigger] distance_to(s, j, p as int),
        decreases s.len() - k,
    {
        let m = scale_notes[k].midi();
        let dist = if m >= p {
            m - p
        } else {
            p - m
        };
        if dist < best_dist {
            best = k;
            best_dist = dist;
        }
        k = k + 1;
    }
    let r = note.clone_with_new_note(scale_notes[best]);
    assert(first_closest(s, p as int, best as int));
    r
}

/// Moves the note `diff` scale notes up or down (`direction` is
/// [`DIRECTION_UP`] or [`DIRECTION_DOWN`]), keeping it where the move is not
/// possible, then snaps it to the scale.
pub fn randomize_note_with_given_diff(
    note: NoteData,
    scale_notes: &Vec<Note>,
    direction: u32,
    diff: usize,
) -> (r: NoteData)
    requires
        direction == DIRECTION_UP || direction == DIRECTION_DOWN,
    ensures
        snaps_to(scale_notes@, stepped(scale_notes@, note, diff as int, direction == DIRECTION_UP), r),
{
    let moved = match map_index(note.note, scale_notes, diff, direction == DIRECTION_UP) {
        Some(n) => note.clone_with_new_note(n),
        None => note,
    };
    fix_note_to_closest_scaled(moved, scale_notes)
}

/// Randomizes note by moving its pitch up or down by 0 to 6 scale notes,
/// then snapping it to the scale.
pub fn randomize_note(rng: &mut rand::rngs::StdRng, note: NoteData, scale_notes: &Vec<Note>) -> (r: NoteData)
    ensures
        is_random_move(scale_notes@, note, r),
{
    let diff = random_below(rng, MAX_RANDOM_STEPS + 1) as usize;
    let direction = if random_below(rng, 2) == 0 {
        DIRECTION_UP
    } else {
        DIRECTION_DOWN
    };
    let r = randomize_note_with_given_diff(note, scale_notes, direction, diff);
    assert(snaps_to(scale_notes@, stepped(scale_notes@, note, diff as int, direction == DIRECTION_UP), r));
    r
}

/// Velocity of every generated note.
pub const LEAD_VELOCITY: Velocity = 75;

/// Octave of the tonic that a generated lead starts on.
pub const TONIC_OCTAVE: u8 = 5;

/// Ticks of one sixteenth of a generated bar.
pub const PART_TICKS: DeltaTime = 32;

/// Pause, in sixteenths, after which the next note is always placed.
pub const LONGEST_PAUSE: DeltaTime = 3;

/// Shortest and longest length, in notes, of one bar of a synthwave melody.
pub const MIN_MELODY_LENGTH: u128 = 4;

pub const MAX_MELODY_LENGTH: u128 = 8;

/// MIDI number of the tonic in octave 5 of the pitch class `key`
/// (0 is C, 11 is B).
pub open spec fn tonic_pitch(key: u8) -> int {
    (TONIC_OCTAVE + 1) * OCTAVE + key
}

/// `n` is a note that the generator may place after the tonic: the tonic
/// itself, one of the three scale notes above it, or the one below it.
pub open spec fn close_to_tonic(scale: Seq<Note>, tonic: Note, n: Note) -> bool {
    ||| n == tonic
    ||| exists|steps: int| 1 <= steps <= 3 && #[trigger] scale_step(scale, tonic, steps, true) == Some(n)
    ||| scale_step(scale, tonic, 1, false) == Some(n)
}

/// What a generated one-bar lead satisfies: it starts with the tonic at the
/// start of the bar, each note lies in the bar on whole sixteenths and
/// follows the one before it after its delay, and every later note is close
/// to the tonic.
pub open spec fn is_generated_lead(scale: Seq<Note>, key: u8, lead: Seq<NoteData>) -> bool {
    &&& lead.len() >= 1
    &&& lead[0].note.pitch() == tonic_pitch(key)
    &&& lead[0].start == 0
    &&& lead[0].delay == 0
    &&& forall|i: int|
        0 <= i < lead.len() ==> {
            &&& (#[trigger] lead[i]).length > 0
            &&& lead[i].start + lead[i].length <= BAR_TICKS
            &&& lead[i].velocity == LEAD_VELOCITY
            &&& lead[i].start % PART_TICKS == 0
            &&& lead[i].length % PART_TICKS == 0
        }
    &&& forall|i: int|
        1 <= i < lead.len() ==> {
            &&& #[trigger] lead[i].start == lead[i - 1].start + lead[i - 1].length + lead[i].delay
            &&& close_to_tonic(scale, lead[0].note, lead[i].note)
        }
}

/// A random item of a non-empty list; the list is left reordered.
fn random_item(rng: &mut rand::rngs::StdRng, items: &mut Vec<u32>) -> (r: u32)
    requires
        old(items).len() > 0,
    ensures
        old(items)@.contains(r),
        final(items)@.to_multiset() == old(items)@.to_multiset(),
{
    let ghost before = items@;
    proof {
        before.to_multiset_ensures();
    }
    match random_from_vec(rng, items) {
        Some(x) => {
            proof {
                items@.to_multiset_ensures();
                assert(items@.contains(items[0]));
                assert(items@.to_multiset().count(items[0]) > 0);
                assert(before.to_multiset().count(x) > 0);
            }
            x
        },
        None => 0,
    }
}

/// Generates the number of notes of one bar of a synthwave melody, in 4..=8.
pub fn generate_synthwave_melody_length(rng: &mut rand::rngs::StdRng) -> (r: usize)
    ensures
        MIN_MELODY_LENGTH <= r <= MAX_MELODY_LENGTH,
{
    (random_below(rng, MAX_MELODY_LENGTH - MIN_MELODY_LENGTH + 1) + MIN_MELODY_LENGTH) as usize
}

/// Gets a random scale note close to the tonic: for the up direction one
/// to three scale notes above it, for the down direction the one below it;
/// the tonic itself where there is no such note.
fn rand_close_note(rng: &mut rand::rngs::StdRng, tonic_note: Note, scale_notes: &Vec<Note>, up_down_direction: u32) -> (r: Note)
    ensures
        close_to_tonic(scale_notes@, tonic_note, r),
{
    if up_down_direction == DIRECTION_UP {
        let mut notes_dif: Vec<u32> = vec![1, 2, 3];
        let steps = random_item(rng, &mut notes_dif);
        match map_index(tonic_note, scale_notes, steps as usize, true) {
            Some(n) => {
                assert(scale_step(scale_notes@, tonic_note, steps as int, true) == Some(n));
                n
            },
            None => tonic_note,
        }
    } else {
        match map_index(tonic_note, scale_notes, 1, false) {
            Some(n) => n,
            None => tonic_note,
        }
    }
}

/// Constructs a note close to the tonic (see [`rand_close_note`]) at the given
/// position and delay (in sixteenths) and of the given length (in ticks),
/// with velocity 75. The direction is chosen randomly.
fn rand_close_note_data(
    rng: &mut rand::rngs::StdRng,
    tonic_note: Note,
    scale_notes: &Vec<Note>,
    start_position: u32,
    len: DeltaTime,
    delay_ratio: u32,
) -> (r: NoteData)
    requires
        start_position <= BAR_PARTS,
        delay_ratio <= BAR_PARTS,
    ensures
        close_to_tonic(scale_notes@, tonic_note, r.note),
        r.velocity == LEAD_VELOCITY,
        r.start == PART_TICKS * start_position,
        r.length == len,
        r.delay == PART_TICKS * delay_ratio,
{
    let direction = if random_below(rng, 2) == 0 {
        DIRECTION_UP
    } else {
        DIRECTION_DOWN
    };
    let note = rand_close_note(rng, tonic_note, scale_notes, direction);
    NoteData::new(
        note,
        LEAD_VELOCITY,
        get_bar_ratio(BAR_TICKS, start_position),
        len,
        get_bar_ratio(BAR_TICKS, delay_ratio),
    )
}

/// Generates the tonic note of a lead: the pitch class `key` in octave 5,
/// at the start of the bar.
fn generate_tonic_lead_note(key: u8, velocity: Velocity, length: DeltaTime, delay: DeltaTime) -> (r: NoteData)
    requires
        key < 12,
    ensures
        r.note.pitch() == tonic_pitch(key),
        r.velocity == velocity,
        r.start == 0,
        r.length == length,
        r.delay == delay,
{
    let note = match Note::from_midi_or_none((TONIC_OCTAVE + 1) * OCTAVE + key) {
        Some(n) => n,
        None => Note::C5,
    };
    NoteData::new(note, velocity, 0, length, delay)
}

/// Places the next note of the lead at `position` (in sixteenths), or skips
/// the position: a note comes for sure after a pause of three sixteenths, and
/// with a chance of one in four otherwise. The note's length (in sixteenths)
/// is drawn from `lens`. Returns the position after the note or the skip.
fn push_next_note_or_skip(
    rng: &mut rand::rngs::StdRng,
    scale_notes: &Vec<Note>,
    lens: &mut Vec<u32>,
    lead: &mut Vec<NoteData>,
    tonic_note: NoteData,
    position: u32,
) -> (r: u32)
    requires
        old(lens).len() > 0,
        forall|i: int| 0 <= i < old(lens).len() ==> 1 <= #[trigger] old(lens)[i] && position + old(lens)[i] <= BAR_PARTS,
        position < BAR_PARTS,
        old(lead).len() > 0,
        old(lead)[old(lead).len() - 1].start % PART_TICKS == 0,
        old(lead)[old(lead).len() - 1].length % PART_TICKS == 0,
        old(lead)[old(lead).len() - 1].start + old(lead)[old(lead).len() - 1].length <= PART_TICKS * position,
    ensures
        final(lens)@.to_multiset() == old(lens)@.to_multiset(),
        position < r <= BAR_PARTS,
        final(lead)@ == old(lead)@ || final(lead)@ == old(lead)@.push(final(lead)@.last()),
        final(lead)@ != old(lead)@ ==> {
            let n = final(lead)@.last();
            let prev = old(lead)@.last();
            &&& close_to_tonic(scale_notes@, tonic_note.note, n.note)
            &&& n.velocity == LEAD_VELOCITY
            &&& n.length > 0
            &&& n.start % PART_TICKS == 0
            &&& n.length % PART_TICKS == 0
            &&& n.start + n.length == PART_TICKS * r
            &&& n.start == prev.start + prev.length + n.delay
        },
{
    let len = random_item(rng, lens);
    let note_time = get_bar_ratio(BAR_TICKS, len);
    let prev_note = lead[lead.len() - 1];
    let prev_note_start = prev_note.start / PART_TICKS;
    let prev_note_len = prev_note.length / PART_TICKS;
    let cur_delay = position - prev_note_start - prev_note_len;
    let place = if cur_delay == LONGEST_PAUSE {
        true
    } else {
        random_ratio(rng, 1, 4)
    };
    if place {
        let next = rand_close_note_data(rng, tonic_note.note, scale_notes, position, note_time, cur_delay);
        lead.push(next);
        position + len
    } else {
        position + 1
    }
}

/// Generates a one-bar lead melody in the given key (a pitch class, 0 for
/// C) on the given scale, of at most `lead_len` notes. The bar is divided
/// into 16 parts; the lead starts with the tonic, 1 or 2 parts long, and at
/// each later position either puts a note close to the tonic or skips the
/// position. Notes on a quarter may be 1, 2 or 4 parts long, notes on an
/// eighth 1 or 2, other notes 1.
pub fn generate_lead_melody_with_bpm_and_len(
    rng: &mut rand::rngs::StdRng,
    key: u8,
    scale_notes: &Vec<Note>,
    lead_len: usize,
) -> (r: Vec<NoteData>)
    requires
        key < 12,
    ensures
        is_generated_lead(scale_notes@, key, r@),
        lead_len >= 1 ==> r.len() <= lead_len,
        r.len() <= BAR_PARTS,
{
    let mut even_lens: Vec<u32> = vec![1, 2];
    let tonic_len = random_item(rng, &mut even_lens);
    let tonic_time = get_bar_ratio(BAR_TICKS, tonic_len);
    let tonic_note = generate_tonic_lead_note(key, LEAD_VELOCITY, tonic_time, 0);

    let mut lead: Vec<NoteData> = Vec::new();
    lead.push(tonic_note);
    let mut cur_pos: u32 = tonic_len;
    proof {
        lemma_tonic_alone_is_generated(scale_notes@, key, lead@);
    }
    while cur_pos < BAR_PARTS && lead.len() < lead_len
        invariant
            key < 12,
            1 <= cur_pos <= BAR_PARTS,
            lead.len() >= 1,
            lead.len() <= cur_pos,
            lead_len >= 1 ==> lead.len() <= lead_len,
            lead[0] == tonic_note,
            is_generated_lead(scale_notes@, key, lead@),
            lead[lead.len() - 1].start % PART_TICKS == 0,
            lead[lead.len() - 1].length % PART_TICKS == 0,
            lead[lead.len() - 1].start + lead[lead.len() - 1].length <= PART_TICKS * cur_pos,
        decreases BAR_PARTS - cur_pos,
    {
        let ghost before = lead@;
        let mut lens: Vec<u32> = if cur_pos % 4 == 0 {
            vec![1, 2, 4]
        } else if cur_pos % 4 == 2 {
            vec![1, 2]
        } else {
            vec![1]
        };
        cur_pos = push_next_note_or_skip(rng, scale_notes, &mut lens, &mut lead, tonic_note, cur_pos);
        proof {
            lemma_generated_lead_extends(scale_notes@, key, before, lead@);
        }
    }
    lead
}

/// The tonic alone is a generated lead.
proof fn lemma_tonic_alone_is_generated(scale: Seq<Note>, key: u8, lead: Seq<NoteData>)
    requires
        lead.len() == 1,
        lead[0].note.pitch() == tonic_pitch(key),
        lead[0].start == 0,
        lead[0].delay == 0,
        lead[0].velocity == LEAD_VELOCITY,
        0 < lead[0].length <= 2 * PART_TICKS,
        lead[0].length % PART_TICKS == 0,
    ensures
        is_generated_lead(scale, key, lead),
{
}

/// Appending a note that follows the last one and is close to the tonic
/// keeps a generated lead generated.
proof fn lemma_generated_lead_extends(scale: Seq<Note>, key: u8, before: Seq<NoteData>, after: Seq<NoteData>)
    requires
        is_generated_lead(scale, key, before),
        after == before || after == before.push(after.last()),
        after != before ==> {
            let n = after.last();
            let prev = before.last();
            &&& close_to_tonic(scale, before[0].note, n.note)
            &&& n.velocity == LEAD_VELOCITY
            &&& n.length > 0
            &&& n.start + n.length <= BAR_TICKS
            &&& n.start % PART_TICKS == 0
            &&& n.length % PART_TICKS == 0
            &&& n.start == prev.start + prev.length + n.delay
        },
    ensures
        is_generated_lead(scale, key, after),
{
    if after != before {
        assert(after[0] == before[0]);
        assert forall|i: int| 1 <= i < after.len() implies #[trigger] after[i].start == after[i - 1].start
            + after[i - 1].length + after[i].delay && close_to_tonic(scale, after[0].note, after[i].note) by {
            if i < after.len() - 1 {
                assert(after[i] == before[i] && after[i - 1] == before[i - 1]);
            }
        }
        assert forall|i: int| 0 <= i < after.len() implies {
            &&& (#[trigger] after[i]).length > 0
            &&& after[i].start + after[i].length <= BAR_TICKS
            &&& after[i].velocity == LEAD_VELOCITY
        } by {
            if i < after.len() - 1 {
                assert(after[i] == before[i]);
            }
        }
    }
}

/// A random move changes the pitch alone.
pub proof fn lemma_random_move_keeps_timing(scale: Seq<Note>, d: NoteData, r: NoteData)
    requires
        is_random_move(scale, d, r),
    ensures
        r.velocity == d.velocity,
        r.start == d.start,
        r.length == d.length,
        r.delay == d.delay,
{
    let (steps, up) = choose|steps: int, up: bool|
        0 <= steps <= MAX_RANDOM_STEPS && #[trigger] snaps_to(scale, stepped(scale, d, steps, up), r);
    let m = stepped(scale, d, steps, up);
    if !(scale.contains(m.note) || scale.len() == 0) {
        let i = choose|i: int| first_closest(scale, m.note.pitch(), i) && r == m.with_note(scale[i]);
    }
}

/// Each note of `r` is the note of `lead` at its place moved `diff` scale
/// notes up or down, then snapped to the scale.
pub open spec fn all_moved_by(scale: Seq<Note>, lead: Seq<NoteData>, r: Seq<NoteData>, diff: int, direction: u32) -> bool {
    &&& r.len() == lead.len()
    &&& forall|i: int|
        0 <= i < r.len() ==> snaps_to(scale, stepped(scale, lead[i], diff, direction == DIRECTION_UP), #[trigger] r[i])
}

/// Randomizes the lead by moving every note the same random number (0 to 2)
/// of scale notes in the given direction, then snapping each to the scale.
pub fn randomize_lead(
    rng: &mut rand::rngs::StdRng,
    generated_lead: Vec<NoteData>,
    scale_notes: &Vec<Note>,
    direction: u32,
) -> (r: Vec<NoteData>)
    requires
        direction == DIRECTION_UP || direction == DIRECTION_DOWN,
    ensures
        r.len() == generated_lead.len(),
        exists|diff: int|
            0 <= diff <= 2 && #[trigger] all_moved_by(
                scale_notes@,
                generated_lead@,
                r@,
                diff,
                direction,
            ),
{
    let diff = random_below(rng, 3) as usize;
    let mut r: Vec<NoteData> = Vec::new();
    let mut i: usize = 0;
    while i < generated_lead.len()
        invariant
            direction == DIRECTION_UP || direction == DIRECTION_DOWN,
            diff <= 2,
            i <= generated_lead.len(),
            r.len() == i,
            forall|j: int|
                0 <= j < i ==> snaps_to(
                    scale_notes@,
                    stepped(scale_notes@, generated_lead[j], diff as int, direction == DIRECTION_UP),
                    #[trigger] r[j],
                ),
        decreases generated_lead.len() - i,
    {
        r.push(randomize_note_with_given_diff(generated_lead[i], scale_notes, direction, diff));
        i = i + 1;
    }
    assert(all_moved_by(scale_notes@, generated_lead@, r@, diff as int, direction));
    r
}

} // verus!
