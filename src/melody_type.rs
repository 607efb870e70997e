//! Eight-bar synthwave melodies built from one-bar parts.

use crate::genetic::fitness::{
    is_distance_between_notes_not_big, is_not_too_big_parts, is_without_three_times_repetition,
    no_long_zero_delay_run, no_triple_repeat, small_intervals,
};
use crate::genetic::mutation::{mutate, RATE_SCALE};
use crate::midi::generator::generator::{
    generate_lead_melody_with_bpm_and_len, generate_synthwave_melody_length, is_generated_lead,
    is_random_move, lemma_random_move_keeps_timing,
};
use crate::midi::generator::BAR_TICKS;
use crate::notes::note::Note;
use crate::notes::note_data::{DeltaTime, NoteData};
use vstd::prelude::*;

verus! {

/// Chance, out of `RATE_SCALE`, that a note of a varied part is moved.
pub const VARIATION_RATE: u32 = 750_000;

/// Attempts at a melody that passes the structural rules before giving up.
pub const MELODY_ATTEMPTS: usize = 1000;

/// The order in which the one-bar parts of a four-bar phrase repeat.
#[derive(Copy, Clone, PartialEq, Eq, Structural, Debug)]
pub enum SynthwaveMelodyType {
    ABAB,
    AAAB,
    ABAC,
}

/// `s` with the delay of its first note replaced by `d`.
pub open spec fn with_first_delay(s: Seq<NoteData>, d: int) -> Seq<NoteData> {
    s.update(0, NoteData { delay: d as DeltaTime, ..s[0] })
}

/// Ticks from the end of the note to the end of its bar.
pub open spec fn time_left_in_bar(n: NoteData) -> int {
    BAR_TICKS - n.start - n.length
}

/// A part has notes, and its last note ends within the bar.
pub open spec fn ends_in_bar(s: Seq<NoteData>) -> bool {
    s.len() > 0 && s.last().start + s.last().length <= BAR_TICKS
}

/// Eight bars from the parts a, b and c in the order
/// `first, second, third, fourth` repeated; each part after the first
/// starts after the pause that fills the bar before it, and the first part
/// of the repeat after the pause given by `repeat_pause`.
pub open spec fn eight_bars(
    first: Seq<NoteData>,
    second: Seq<NoteData>,
    third: Seq<NoteData>,
    fourth: Seq<NoteData>,
    repeat_pause: int,
) -> Seq<NoteData> {
    let bar_4 = first + second + third + fourth;
    bar_4 + with_first_delay(bar_4, repeat_pause)
}

/// ABAB: `a, b, a, b`, then again.
pub open spec fn abab_of(a: Seq<NoteData>, b: Seq<NoteData>) -> Seq<NoteData> {
    let a_delay = time_left_in_bar(a.last());
    let b_delay = time_left_in_bar(b.last());
    eight_bars(
        a,
        with_first_delay(b, a_delay),
        with_first_delay(a, b_delay),
        with_first_delay(b, a_delay),
        b_delay,
    )
}

/// AAAB: `a, a, a, b`, then again.
pub open spec fn aaab_of(a: Seq<NoteData>, b: Seq<NoteData>) -> Seq<NoteData> {
    let a_delay = time_left_in_bar(a.last());
    let b_delay = time_left_in_bar(b.last());
    eight_bars(
        a,
        with_first_delay(a, a_delay),
        with_first_delay(a, a_delay),
        with_first_delay(b, a_delay),
        b_delay,
    )
}

/// ABAC: `a, b, a, c`, then again.
pub open spec fn abac_of(a: Seq<NoteData>, b: Seq<NoteData>, c: Seq<NoteData>) -> Seq<NoteData> {
    let a_delay = time_left_in_bar(a.last());
    let b_delay = time_left_in_bar(b.last());
    let c_delay = time_left_in_bar(c.last());
    eight_bars(
        a,
        with_first_delay(b, a_delay),
        with_first_delay(a, b_delay),
        with_first_delay(c, a_delay),
        c_delay,
    )
}

/// `b` is `a` with some notes moved in pitch (see `is_random_move`).
pub open spec fn is_variation_of(scale: Seq<Note>, a: Seq<NoteData>, b: Seq<NoteData>) -> bool {
    &&& b.len() == a.len()
    &&& forall|i: int| 0 <= i < b.len() ==> #[trigger] b[i] == a[i] || is_random_move(scale, a[i], b[i])
}

/// A one-bar part of a melody: a generated lead of at most `len` notes.
pub open spec fn is_part(scale: Seq<Note>, key: u8, len: int, a: Seq<NoteData>) -> bool {
    is_generated_lead(scale, key, a) && a.len() <= len
}

/// `melody` is an eight-bar melody of the type, in the key, on the scale,
/// from parts of at most `len` notes.
pub open spec fn is_melody_of(
    t: SynthwaveMelodyType,
    scale: Seq<Note>,
    key: u8,
    len: int,
    melody: Seq<NoteData>,
) -> bool {
    exists|a: Seq<NoteData>, b: Seq<NoteData>, c: Seq<NoteData>|
        {
            &&& is_part(scale, key, len, a)
            &&& #[trigger] melody_from_parts(t, scale, key, len, a, b, c, melody)
        }
}

/// How the parts make up the melody, for each type.
pub open spec fn melody_from_parts(
    t: SynthwaveMelodyType,
    scale: Seq<Note>,
    key: u8,
    len: int,
    a: Seq<NoteData>,
    b: Seq<NoteData>,
    c: Seq<NoteData>,
    melody: Seq<NoteData>,
) -> bool {
    match t {
        SynthwaveMelodyType::ABAB => is_variation_of(scale, a, b) && melody == abab_of(a, b),
        SynthwaveMelodyType::AAAB => is_part(scale, key, len, b) && melody == aaab_of(a, b),
        SynthwaveMelodyType::ABAC => {
            &&& is_part(scale, key, len, b)
            &&& is_variation_of(scale, a, c)
            &&& melody == abac_of(a, b, c)
        },
    }
}

/// A generated lead ends within its bar.
proof fn lemma_generated_ends_in_bar(scale: Seq<Note>, key: u8, a: Seq<NoteData>)
    requires
        is_generated_lead(scale, key, a),
    ensures
        ends_in_bar(a),
{
    assert(a[a.len() - 1] == a.last());
}

/// A variation of a part that ends in its bar ends in its bar, at the same
/// time.
proof fn lemma_variation_ends_in_bar(scale: Seq<Note>, a: Seq<NoteData>, b: Seq<NoteData>)
    requires
        ends_in_bar(a),
        is_variation_of(scale, a, b),
    ensures
        ends_in_bar(b),
        time_left_in_bar(b.last()) == time_left_in_bar(a.last()),
{
    let i = a.len() - 1;
    assert(b[i] == a[i] || is_random_move(scale, a[i], b[i]));
    if b[i] != a[i] {
        lemma_random_move_keeps_timing(scale, a[i], b[i]);
    }
}

/// Ticks from the end of the last note to the end of the bar.
fn time_before_bar_end(last_note: NoteData) -> (r: DeltaTime)
    requires
        last_note.start + last_note.length <= BAR_TICKS,
    ensures
        r == time_left_in_bar(last_note),
{
    BAR_TICKS - last_note.start - last_note.length
}

/// Appends `part` to `out` with the delay of its first note replaced.
fn append_with_first_delay(out: &mut Vec<NoteData>, part: &Vec<NoteData>, delay: DeltaTime)
    requires
        part.len() > 0,
    ensures
        final(out)@ == old(out)@ + with_first_delay(part@, delay as int),
{
    let ghost start = out@;
    out.push(part[0].clone_with_new_delay(delay));
    let mut i: usize = 1;
    while i < part.len()
        invariant
            1 <= i <= part.len(),
            out@ == start + with_first_delay(part@, delay as int).subrange(0, i as int),
        decreases part.len() - i,
    {
        out.push(part[i]);
        i = i + 1;
        assert(out@ =~= start + with_first_delay(part@, delay as int).subrange(0, i as int));
    }
    assert(with_first_delay(part@, delay as int).subrange(0, part.len() as int) =~= with_first_delay(
        part@,
        delay as int,
    ));
}

/// Appends `part` to `out` unchanged.
fn append_part(out: &mut Vec<NoteData>, part: &Vec<NoteData>)
    ensures
        final(out)@ == old(out)@ + part@,
{
    let ghost start = out@;
    let mut i: usize = 0;
    while i < part.len()
        invariant
            i <= part.len(),
            out@ == start + part@.subrange(0, i as int),
        decreases part.len() - i,
    {
        out.push(part[i]);
        i = i + 1;
        assert(out@ =~= start + part@.subrange(0, i as int));
    }
    assert(part@.subrange(0, part.len() as int) =~= part@);
}

/// Builds the eight bars from four parts, each after the first with the
/// delay of its first note replaced; the repeat starts after `repeat_pause`.
fn compose_eight_bars(
    first: &Vec<NoteData>,
    second: &Vec<NoteData>,
    second_delay: DeltaTime,
    third: &Vec<NoteData>,
    third_delay: DeltaTime,
    fourth: &Vec<NoteData>,
    fourth_delay: DeltaTime,
    repeat_pause: DeltaTime,
) -> (r: Vec<NoteData>)
    requires
        first.len() > 0,
        second.len() > 0,
        third.len() > 0,
        fourth.len() > 0,
    ensures
        r@ == eight_bars(
            first@,
            with_first_delay(second@, second_delay as int),
            with_first_delay(third@, third_delay as int),
            with_first_delay(fourth@, fourth_delay as int),
            repeat_pause as int,
        ),
{
    let mut bar_4: Vec<NoteData> = Vec::new();
    append_part(&mut bar_4, first);
    append_with_first_delay(&mut bar_4, second, second_delay);
    append_with_first_delay(&mut bar_4, third, third_delay);
    append_with_first_delay(&mut bar_4, fourth, fourth_delay);
    let mut r: Vec<NoteData> = Vec::new();
    append_part(&mut r, &bar_4);
    append_with_first_delay(&mut r, &bar_4, repeat_pause);
    proof {
        let s2 = with_first_delay(second@, second_delay as int);
        let s3 = with_first_delay(third@, third_delay as int);
        let s4 = with_first_delay(fourth@, fourth_delay as int);
        assert(bar_4@ =~= first@ + s2 + s3 + s4);
    }
    r
}

/// ABAB from a part and its variation.
fn generate_abab_melody(
    rng: &mut rand::rngs::StdRng,
    key: u8,
    scale_notes: &Vec<Note>,
    melody_length: usize,
) -> (r: Vec<NoteData>)
    requires
        key < 12,
        melody_length >= 1,
    ensures
        is_melody_of(SynthwaveMelodyType::ABAB, scale_notes@, key, melody_length as int, r@),
{
    let a_melody = generate_lead_melody_with_bpm_and_len(rng, key, scale_notes, melody_length);
    let b_melody = mutate(rng, a_melody.clone(), scale_notes, VARIATION_RATE);
    proof {
        lemma_generated_ends_in_bar(scale_notes@, key, a_melody@);
        lemma_variation_ends_in_bar(scale_notes@, a_melody@, b_melody@);
    }
    let a_delay = time_before_bar_end(a_melody[a_melody.len() - 1]);
    let b_delay = time_before_bar_end(b_melody[b_melody.len() - 1]);
    let r = compose_eight_bars(&a_melody, &b_melody, a_delay, &a_melody, b_delay, &b_melody, a_delay, b_delay);
    assert(melody_from_parts(SynthwaveMelodyType::ABAB, scale_notes@, key, melody_length as int, a_melody@, b_melody@, b_melody@, r@));
    r
}

/// AAAB from two parts.
fn generate_aaab_melody(
    rng: &mut rand::rngs::StdRng,
    key: u8,
    scale_notes: &Vec<Note>,
    melody_length: usize,
) -> (r: Vec<NoteData>)
    requires
        key < 12,
        melody_length >= 1,
    ensures
        is_melody_of(SynthwaveMelodyType::AAAB, scale_notes@, key, melody_length as int, r@),
{
    let a_melody = generate_lead_melody_with_bpm_and_len(rng, key, scale_notes, melody_length);
    let b_melody = generate_lead_melody_with_bpm_and_len(rng, key, scale_notes, melody_length);
    proof {
        lemma_generated_ends_in_bar(scale_notes@, key, a_melody@);
        lemma_generated_ends_in_bar(scale_notes@, key, b_melody@);
    }
    let a_delay = time_before_bar_end(a_melody[a_melody.len() - 1]);
    let b_delay = time_before_bar_end(b_melody[b_melody.len() - 1]);
    let r = compose_eight_bars(&a_melody, &a_melody, a_delay, &a_melody, a_delay, &b_melody, a_delay, b_delay);
    assert(melody_from_parts(SynthwaveMelodyType::AAAB, scale_notes@, key, melody_length as int, a_melody@, b_melody@, b_melody@, r@));
    r
}

/// ABAC from two parts and a variation of the first.
fn generate_abac_melody(
    rng: &mut rand::rngs::StdRng,
    key: u8,
    scale_notes: &Vec<Note>,
    melody_length: usize,
) -> (r: Vec<NoteData>)
    requires
        key < 12,
        melody_length >= 1,
    ensures
        is_melody_of(SynthwaveMelodyType::ABAC, scale_notes@, key, melody_length as int, r@),
{
    let a_melody = generate_lead_melody_with_bpm_and_len(rng, key, scale_notes, melody_length);
    let b_melody = generate_lead_melody_with_bpm_and_len(rng, key, scale_notes, melody_length);
    let c_melody = mutate(rng, a_melody.clone(), scale_notes, VARIATION_RATE);
    proof {
        lemma_generated_ends_in_bar(scale_notes@, key, a_melody@);
        lemma_generated_ends_in_bar(scale_notes@, key, b_melody@);
        lemma_variation_ends_in_bar(scale_notes@, a_melody@, c_melody@);
    }
    let a_delay = time_before_bar_end(a_melody[a_melody.len() - 1]);
    let b_delay = time_before_bar_end(b_melody[b_melody.len() - 1]);
    let c_delay = time_before_bar_end(c_melody[c_melody.len() - 1]);
    let r = compose_eight_bars(&a_melody, &b_melody, a_delay, &a_melody, b_delay, &c_melody, a_delay, c_delay);
    assert(melody_from_parts(SynthwaveMelodyType::ABAC, scale_notes@, key, melody_length as int, a_melody@, b_melody@, c_melody@, r@));
    r
}

/// The melody passes the three structural rules of the fitness that do not count
/// pauses.
pub open spec fn is_plausible_melody(melody: Seq<NoteData>) -> bool {
    &&& no_triple_repeat(melody)
    &&& small_intervals(melody)
    &&& no_long_zero_delay_run(melody)
}

/// A melody that the generator may give for the type, key and scale: it
/// keeps three of the structural rules and is made of parts of 4 to 8 notes.
pub open spec fn is_generated_melody(t: SynthwaveMelodyType, scale: Seq<Note>, key: u8, melody: Seq<NoteData>) -> bool {
    &&& is_plausible_melody(melody)
    &&& exists|len: int| 4 <= len <= 8 && #[trigger] is_melody_of(t, scale, key, len, melody)
}

impl SynthwaveMelodyType {
    /// Generates an eight-bar melody of this type in the given key (a pitch
    /// class, 0 for C) on the given scale, trying up to 1000 times for one
    /// that passes the structural rules; `None` where every try failed.
    pub fn generate_synthwave_melody(&self, rng: &mut rand::rngs::StdRng, key: u8, scale_notes: &Vec<Note>) -> (r:
        Option<Vec<NoteData>>)
        requires
            key < 12,
        ensures
            r matches Some(melody) ==> is_generated_melody(*self, scale_notes@, key, melody@),
    {
        let mut attempt: usize = 0;
        while attempt < MELODY_ATTEMPTS
            invariant
                key < 12,
            decreases MELODY_ATTEMPTS - attempt,
        {
            match self.try_generate_synthwave_melody(rng, key, scale_notes) {
                Some(lead) => {
                    return Some(lead);
                },
                None => {},
            }
            attempt = attempt + 1;
        }
        None
    }

    /// One try at a melody of this type, with parts of 4 to 8 notes: `None`
    /// where it fails the structural rules.
    fn try_generate_synthwave_melody(&self, rng: &mut rand::rngs::StdRng, key: u8, scale_notes: &Vec<Note>) -> (r:
        Option<Vec<NoteData>>)
        requires
            key < 12,
        ensures
            r matches Some(melody) ==> is_generated_melody(*self, scale_notes@, key, melody@),
    {
        let melody_length = generate_synthwave_melody_length(rng);
        let lead = match self {
            SynthwaveMelodyType::ABAB => generate_abab_melody(rng, key, scale_notes, melody_length),
            SynthwaveMelodyType::AAAB => generate_aaab_melody(rng, key, scale_notes, melody_length),
            SynthwaveMelodyType::ABAC => generate_abac_melody(rng, key, scale_notes, melody_length),
        };
        if is_without_three_times_repetition(&lead) && is_distance_between_notes_not_big(&lead)
            && is_not_too_big_parts(&lead) {
            assert(is_melody_of(*self, scale_notes@, key, melody_length as int, lead@));
            assert(is_plausible_melody(lead@));
            assert(4 <= melody_length <= 8);
            assert(exists|len: int|
                4 <= len <= 8 && #[trigger] is_melody_of(*self, scale_notes@, key, len, lead@));
            assert(is_generated_melody(*self, scale_notes@, key, lead@));
            Some(lead)
        } else {
            None
        }
    }
}

} // verus!
