//! Scoring of a candidate lead against an ideal (reference) lead.
//!
//! The score rewards rhythm and contour that resemble the reference and is
//! gated by structural rules that every plausible lead obeys:
//! 1. the same note does not repeat three times in a row;
//! 2. consecutive notes are less than 7 semitones apart;
//! 3. no six notes in a row after the first have zero delay;
//! 4. fewer than four notes have a pause before them.
//!
//! Fitness is a fixed-point number in `0..=FITNESS_SCALE`, where
//! `FITNESS_SCALE` stands for 1.

use crate::notes::note::lemma_pitch_in_range;
use crate::notes::note_data::NoteData;
use vstd::prelude::*;

verus! {

/// The fitness value that stands for a perfect score of 1.
pub const FITNESS_SCALE: u64 = 1_000_000;

/// Ticks of a sixteenth note in the leads this crate generates.
pub const SIXTEENTH_TICKS: u32 = 32;

/// The divisor of the contour penalty in the standard weighting.
pub const CONTOUR_DIVISOR: u32 = 26;

/// Largest interval (exclusive), in semitones, between consecutive notes.
pub const MAX_INTERVAL: i8 = 7;

/// Length of the shortest run of zero delays that the structural rules refuse.
pub const ZERO_DELAY_RUN: usize = 6;

/// Number of pauses from which the structural rules refuse a lead.
pub const MAX_PAUSES: usize = 4;

/// Tunable constants of the fitness formula.
///
/// Each note of a candidate is worth `1 / n`. A transition between two
/// notes earns 3/4 of that when its delay falls in the same sixteenth-note
/// bucket as the reference's, and 1/4 of `1 / n - |interval difference| /
/// (n * contour_divisor)` for its contour.
#[derive(Copy, Clone, Debug)]
pub struct FitnessConfig {
    /// Ticks of a sixteenth note, the bucket of delays.
    pub sixteenth_ticks: u32,
    /// Divisor of the per-semitone contour penalty.
    pub contour_divisor: u32,
}

impl FitnessConfig {
    pub open spec fn wf(self) -> bool {
        self.sixteenth_ticks > 0 && self.contour_divisor > 0
    }

    /// The standard weighting: sixteenths of 32 ticks and a contour divisor of 26.
    pub open spec fn standard_spec() -> FitnessConfig {
        FitnessConfig { sixteenth_ticks: SIXTEENTH_TICKS, contour_divisor: CONTOUR_DIVISOR }
    }

    /// The weighting used for generated leads: sixteenths of 32 ticks and a
    /// contour divisor of 26.
    pub fn standard() -> (r: FitnessConfig)
        ensures
            r.wf(),
            r == FitnessConfig::standard_spec(),
    {
        FitnessConfig { sixteenth_ticks: SIXTEENTH_TICKS, contour_divisor: CONTOUR_DIVISOR }
    }
}

pub open spec fn abs(x: int) -> int {
    if x < 0 {
        -x
    } else {
        x
    }
}

/// Semitones from note `i - 1` up to note `i`.
pub open spec fn interval_at(s: Seq<NoteData>, i: int) -> int {
    s[i].note.pitch() - s[i - 1].note.pitch()
}

/// Notes `i - 2`, `i - 1` and `i` have the same pitch.
pub open spec fn repeats_three_times_at(s: Seq<NoteData>, i: int) -> bool {
    s[i - 2].note == s[i - 1].note && s[i - 1].note == s[i].note
}

/// Gate rule 1: the same note never comes three times in a row.
pub open spec fn no_triple_repeat(s: Seq<NoteData>) -> bool {
    forall|i: int| 2 <= i < s.len() ==> !#[trigger] repeats_three_times_at(s, i)
}

/// Gate rule 2: consecutive notes are less than 7 semitones apart.
pub open spec fn small_intervals(s: Seq<NoteData>) -> bool {
    forall|i: int| 1 <= i < s.len() ==> abs(#[trigger] interval_at(s, i)) < MAX_INTERVAL
}

/// The six notes from `i` on all have zero delay.
pub open spec fn zero_delay_run_at(s: Seq<NoteData>, i: int) -> bool {
    forall|j: int| i <= j < i + ZERO_DELAY_RUN ==> #[trigger] s[j].delay == 0
}

/// Gate rule 3: no six notes in a row, the first note left out, have zero delay.
pub open spec fn no_long_zero_delay_run(s: Seq<NoteData>) -> bool {
    forall|i: int| 1 <= i && i + ZERO_DELAY_RUN <= s.len() ==> !#[trigger] zero_delay_run_at(s, i)
}

/// Number of notes with a nonzero delay (a pause before them).
pub open spec fn pause_count(s: Seq<NoteData>) -> nat
    decreases s.len(),
{
    if s.len() == 0 {
        0
    } else {
        pause_count(s.drop_last()) + if s.last().delay != 0 {
            1nat
        } else {
            0nat
        }
    }
}

/// Gate rule 4: fewer than four pauses.
pub open spec fn few_pauses(s: Seq<NoteData>) -> bool {
    pause_count(s) < MAX_PAUSES
}

/// Whether the candidate passes all four structural rules.
pub open spec fn passes_gate(s: Seq<NoteData>) -> bool {
    &&& no_triple_repeat(s)
    &&& small_intervals(s)
    &&& no_long_zero_delay_run(s)
    &&& few_pauses(s)
}

/// Score of transition `i` (from note `i - 1` to note `i`), in units of
/// `1 / (4 * n * contour_divisor)`: `3 * d` for a delay in the reference's
/// bucket, plus `d - |interval difference|` for the contour.
pub open spec fn transition_score(
    lead: Seq<NoteData>,
    ideal: Seq<NoteData>,
    cfg: FitnessConfig,
    i: int,
) -> int {
    let d = cfg.contour_divisor as int;
    let unit = cfg.sixteenth_ticks as int;
    let timing = if lead[i].delay as int / unit == ideal[i].delay as int / unit {
        3 * d
    } else {
        0
    };
    timing + d - abs(interval_at(lead, i) - interval_at(ideal, i))
}

/// Sum of the scores of transitions `1..k`.
pub open spec fn transitions_sum(
    lead: Seq<NoteData>,
    ideal: Seq<NoteData>,
    cfg: FitnessConfig,
    k: int,
) -> int
    decreases k,
{
    if k <= 1 {
        0
    } else {
        transitions_sum(lead, ideal, cfg, k - 1) + transition_score(lead, ideal, cfg, k - 1)
    }
}

/// Number of notes that take part in the comparison.
pub open spec fn compared_len(lead: Seq<NoteData>, ideal: Seq<NoteData>) -> int {
    if lead.len() <= ideal.len() {
        lead.len() as int
    } else {
        ideal.len() as int
    }
}

/// The ungated score in units of `1 / (4 * n * contour_divisor)`: `4 * d`
/// for the first note, plus every compared transition.
pub open spec fn raw_score(lead: Seq<NoteData>, ideal: Seq<NoteData>, cfg: FitnessConfig) -> int {
    4 * cfg.contour_divisor + transitions_sum(lead, ideal, cfg, compared_len(lead, ideal))
}

/// Fitness of `lead` against `ideal` in `1 / FITNESS_SCALE` steps, rounded
/// down: 0 for an empty lead or one that breaks a structural rule, the raw score
/// over `4 * n * contour_divisor` otherwise, with a negative total reported
/// as 0.
pub open spec fn fitness_value(lead: Seq<NoteData>, ideal: Seq<NoteData>, cfg: FitnessConfig) -> int {
    let raw = raw_score(lead, ideal, cfg);
    if lead.len() == 0 || !passes_gate(lead) || raw <= 0 {
        0
    } else {
        raw * FITNESS_SCALE / (4 * lead.len() * cfg.contour_divisor)
    }
}

/// Same note cannot repeat 3 times in a row.
pub fn is_without_three_times_repetition(lead: &Vec<NoteData>) -> (r: bool)
    ensures
        r == no_triple_repeat(lead@),
{
    let mut i: usize = 2;
    while i < lead.len()
        invariant
            2 <= i,
            forall|j: int| 2 <= j < i && j < lead.len() ==> !#[trigger] repeats_three_times_at(lead@, j),
        decreases lead.len() - i,
    {
        if lead[i - 2].note == lead[i - 1].note && lead[i - 1].note == lead[i].note {
            assert(repeats_three_times_at(lead@, i as int));
            return false;
        }
        i = i + 1;
    }
    true
}

/// Distance between notes in semitones is less than 7.
pub fn is_distance_between_notes_not_big(lead: &Vec<NoteData>) -> (r: bool)
    ensures
        r == small_intervals(lead@),
{
    let mut i: usize = 1;
    while i < lead.len()
        invariant
            1 <= i,
            forall|j: int| 1 <= j < i && j < lead.len() ==> abs(#[trigger] interval_at(lead@, j)) < MAX_INTERVAL,
        decreases lead.len() - i,
    {
        let step = lead[i].note.semitones_from(&lead[i - 1].note);
        if step >= MAX_INTERVAL || step <= -MAX_INTERVAL {
            assert(abs(interval_at(lead@, i as int)) >= MAX_INTERVAL);
            return false;
        }
        i = i + 1;
    }
    true
}

/// Parts with 6+ notes with zero delay (the first note left out) are not allowed.
pub fn is_not_too_big_parts(lead: &Vec<NoteData>) -> (r: bool)
    ensures
        r == no_long_zero_delay_run(lead@),
{
    // `run` counts the zero delays that end at note `i - 1`, from note 1 on.
    let mut run: usize = 0;
    let mut i: usize = 1;
    while i < lead.len()
        invariant
            1 <= i,
            i <= lead.len() || lead.len() == 0,
            run < i,
            run < ZERO_DELAY_RUN,
            forall|j: int| i - run <= j < i ==> #[trigger] lead@[j].delay == 0,
            run < i - 1 ==> i - run - 1 >= 1 && lead@[i - run - 1].delay != 0,
            forall|j: int| 1 <= j && j + ZERO_DELAY_RUN <= i ==> !#[trigger] zero_delay_run_at(lead@, j),
        decreases lead.len() - i,
    {
        if lead[i].delay == 0 {
            run = run + 1;
            if run == ZERO_DELAY_RUN {
                assert(zero_delay_run_at(lead@, i + 1 - ZERO_DELAY_RUN));
                return false;
            }
        } else {
            run = 0;
        }
        i = i + 1;
        assert forall|j: int| 1 <= j && j + ZERO_DELAY_RUN <= i implies !#[trigger] zero_delay_run_at(lead@, j) by {
            if j + ZERO_DELAY_RUN == i {
                if run == 0 {
                    assert(lead@[i - 1].delay != 0);
                } else {
                    assert(lead@[i - run - 1].delay != 0);
                }
            }
        }
    }
    true
}

/// Notes whose start and delay are both an odd number of sixteenths are
/// not allowed.
pub fn is_not_bad_rhythm_with_odd_notes(lead: &Vec<NoteData>) -> (r: bool)
    ensures
        r == !exists|i: int|
            0 <= i < lead.len() && (#[trigger] lead@[i]).start / SIXTEENTH_TICKS % 2 == 1
                && lead@[i].delay / SIXTEENTH_TICKS % 2 == 1,
{
    let mut i: usize = 0;
    while i < lead.len()
        invariant
            forall|j: int|
                0 <= j < i && j < lead.len() ==> !((#[trigger] lead@[j]).start / SIXTEENTH_TICKS % 2 == 1
                    && lead@[j].delay / SIXTEENTH_TICKS % 2 == 1),
        decreases lead.len() - i,
    {
        let n = lead[i];
        if n.start / SIXTEENTH_TICKS % 2 == 1 && n.delay / SIXTEENTH_TICKS % 2 == 1 {
            return false;
        }
        i = i + 1;
    }
    true
}

/// At least one note comes right after the one before it, without a pause.
pub fn is_at_least_one_zero_delay(lead: &Vec<NoteData>) -> (r: bool)
    ensures
        r == exists|i: int| 0 <= i < lead.len() && (#[trigger] lead@[i]).delay == 0,
{
    let mut i: usize = 0;
    while i < lead.len()
        invariant
            forall|j: int| 0 <= j < i && j < lead.len() ==> (#[trigger] lead@[j]).delay != 0,
        decreases lead.len() - i,
    {
        if lead[i].delay == 0 {
            return true;
        }
        i = i + 1;
    }
    false
}

/// Number of pauses is less than 4.
pub fn is_not_many_delays(lead: &Vec<NoteData>) -> (r: bool)
    ensures
        r == few_pauses(lead@),
{
    let mut count: usize = 0;
    let mut i: usize = 0;
    while i < lead.len()
        invariant
            i <= lead.len(),
            count == pause_count(lead@.subrange(0, i as int)),
            count <= i,
        decreases lead.len() - i,
    {
        assert(lead@.subrange(0, i + 1).drop_last() =~= lead@.subrange(0, i as int));
        if lead[i].delay != 0 {
            count = count + 1;
        }
        i = i + 1;
    }
    assert(lead@.subrange(0, lead.len() as int) =~= lead@);
    count < MAX_PAUSES
}

/// Every transition scores between `d - 214` and `4 * d`: intervals of
/// notes in 21..=128 lie within 107 semitones.
proof fn lemma_transition_score_bounds(
    lead: Seq<NoteData>,
    ideal: Seq<NoteData>,
    cfg: FitnessConfig,
    i: int,
)
    requires
        cfg.wf(),
        1 <= i < compared_len(lead, ideal),
    ensures
        cfg.contour_divisor - 214 <= transition_score(lead, ideal, cfg, i) <= 4 * cfg.contour_divisor,
{
    lemma_pitch_in_range(lead[i].note);
    lemma_pitch_in_range(lead[i - 1].note);
    lemma_pitch_in_range(ideal[i].note);
    lemma_pitch_in_range(ideal[i - 1].note);
}

/// The transitions up to `k` sum to at most `4 * d * (k - 1)` and to at
/// least `-214 * (k - 1)`.
proof fn lemma_transitions_sum_bounds(
    lead: Seq<NoteData>,
    ideal: Seq<NoteData>,
    cfg: FitnessConfig,
    k: int,
)
    requires
        cfg.wf(),
        1 <= k <= compared_len(lead, ideal),
    ensures
        -214 * (k - 1) <= transitions_sum(lead, ideal, cfg, k) <= 4 * cfg.contour_divisor * (k - 1),
    decreases k,
{
    if k > 1 {
        lemma_transitions_sum_bounds(lead, ideal, cfg, k - 1);
        lemma_transition_score_bounds(lead, ideal, cfg, k - 1);
        let d = cfg.contour_divisor as int;
        assert(4 * d * (k - 2) + 4 * d == 4 * d * (k - 1)) by (nonlinear_arith);
    }
}

/// The raw score never exceeds `4 * n * d`, the score of a perfect match.
proof fn lemma_raw_score_at_most_full(lead: Seq<NoteData>, ideal: Seq<NoteData>, cfg: FitnessConfig)
    requires
        cfg.wf(),
        lead.len() > 0,
    ensures
        raw_score(lead, ideal, cfg) <= 4 * lead.len() * cfg.contour_divisor,
{
    let k = compared_len(lead, ideal);
    let d = cfg.contour_divisor as int;
    let n = lead.len() as int;
    if k >= 1 {
        lemma_transitions_sum_bounds(lead, ideal, cfg, k);
        assert(4 * d + 4 * d * (k - 1) <= 4 * n * d) by (nonlinear_arith)
            requires
                1 <= k <= n,
                d > 0,
        ;
    } else {
        assert(4 * d <= 4 * n * d) by (nonlinear_arith)
            requires
                1 <= n,
                d > 0,
        ;
    }
}

/// Fitness lies between 0 and `FITNESS_SCALE` (which stands for 1).
pub proof fn lemma_fitness_bounded(lead: Seq<NoteData>, ideal: Seq<NoteData>, cfg: FitnessConfig)
    requires
        cfg.wf(),
    ensures
        0 <= fitness_value(lead, ideal, cfg) <= FITNESS_SCALE,
{
    let raw = raw_score(lead, ideal, cfg);
    if lead.len() > 0 && passes_gate(lead) && raw > 0 {
        let den = 4 * lead.len() * cfg.contour_divisor;
        lemma_raw_score_at_most_full(lead, ideal, cfg);
        assert(den > 0) by (nonlinear_arith)
            requires
                lead.len() > 0,
                cfg.contour_divisor > 0,
                den == 4 * lead.len() * cfg.contour_divisor,
        ;
        assert(raw * FITNESS_SCALE <= den * FITNESS_SCALE) by (nonlinear_arith)
            requires
                raw <= den,
        ;
        vstd::arithmetic::div_mod::lemma_div_is_ordered(raw * FITNESS_SCALE, den * FITNESS_SCALE, den);
        vstd::arithmetic::div_mod::lemma_div_multiples_vanish(FITNESS_SCALE as int, den);
        vstd::arithmetic::div_mod::lemma_div_pos_is_pos(raw * FITNESS_SCALE, den);
        assert(den * FITNESS_SCALE == FITNESS_SCALE * den) by (nonlinear_arith);
    }
}

/// A lead in which some note comes three times in a row scores 0, whatever
/// the ideal lead.
pub proof fn lemma_triple_repeat_scores_zero(
    lead: Seq<NoteData>,
    ideal: Seq<NoteData>,
    cfg: FitnessConfig,
    i: int,
)
    requires
        2 <= i < lead.len(),
        lead[i - 2].note == lead[i - 1].note,
        lead[i - 1].note == lead[i].note,
    ensures
        fitness_value(lead, ideal, cfg) == 0,
{
    assert(repeats_three_times_at(lead, i));
}

/// Against itself every transition scores `4 * d`.
proof fn lemma_self_transitions_sum(lead: Seq<NoteData>, cfg: FitnessConfig, k: int)
    requires
        cfg.wf(),
        1 <= k <= lead.len(),
    ensures
        transitions_sum(lead, lead, cfg, k) == 4 * cfg.contour_divisor * (k - 1),
    decreases k,
{
    if k > 1 {
        lemma_self_transitions_sum(lead, cfg, k - 1);
        let d = cfg.contour_divisor as int;
        assert(transition_score(lead, lead, cfg, k - 1) == 4 * d);
        assert(4 * d * (k - 2) + 4 * d == 4 * d * (k - 1)) by (nonlinear_arith);
    } else {
        assert(4 * cfg.contour_divisor * (k - 1) == 0) by (nonlinear_arith)
            requires
                k == 1,
        ;
    }
}

/// A lead that keeps the structural rules scores a perfect `FITNESS_SCALE` against
/// itself: it has the ideal's rhythm and contour.
pub proof fn lemma_reference_scores_full(reference: Seq<NoteData>, cfg: FitnessConfig)
    requires
        cfg.wf(),
        reference.len() > 0,
        passes_gate(reference),
    ensures
        fitness_value(reference, reference, cfg) == FITNESS_SCALE,
{
    let n = reference.len() as int;
    let d = cfg.contour_divisor as int;
    lemma_self_transitions_sum(reference, cfg, n);
    assert(4 * d + 4 * d * (n - 1) == 4 * n * d) by (nonlinear_arith);
    assert(4 * n * d > 0) by (nonlinear_arith)
        requires
            n > 0,
            d > 0,
    ;
    vstd::arithmetic::div_mod::lemma_div_multiples_vanish(FITNESS_SCALE as int, 4 * n * d);
    assert(raw_score(reference, reference, cfg) * FITNESS_SCALE == (4 * n * d) * FITNESS_SCALE);
    assert((4 * n * d) * FITNESS_SCALE == FITNESS_SCALE * (4 * n * d)) by (nonlinear_arith);
}

/// Score of transition `i`, see [`transition_score`].
fn calc_fitness_for_next_note(
    lead: &Vec<NoteData>,
    ideal_lead: &Vec<NoteData>,
    i: usize,
    cfg: FitnessConfig,
) -> (r: i64)
    requires
        cfg.wf(),
        1 <= i < lead.len(),
        i < ideal_lead.len(),
    ensures
        r == transition_score(lead@, ideal_lead@, cfg, i as int),
{
    let d = cfg.contour_divisor as i64;
    let unit = cfg.sixteenth_ticks;
    let timing: i64 = if lead[i].delay / unit == ideal_lead[i].delay / unit {
        3 * d
    } else {
        0
    };
    let step = lead[i].note.semitones_from(&lead[i - 1].note) as i64;
    let ideal_step = ideal_lead[i].note.semitones_from(&ideal_lead[i - 1].note) as i64;
    let diff = step - ideal_step;
    let dist = if diff < 0 {
        -diff
    } else {
        diff
    };
    timing + d - dist
}

/// Calculates the fitness of `lead` against the ideal lead, see
/// [`fitness_value`]: 0 unless the lead keeps the structural rules, up to
/// `FITNESS_SCALE` for a lead with the rhythm and contour of the ideal.
pub fn fitness(cfg: FitnessConfig, lead: &Vec<NoteData>, ideal_lead: &Vec<NoteData>) -> (r: u64)
    requires
        cfg.wf(),
    ensures
        r == fitness_value(lead@, ideal_lead@, cfg),
        r <= FITNESS_SCALE,
{
    proof {
        lemma_fitness_bounded(lead@, ideal_lead@, cfg);
    }
    let n = lead.len();
    if n == 0 {
        return 0;
    }
    let k = if n <= ideal_lead.len() {
        n
    } else {
        ideal_lead.len()
    };
    let d = cfg.contour_divisor;
    let mut total: i128 = 4 * d as i128;
    let mut i: usize = 1;
    while i < k
        invariant
            1 <= i,
            k == compared_len(lead@, ideal_lead@),
            i <= k || i == 1,
            cfg.wf(),
            d == cfg.contour_divisor,
            k <= n == lead.len(),
            k <= ideal_lead.len(),
            total == 4 * d + transitions_sum(lead@, ideal_lead@, cfg, i as int),
        decreases k - i,
    {
        proof {
            lemma_transitions_sum_bounds(lead@, ideal_lead@, cfg, i as int);
            lemma_transition_score_bounds(lead@, ideal_lead@, cfg, i as int);
            assert(4 * d * (i - 1) <= 4 * 0x1_0000_0000 * 0x1_0000_0000_0000_0000) by (nonlinear_arith)
                requires
                    d <= 0xffff_ffff,
                    i <= 0xffff_ffff_ffff_ffff,
            ;
        }
        let t = calc_fitness_for_next_note(lead, ideal_lead, i, cfg);
        total = total + t as i128;
        i = i + 1;
    }
    let plausible = is_without_three_times_repetition(lead) && is_distance_between_notes_not_big(lead)
        && is_not_too_big_parts(lead) && is_not_many_delays(lead);
    if !plausible || total <= 0 {
        return 0;
    }
    proof {
        lemma_raw_score_at_most_full(lead@, ideal_lead@, cfg);
        assert(4 * n * d <= 4 * 0x1_0000_0000_0000_0000 * 0x1_0000_0000) by (nonlinear_arith)
            requires
                d <= 0xffff_ffff,
                n <= 0xffff_ffff_ffff_ffff,
        ;
        assert(total * FITNESS_SCALE <= 4 * n * d * FITNESS_SCALE) by (nonlinear_arith)
            requires
                total <= 4 * n * d,
        ;
    }
    let den: u128 = 4 * (n as u128) * (d as u128);
    let value: u128 = (total as u128) * (FITNESS_SCALE as u128) / den;
    value as u64
}

} // verus!
