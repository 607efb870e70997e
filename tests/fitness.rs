use music_generator::genetic::fitness::{
    fitness, is_at_least_one_zero_delay, is_distance_between_notes_not_big,
    is_not_bad_rhythm_with_odd_notes, is_not_many_delays, is_not_too_big_parts,
    is_without_three_times_repetition, FitnessConfig, FITNESS_SCALE,
};
use music_generator::notes::note::Note;
use music_generator::notes::note_data::NoteData;
use rand::rngs::StdRng;
use rand::{Rng, SeedableRng};

fn nd(note: Note, start: u32, length: u32, delay: u32) -> NoteData {
    NoteData::new(note, 75, start, length, delay)
}

fn lead_of(notes: &[Note]) -> Vec<NoteData> {
    notes
        .iter()
        .enumerate()
        .map(|(i, &n)| nd(n, 32 * i as u32, 32, 0))
        .collect()
}

#[test]
fn three_repeats_in_a_row_are_refused() {
    assert!(!is_without_three_times_repetition(&lead_of(&[Note::C4, Note::E4, Note::E4, Note::E4])));
    assert!(is_without_three_times_repetition(&lead_of(&[Note::C4, Note::E4, Note::E4, Note::C4, Note::E4])));
    assert!(is_without_three_times_repetition(&lead_of(&[Note::C4, Note::C4])));
    assert!(is_without_three_times_repetition(&Vec::new()));
}

#[test]
fn intervals_of_seven_semitones_are_refused() {
    assert!(is_distance_between_notes_not_big(&lead_of(&[Note::C4, Note::Gb4, Note::C4])));
    assert!(!is_distance_between_notes_not_big(&lead_of(&[Note::C4, Note::G4])));
    assert!(!is_distance_between_notes_not_big(&lead_of(&[Note::G4, Note::C4])));
}

#[test]
fn six_zero_delays_after_the_first_note_are_refused() {
    // Seven notes, all without delay: notes 1..=6 form a run of six.
    let seven = lead_of(&[Note::C4, Note::D4, Note::C4, Note::D4, Note::C4, Note::D4, Note::C4]);
    assert!(!is_not_too_big_parts(&seven));
    // Six notes: only five after the first.
    assert!(is_not_too_big_parts(&seven[..6].to_vec()));
    let mut broken = seven.clone();
    broken[3] = broken[3].clone_with_new_delay(32);
    assert!(is_not_too_big_parts(&broken));
}

#[test]
fn odd_start_and_odd_delay_together_are_refused() {
    assert!(!is_not_bad_rhythm_with_odd_notes(&vec![nd(Note::C4, 32, 32, 32)]));
    assert!(is_not_bad_rhythm_with_odd_notes(&vec![nd(Note::C4, 32, 32, 64)]));
    assert!(is_not_bad_rhythm_with_odd_notes(&vec![nd(Note::C4, 64, 32, 32)]));
}

#[test]
fn zero_delay_and_pause_counts() {
    assert!(is_at_least_one_zero_delay(&vec![nd(Note::C4, 0, 32, 32), nd(Note::C4, 64, 32, 0)]));
    assert!(!is_at_least_one_zero_delay(&vec![nd(Note::C4, 0, 32, 32)]));
    let three_pauses: Vec<NoteData> = (0..3).map(|i| nd(Note::C4, 64 * i, 32, 32)).collect();
    assert!(is_not_many_delays(&three_pauses));
    let four_pauses: Vec<NoteData> = (0..4).map(|i| nd(Note::C4, 64 * i, 32, 32)).collect();
    assert!(!is_not_many_delays(&four_pauses));
}

#[test]
fn identical_lead_scores_one() {
    let reference = lead_of(&[Note::C4, Note::E4, Note::G4]);
    assert_eq!(fitness(FitnessConfig::standard(), &reference, &reference), FITNESS_SCALE);
}

#[test]
fn transposed_lead_scores_one() {
    let reference = lead_of(&[Note::C4, Note::E4, Note::G4]);
    let transposed = lead_of(&[Note::D4, Note::Gb4, Note::A4]);
    assert_eq!(fitness(FitnessConfig::standard(), &transposed, &reference), FITNESS_SCALE);
}

#[test]
fn contour_difference_costs_per_semitone() {
    // Raw score in units of 1/312: 104 + (78 + 26 - 2) + (78 + 26 - 1) = 309.
    let lead = lead_of(&[Note::C4, Note::D4, Note::E4]);
    let reference = lead_of(&[Note::C4, Note::E4, Note::G4]);
    assert_eq!(fitness(FitnessConfig::standard(), &lead, &reference), 309 * 1_000_000 / 312);
}

#[test]
fn timing_mismatch_loses_three_quarters() {
    // Raw score in units of 1/208: 104 + (0 + 26) = 130.
    let lead = vec![nd(Note::C4, 0, 32, 0), nd(Note::E4, 96, 32, 64)];
    let reference = vec![nd(Note::C4, 0, 32, 0), nd(Note::E4, 32, 32, 0)];
    assert_eq!(fitness(FitnessConfig::standard(), &lead, &reference), 130 * 1_000_000 / 208);
}

#[test]
fn other_weighting_changes_the_score() {
    // With a contour divisor of 13, one semitone of difference costs twice as much.
    let cfg = FitnessConfig { sixteenth_ticks: 32, contour_divisor: 13 };
    let lead = lead_of(&[Note::C4, Note::D4]);
    let reference = lead_of(&[Note::C4, Note::Eb4]);
    // Units of 1/104: 52 + (39 + 13 - 1) = 103.
    assert_eq!(fitness(cfg, &lead, &reference), 103 * 1_000_000 / 104);
}

#[test]
fn three_identical_pitches_score_zero() {
    let reference = lead_of(&[Note::C4, Note::E4, Note::G4, Note::E4]);
    let lead = lead_of(&[Note::C4, Note::E4, Note::E4, Note::E4]);
    assert_eq!(fitness(FitnessConfig::standard(), &lead, &reference), 0);
    assert_eq!(fitness(FitnessConfig::standard(), &lead, &lead), 0);
}

#[test]
fn negative_total_is_reported_as_zero() {
    let lead = vec![nd(Note::C4, 0, 32, 0), nd(Note::D4, 96, 32, 64), nd(Note::C4, 192, 32, 64)];
    let reference = vec![nd(Note::A0, 0, 32, 0), nd(Note::Ab9, 32, 32, 0), nd(Note::A0, 64, 32, 0)];
    assert_eq!(fitness(FitnessConfig::standard(), &lead, &reference), 0);
}

#[test]
fn empty_lead_scores_zero() {
    let reference = lead_of(&[Note::C4, Note::E4]);
    assert_eq!(fitness(FitnessConfig::standard(), &Vec::new(), &reference), 0);
}

#[test]
fn fitness_stays_between_zero_and_one() {
    let mut rng = StdRng::seed_from_u64(7);
    for _ in 0..500 {
        let n = rng.gen_range(1..10);
        let m = rng.gen_range(1..10);
        let mut pick = |len: usize, rng: &mut StdRng| -> Vec<NoteData> {
            (0..len)
                .map(|i| {
                    let midi = rng.gen_range(55u8..65);
                    nd(Note::from_midi_or_none(midi).unwrap(), 32 * i as u32, 32, 32 * rng.gen_range(0..2))
                })
                .collect()
        };
        let lead = pick(n, &mut rng);
        let reference = pick(m, &mut rng);
        let f = fitness(FitnessConfig::standard(), &lead, &reference);
        assert!(f <= FITNESS_SCALE);
    }
}
