use music_generator::genetic::fitness::{fitness, FitnessConfig};
use music_generator::genetic::mutation::RATE_SCALE;
use music_generator::genetic::{evolve, try_generate_lead_with_genetic_algorithm};
use music_generator::melody_type::SynthwaveMelodyType;
use music_generator::midi::generator::generator::generate_lead_melody_with_bpm_and_len;
use music_generator::notes::note::Note;
use music_generator::notes::note_data::NoteData;
use rand::rngs::StdRng;
use rand::SeedableRng;

fn c_major() -> Vec<Note> {
    vec![
        Note::C4, Note::D4, Note::E4, Note::F4, Note::G4, Note::A4, Note::B4,
        Note::C5, Note::D5, Note::E5, Note::F5, Note::G5, Note::A5, Note::B5,
    ]
}

fn reference() -> Vec<NoteData> {
    vec![
        NoteData::new(Note::C4, 75, 0, 4, 0),
        NoteData::new(Note::E4, 75, 4, 4, 0),
        NoteData::new(Note::G4, 75, 8, 4, 0),
    ]
}

#[test]
fn seed_holding_the_reference_stops_at_once() {
    let mut rng = StdRng::seed_from_u64(21);
    let scale = c_major();
    let mut seed = Vec::new();
    while seed.len() < 50 {
        let lead = generate_lead_melody_with_bpm_and_len(&mut rng, 0, &scale, 8);
        if lead.len() > 3 {
            seed.push(lead);
        }
    }
    seed.insert(25, reference());
    let result = evolve(
        &mut rng,
        FitnessConfig::standard(),
        seed,
        &reference(),
        990_000,
        RATE_SCALE / 10,
        &scale,
        0,
    );
    assert_eq!(result, Some(reference()));
}

#[test]
fn unreachable_target_runs_out_of_generations() {
    let mut rng = StdRng::seed_from_u64(22);
    let scale = c_major();
    let seed: Vec<Vec<NoteData>> = (0..20)
        .map(|_| generate_lead_melody_with_bpm_and_len(&mut rng, 0, &scale, 8))
        .collect();
    let result = evolve(&mut rng, FitnessConfig::standard(), seed, &reference(), 1_000_001, 100_000, &scale, 3);
    assert_eq!(result, None);
}

#[test]
fn empty_seed_gives_no_result() {
    let mut rng = StdRng::seed_from_u64(23);
    let scale = c_major();
    assert_eq!(evolve(&mut rng, FitnessConfig::standard(), vec![], &reference(), 0, 0, &scale, 5), None);
}

#[test]
fn empty_leads_in_the_seed_score_zero() {
    let mut rng = StdRng::seed_from_u64(26);
    let scale = c_major();
    let seed = vec![vec![], reference(), vec![]];
    assert_eq!(
        evolve(&mut rng, FitnessConfig::standard(), seed.clone(), &reference(), 990_000, 0, &scale, 0),
        Some(reference())
    );
    // The empty leads are never drawn as parents, so a run goes on without them.
    let result = evolve(&mut rng, FitnessConfig::standard(), seed, &reference(), 1_000_001, 100_000, &scale, 3);
    assert_eq!(result, None);
}

#[test]
fn all_zero_seed_fails_at_once() {
    let mut rng = StdRng::seed_from_u64(27);
    let scale = c_major();
    assert_eq!(
        evolve(&mut rng, FitnessConfig::standard(), vec![vec![], vec![]], &reference(), 1, 0, &scale, 10),
        None
    );
}

#[test]
fn evolved_lead_reaches_the_target() {
    let mut rng = StdRng::seed_from_u64(24);
    let scale = c_major();
    let seed: Vec<Vec<NoteData>> = (0..40)
        .map(|_| generate_lead_melody_with_bpm_and_len(&mut rng, 0, &scale, 8))
        .collect();
    let ideal = generate_lead_melody_with_bpm_and_len(&mut rng, 0, &scale, 8);
    let target = 300_000;
    if let Some(lead) = evolve(&mut rng, FitnessConfig::standard(), seed, &ideal, target, 200_000, &scale, 20) {
        assert!(fitness(FitnessConfig::standard(), &lead, &ideal) >= target);
    }
}

#[test]
fn no_ideal_lead_gives_no_result() {
    let mut rng = StdRng::seed_from_u64(25);
    let mut ideals: Vec<Vec<NoteData>> = Vec::new();
    let r = try_generate_lead_with_genetic_algorithm(
        &mut rng,
        &mut ideals,
        0,
        &c_major(),
        SynthwaveMelodyType::ABAB,
        900_000,
        100_000,
    );
    assert_eq!(r, None);
}
