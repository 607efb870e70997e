use music_generator::genetic::mutation::{mutate, RATE_SCALE};
use music_generator::melody_type::SynthwaveMelodyType;
use music_generator::midi::bpm::{generate_bpm, TimeScale};
use music_generator::midi::generator::arpeggio_types::ArpeggioTypes;
use music_generator::midi::generator::generator::{
    generate_lead_melody_with_bpm_and_len, generate_synthwave_melody_length, randomize_lead,
    randomize_note, randomize_note_with_given_diff, DIRECTION_DOWN, DIRECTION_UP,
};
use music_generator::midi::generator::{get_bar_ratio, random_from_vec};
use music_generator::midi::{get_bar_time, get_tempo, melody_types};
use music_generator::notes::note::Note;
use music_generator::notes::note_data::NoteData;
use rand::rngs::StdRng;
use rand::SeedableRng;

fn c_major() -> Vec<Note> {
    vec![
        Note::C4, Note::D4, Note::E4, Note::F4, Note::G4, Note::A4, Note::B4,
        Note::C5, Note::D5, Note::E5, Note::F5, Note::G5, Note::A5, Note::B5,
    ]
}

fn nd(note: Note, start: u32, length: u32, delay: u32) -> NoteData {
    NoteData::new(note, 75, start, length, delay)
}

#[test]
fn scale_moves_with_given_diff() {
    let scale = vec![Note::C4, Note::D4, Note::E4, Note::F4, Note::G4];
    let d4 = nd(Note::D4, 32, 32, 0);
    assert_eq!(randomize_note_with_given_diff(d4, &scale, DIRECTION_UP, 2).note(), Note::F4);
    assert_eq!(randomize_note_with_given_diff(d4, &scale, DIRECTION_DOWN, 1).note(), Note::C4);
    // A move past the end of the scale keeps the note.
    assert_eq!(randomize_note_with_given_diff(d4, &scale, DIRECTION_UP, 6), d4);
    assert_eq!(randomize_note_with_given_diff(d4, &scale, DIRECTION_DOWN, 2), d4);
}

#[test]
fn notes_off_the_scale_snap_to_the_closest() {
    let scale = vec![Note::C4, Note::D4, Note::E4, Note::F4, Note::G4];
    // Db4 is as close to C4 as to D4: the first is taken.
    let db4 = nd(Note::Db4, 0, 32, 0);
    assert_eq!(randomize_note_with_given_diff(db4, &scale, DIRECTION_UP, 1).note(), Note::C4);
    let a4 = nd(Note::A4, 0, 32, 0);
    assert_eq!(randomize_note_with_given_diff(a4, &scale, DIRECTION_DOWN, 0).note(), Note::G4);
    // An empty scale keeps the note.
    assert_eq!(randomize_note_with_given_diff(a4, &Vec::new(), DIRECTION_UP, 1), a4);
}

#[test]
fn random_note_moves_stay_on_the_scale() {
    let mut rng = StdRng::seed_from_u64(9);
    let scale = c_major();
    let mut changed = 0;
    for i in 0..200 {
        let note = nd(scale[i % scale.len()], 32, 64, 0);
        let moved = randomize_note(&mut rng, note, &scale);
        assert!(scale.contains(&moved.note()));
        assert_eq!(moved.clone_with_new_note(note.note()), note);
        if moved != note {
            changed += 1;
        }
    }
    assert!(changed > 0);
}

#[test]
fn zero_mutation_rate_keeps_the_lead() {
    let mut rng = StdRng::seed_from_u64(2);
    let lead: Vec<NoteData> = (0..8).map(|i| nd(c_major()[i], 32 * i as u32, 32, 0)).collect();
    assert_eq!(mutate(&mut rng, lead.clone(), &c_major(), 0), lead);
}

#[test]
fn full_mutation_rate_moves_every_note_on_the_scale() {
    let mut rng = StdRng::seed_from_u64(4);
    let scale = c_major();
    let lead: Vec<NoteData> = (0..8).map(|i| nd(Note::Db4, 32 * i as u32, 32, 0)).collect();
    let mutated = mutate(&mut rng, lead.clone(), &scale, RATE_SCALE);
    assert_eq!(mutated.len(), lead.len());
    // Db4 is off the scale, so every moved note has left it.
    for (m, l) in mutated.iter().zip(lead.iter()) {
        assert!(scale.contains(&m.note()));
        assert_eq!(m.start(), l.start());
        assert_eq!(m.delay(), l.delay());
    }
}

#[test]
fn randomized_lead_moves_all_notes_together() {
    let mut rng = StdRng::seed_from_u64(8);
    let scale = c_major();
    let lead: Vec<NoteData> = (0..4).map(|i| nd(scale[i + 3], 32 * i as u32, 32, 0)).collect();
    let moved = randomize_lead(&mut rng, lead.clone(), &scale, DIRECTION_UP);
    assert_eq!(moved.len(), 4);
    let shift = scale.iter().position(|n| *n == moved[0].note()).unwrap() - 3;
    assert!(shift <= 2);
    for i in 0..4 {
        assert_eq!(moved[i].note(), scale[i + 3 + shift]);
    }
}

#[test]
fn generated_lead_starts_on_the_tonic_and_fits_the_bar() {
    let mut rng = StdRng::seed_from_u64(10);
    let scale = c_major();
    for key in 0u8..12 {
        let lead = generate_lead_melody_with_bpm_and_len(&mut rng, key, &scale, 8);
        assert!(!lead.is_empty() && lead.len() <= 8);
        assert_eq!(lead[0].note().midi(), 72 + key);
        assert_eq!(lead[0].start(), 0);
        for (i, n) in lead.iter().enumerate() {
            assert!(n.length() > 0);
            assert!(n.start() + n.length() <= 512);
            if i > 0 {
                assert_eq!(n.start(), lead[i - 1].start() + lead[i - 1].length() + n.delay());
            }
        }
    }
}

#[test]
fn melody_lengths_and_types() {
    let mut rng = StdRng::seed_from_u64(12);
    for _ in 0..100 {
        let n = generate_synthwave_melody_length(&mut rng);
        assert!((4..=8).contains(&n));
    }
    assert_eq!(
        melody_types(),
        vec![SynthwaveMelodyType::ABAB, SynthwaveMelodyType::AAAB, SynthwaveMelodyType::ABAC]
    );
}

#[test]
fn synthwave_melodies_repeat_their_parts() {
    let mut rng = StdRng::seed_from_u64(13);
    let scale = c_major();
    for t in melody_types() {
        let melody = t.generate_synthwave_melody(&mut rng, 0, &scale).unwrap();
        let half = melody.len() / 2;
        assert_eq!(melody.len() % 2, 0);
        assert!(half >= 4);
        // The second four bars repeat the first, but for the first delay.
        for i in 1..half {
            assert_eq!(melody[i], melody[half + i]);
        }
        assert_eq!(melody[0].clone_with_new_delay(melody[half].delay()), melody[half]);
    }
}

#[test]
fn bar_ratio_and_tempo() {
    assert_eq!(get_bar_ratio(512, 3), 96);
    assert_eq!(get_bar_ratio(512, 16), 512);
    assert_eq!(get_tempo(120), 500_000);
    assert_eq!(get_bar_time(120), 2000);
    assert_eq!(get_bar_time(90), 2666);
    let scale = TimeScale { ticks_per_quarter_note: 128, bpm: 120 };
    assert_eq!(scale.tempo(), 500_000);
    assert_eq!(scale.bar_time(), 2000);
    let odd = TimeScale { ticks_per_quarter_note: 128, bpm: 7 };
    // 60_000_000 / 7 = 8_571_428.57 rounds up; / 250 = 34_285.7 rounds up.
    assert_eq!(odd.tempo(), 8_571_429);
    assert_eq!(odd.bar_time(), 34_286);
}

#[test]
fn generated_tempo_is_in_range() {
    let mut rng = StdRng::seed_from_u64(14);
    let mut seen = std::collections::HashSet::new();
    for _ in 0..200 {
        let bpm = generate_bpm(&mut rng);
        assert!((90..=120).contains(&bpm));
        seen.insert(bpm);
    }
    assert!(seen.len() > 1);
}

#[test]
fn random_item_comes_from_the_vector() {
    let mut rng = StdRng::seed_from_u64(15);
    let mut v: Vec<u32> = (1..=10).collect();
    let mut firsts = std::collections::HashSet::new();
    for _ in 0..50 {
        let x = random_from_vec(&mut rng, &mut v).unwrap();
        assert!((1..=10).contains(&x));
        assert_eq!(v[0], x);
        let mut sorted = v.clone();
        sorted.sort();
        assert_eq!(sorted, (1..=10).collect::<Vec<u32>>());
        firsts.insert(x);
    }
    assert!(firsts.len() > 1);
    let mut empty: Vec<u32> = Vec::new();
    assert_eq!(random_from_vec(&mut rng, &mut empty), None);
}

#[test]
fn arpeggio_figures() {
    let scale = vec![Note::C4, Note::E4, Note::G4];
    let tonic = nd(Note::E4, 0, 32, 0);
    let up = tonic.clone_with_new_note(Note::G4);
    let down = tonic.clone_with_new_note(Note::C4);
    assert_eq!(ArpeggioTypes::SameSame.notes_from_tonic(tonic, &scale), Some(vec![tonic, tonic]));
    assert_eq!(ArpeggioTypes::SameUp.notes_from_tonic(tonic, &scale), Some(vec![tonic, up]));
    assert_eq!(ArpeggioTypes::SameDown.notes_from_tonic(tonic, &scale), Some(vec![tonic, down]));
    assert_eq!(ArpeggioTypes::UpSame.notes_from_tonic(tonic, &scale), Some(vec![up, tonic]));
    assert_eq!(ArpeggioTypes::UpUp.notes_from_tonic(tonic, &scale), Some(vec![up, up]));
    assert_eq!(ArpeggioTypes::DownSame.notes_from_tonic(tonic, &scale), Some(vec![down, tonic]));
    assert_eq!(ArpeggioTypes::DownDown.notes_from_tonic(tonic, &scale), Some(vec![down, down]));
    let top = nd(Note::G4, 0, 32, 0);
    assert_eq!(ArpeggioTypes::UpUp.notes_from_tonic(top, &scale), None);
}

#[test]
fn random_arpeggio_types_vary() {
    let mut rng = StdRng::seed_from_u64(16);
    let mut seen = Vec::new();
    for _ in 0..200 {
        let t = ArpeggioTypes::random_arp(&mut rng);
        if !seen.contains(&t) {
            seen.push(t);
        }
    }
    assert_eq!(seen.len(), 7);
}
