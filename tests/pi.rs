use music_generator::midi::generator::{digits_from, fixed_to_tempo, pi_numbers};
use music_generator::notes::note::Note;
use music_generator::notes::note_data::NoteData;
use rand::rngs::StdRng;
use rand::SeedableRng;

#[test]
fn first_digits_of_pi() {
    assert_eq!(pi_numbers(0, 2), Some(vec![1, 4]));
    assert_eq!(pi_numbers(2, 5), Some(vec![1, 5, 9, 2, 6]));
}

#[test]
fn digits_of_a_text() {
    let text: Vec<char> = "3.14159".chars().collect();
    assert_eq!(digits_from(&text, 2, 3), Some(vec![1, 4, 1]));
    // The span ends with the text.
    assert_eq!(digits_from(&text, 5, 10), Some(vec![5, 9]));
    assert_eq!(digits_from(&text, 20, 3), Some(vec![]));
    // A character that is not a digit.
    assert_eq!(digits_from(&text, 0, 3), None);
}

#[test]
fn parsed_note_is_fitted_to_the_tempo() {
    let mut rng = StdRng::seed_from_u64(31);
    let note = NoteData::new(Note::C4, 30, 100, 40, 7);
    let fitted = fixed_to_tempo(&mut rng, note, &vec![64, 32, 128], &vec![]).unwrap();
    assert_eq!(fitted.note(), Note::C4);
    assert_eq!(fitted.start(), 100);
    assert_eq!(fitted.velocity(), 90);
    assert!((32..=41).contains(&fitted.length()));
    assert_eq!(fitted.delay(), 7);
    let loud = NoteData::new(Note::C4, 70, 0, 40, 7);
    assert_eq!(fixed_to_tempo(&mut rng, loud, &vec![], &vec![]).unwrap(), loud.clone_with_velocity(100));
}
