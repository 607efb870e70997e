use music_generator::notes::note::Note;
use music_generator::notes::note_data::NoteData;

#[test]
fn a4_is_midi_69() {
    assert_eq!(Note::A4.midi(), 69);
    assert_eq!(Note::A0.midi(), 21);
    assert_eq!(Note::Ab9.midi(), 128);
}

#[test]
fn from_midi_or_none_round_trips() {
    assert_eq!(Note::from_midi_or_none(69), Some(Note::A4));
    assert_eq!(Note::from_midi_or_none(130), None);
    assert_eq!(Note::from_midi_or_none(20), None);
    for m in 21u8..=128 {
        assert_eq!(Note::from_midi_or_none(m).unwrap().midi(), m);
    }
}

#[test]
fn midi_iter_lists_every_note_in_order() {
    let all = Note::midi_iter();
    assert_eq!(all.len(), 108);
    assert_eq!(all[0], (Note::A0, 21));
    assert_eq!(all[48], (Note::A4, 69));
    assert_eq!(all[107], (Note::Ab9, 128));
}

#[test]
fn semitone_shifts() {
    assert_eq!(Note::A4.up(7), Some(Note::E5));
    assert_eq!(Note::A4.down(7), Some(Note::D4));
    assert_eq!(Note::A4.octave_up(), Some(Note::A5));
    assert_eq!(Note::A4.octave_down(), Some(Note::A3));
}

#[test]
fn shifts_out_of_range_give_none() {
    assert_eq!(Note::Ab9.up(1), None);
    assert_eq!(Note::A0.down(1), None);
    assert_eq!(Note::G9.octave_up(), None);
    assert_eq!(Note::Ab1.octave_down(), None);
    assert_eq!(Note::A4.up(255), None);
    assert_eq!(Note::A4.down(255), None);
}

#[test]
fn semitones_between_notes() {
    assert_eq!(Note::E4.semitones_from(&Note::C4), 4);
    assert_eq!(Note::C4.semitones_from(&Note::E4), -4);
    assert_eq!(Note::Ab9.semitones_from(&Note::A0), 107);
}

#[test]
fn pitch_class_of_notes() {
    assert_eq!(Note::C4.pitch_class(), 0);
    assert_eq!(Note::A4.pitch_class(), 9);
    assert_eq!(Note::B5.pitch_class(), 11);
}

#[test]
fn note_data_getters_and_clones() {
    let n = NoteData::new(Note::A4, 100, 32, 64, 16);
    assert_eq!(n.note(), Note::A4);
    assert_eq!(n.velocity(), 100);
    assert_eq!(n.start(), 32);
    assert_eq!(n.length(), 64);
    assert_eq!(n.delay(), 16);
    assert_eq!(n.clone_with_new_note(Note::C4), NoteData::new(Note::C4, 100, 32, 64, 16));
    assert_eq!(n.clone_with_velocity(1), NoteData::new(Note::A4, 1, 32, 64, 16));
    assert_eq!(n.clone_with_new_start(0), NoteData::new(Note::A4, 100, 0, 64, 16));
    assert_eq!(n.clone_with_new_length(1), NoteData::new(Note::A4, 100, 32, 1, 16));
    assert_eq!(n.clone_with_new_delay(0), NoteData::new(Note::A4, 100, 32, 64, 0));
}

#[test]
fn note_data_shifts_keep_timing() {
    let n = NoteData::new(Note::A4, 100, 32, 64, 16);
    assert_eq!(n.up(7), Some(NoteData::new(Note::E5, 100, 32, 64, 16)));
    assert_eq!(n.down(7), Some(NoteData::new(Note::D4, 100, 32, 64, 16)));
    assert_eq!(n.octave_up(), Some(NoteData::new(Note::A5, 100, 32, 64, 16)));
    assert_eq!(n.octave_down(), Some(NoteData::new(Note::A3, 100, 32, 64, 16)));
    assert_eq!(NoteData::new(Note::Ab9, 1, 0, 1, 0).up(1), None);
}

#[test]
fn note_events_order_by_start_then_pitch() {
    let early_high = NoteData::new(Note::A5, 75, 0, 32, 0);
    let late_low = NoteData::new(Note::A0, 75, 32, 32, 0);
    assert!(early_high < late_low);
    let low = NoteData::new(Note::C4, 75, 32, 32, 0);
    let high = NoteData::new(Note::E4, 75, 32, 32, 0);
    assert!(low < high);
    assert!(high > low);
    // Same start and pitch: equal in order, whatever the velocity, length and delay.
    let quiet = NoteData::new(Note::C4, 10, 32, 64, 16);
    assert_eq!(quiet.partial_cmp(&low), Some(std::cmp::Ordering::Equal));
    assert_eq!(low.partial_cmp(&low), Some(std::cmp::Ordering::Equal));
}

#[test]
fn notes_order_by_midi_number() {
    assert!(Note::C4 < Note::Db4);
    assert!(Note::A0 < Note::Ab9);
    assert_eq!(Note::E4.partial_cmp(&Note::E4), Some(std::cmp::Ordering::Equal));
    assert_eq!(Note::G5.cmp(&Note::C2), std::cmp::Ordering::Greater);
}
