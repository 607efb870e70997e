use music_generator::midi::generator::analyzer::{analyze_delays, analyze_notes};
use music_generator::midi::generator::composer::{
    change_note_msg_channel, compose_chord, compose_lead_from_generated, compose_note, MidiMessage,
};
use music_generator::midi::parser::chord_parser::ChordParser;
use music_generator::midi::parser::lead_parser::LeadParser;
use music_generator::midi::parser::midi_parser::MidiParser;
use music_generator::notes::note::Note;
use music_generator::notes::note_data::NoteData;

#[test]
fn midi_parser_pairs_events_and_orders_notes() {
    let mut p = MidiParser::new();
    p.note_on(0, Note::E4, 90);
    p.note_on(0, Note::C4, 100);
    p.note_off(20, Note::E4);
    // A second note-on of a sounding pitch is ignored.
    p.note_on(0, Note::C4, 50);
    p.other_event(10);
    p.note_off(5, Note::C4);
    // A release of a pitch that does not sound is ignored.
    p.note_off(0, Note::G4);
    p.note_on(5, Note::G4, 80);
    p.note_off(15, Note::G4);
    assert_eq!(
        p.extract_notes(),
        vec![
            NoteData::new(Note::C4, 100, 0, 35, 0),
            NoteData::new(Note::E4, 90, 0, 20, 0),
            NoteData::new(Note::G4, 80, 40, 15, 5),
        ]
    );
}

#[test]
fn lead_parser_closes_the_last_opened_note() {
    let mut p = LeadParser::new();
    p.note_off(10);
    p.note_on(0, Note::C4, 100);
    p.note_off(32);
    p.note_on(16, Note::D4, 90);
    p.note_off(64);
    assert_eq!(
        p.extract_lead(),
        vec![NoteData::new(Note::C4, 100, 0, 32, 0), NoteData::new(Note::D4, 90, 16, 64, 0)]
    );
}

#[test]
fn chord_parser_groups_released_notes() {
    let mut p = ChordParser::new();
    p.note_on(0, Note::C4, 100);
    p.note_on(0, Note::E4, 90);
    p.note_off(64, Note::C4);
    p.note_off(0, Note::E4);
    p.note_on(0, Note::G4, 80);
    p.note_off(32, Note::G4);
    assert_eq!(
        p.extract_chords(),
        vec![
            vec![NoteData::new(Note::C4, 100, 0, 64, 0), NoteData::new(Note::E4, 90, 0, 0, 0)],
            vec![NoteData::new(Note::G4, 80, 0, 32, 0)],
        ]
    );
}

#[test]
fn lead_note_events() {
    let n = NoteData::new(Note::A4, 75, 64, 32, 16);
    assert_eq!(
        compose_note(n),
        vec![
            MidiMessage::NoteOn { delta_time: 16, channel: 0, note: 69, velocity: 75 },
            MidiMessage::NoteOn { delta_time: 32, channel: 0, note: 69, velocity: 0 },
        ]
    );
    let m = NoteData::new(Note::C4, 70, 96, 64, 0);
    let events = compose_lead_from_generated(vec![n, m]);
    assert_eq!(events.len(), 4);
    assert_eq!(events[2], MidiMessage::NoteOn { delta_time: 0, channel: 0, note: 60, velocity: 70 });
    assert_eq!(events[3], MidiMessage::NoteOn { delta_time: 64, channel: 0, note: 60, velocity: 0 });
}

#[test]
fn chord_events_release_in_order_of_end() {
    let chord = vec![
        NoteData::new(Note::C4, 80, 0, 96, 0),
        NoteData::new(Note::E4, 80, 0, 32, 0),
        NoteData::new(Note::G4, 80, 0, 64, 0),
    ];
    assert_eq!(
        compose_chord(chord),
        vec![
            MidiMessage::NoteOn { delta_time: 0, channel: 1, note: 60, velocity: 80 },
            MidiMessage::NoteOn { delta_time: 0, channel: 1, note: 64, velocity: 80 },
            MidiMessage::NoteOn { delta_time: 0, channel: 1, note: 67, velocity: 80 },
            MidiMessage::NoteOn { delta_time: 32, channel: 1, note: 64, velocity: 0 },
            MidiMessage::NoteOn { delta_time: 32, channel: 1, note: 67, velocity: 0 },
            MidiMessage::NoteOn { delta_time: 32, channel: 1, note: 60, velocity: 0 },
        ]
    );
}

#[test]
fn messages_move_to_another_channel() {
    let on = MidiMessage::NoteOn { delta_time: 5, channel: 0, note: 60, velocity: 9 };
    let off = MidiMessage::NoteOff { delta_time: 7, channel: 0, note: 61, velocity: 0 };
    assert_eq!(
        change_note_msg_channel(&on, 3),
        MidiMessage::NoteOn { delta_time: 5, channel: 3, note: 60, velocity: 9 }
    );
    assert_eq!(
        change_note_msg_channel(&off, 2),
        MidiMessage::NoteOff { delta_time: 7, channel: 2, note: 61, velocity: 0 }
    );
}

#[test]
fn transitions_are_counted_over_all_melodies() {
    let nd = |n: Note, delay: u32| NoteData::new(n, 75, 0, 32, delay);
    let data = vec![
        vec![nd(Note::C4, 0), nd(Note::D4, 32), nd(Note::C4, 0), nd(Note::D4, 32)],
        vec![nd(Note::D4, 0), nd(Note::C4, 0)],
        vec![nd(Note::E4, 0)],
    ];
    let mut notes = analyze_notes(&data);
    notes.sort();
    assert_eq!(notes, vec![(60, 62, 2), (62, 60, 2)]);
    let mut delays = analyze_delays(&data);
    delays.sort();
    assert_eq!(delays, vec![(0, 0, 1), (0, 32, 2), (32, 0, 1)]);
}
