//! Pitches that a lead may use, from A0 to Ab9, and semitone arithmetic on them.

use vstd::prelude::*;

verus! {

/// Lowest MIDI number that a [`Note`] stands for (A0).
pub const LOWEST_MIDI: u8 = 21;

/// Highest MIDI number that a [`Note`] stands for (Ab9).
pub const HIGHEST_MIDI: u8 = 128;

/// Semitones in an octave.
pub const OCTAVE: u8 = 12;

/// All notes that adequately may be used in a MIDI file, lowest first.
#[derive(Copy, Clone, PartialEq, Eq, Structural, Debug, Hash, Ord)]
pub enum Note {
    A0,
    Bb0,
    B0,
    C1,
    Db1,
    D1,
    Eb1,
    E1,
    F1,
    Gb1,
    G1,
    Ab1,
    A1,
    Bb1,
    B1,
    C2,
    Db2,
    D2,
    Eb2,
    E2,
    F2,
    Gb2,
    G2,
    Ab2,
    A2,
    Bb2,
    B2,
    C3,
    Db3,
    D3,
    Eb3,
    E3,
    F3,
    Gb3,
    G3,
    Ab3,
    A3,
    Bb3,
    B3,
    C4,
    Db4,
    D4,
    Eb4,
    E4,
    F4,
    Gb4,
    G4,
    Ab4,
    A4,
    Bb4,
    B4,
    C5,
    Db5,
    D5,
    Eb5,
    E5,
    F5,
    Gb5,
    G5,
    Ab5,
    A5,
    Bb5,
    B5,
    C6,
    Db6,
    D6,
    Eb6,
    E6,
    F6,
    Gb6,
    G6,
    Ab6,
    A6,
    Bb6,
    B6,
    C7,
    Db7,
    D7,
    Eb7,
    E7,
    F7,
    Gb7,
    G7,
    Ab7,
    A7,
    Bb7,
    B7,
    C8,
    Db8,
    D8,
    Eb8,
    E8,
    F8,
    Gb8,
    G8,
    Ab8,
    A8,
    Bb8,
    B8,
    C9,
    Db9,
    D9,
    Eb9,
    E9,
    F9,
    Gb9,
    G9,
    Ab9,
}

/// Whether `m` is the MIDI number of some [`Note`].
pub open spec fn in_midi_range(m: int) -> bool {
    LOWEST_MIDI <= m <= HIGHEST_MIDI
}

/// The note with MIDI number `p`, for `p` in 21..=128.
pub open spec fn note_at(p: int) -> Note {
    if p <= 21 {
        Note::A0
    } else if p == 22 {
        Note::Bb0
    } else if p == 23 {
        Note::B0
    } else if p == 24 {
        Note::C1
    } else if p == 25 {
        Note::Db1
    } else if p == 26 {
        Note::D1
    } else if p == 27 {
        Note::Eb1
    } else if p == 28 {
        Note::E1
    } else if p == 29 {
        Note::F1
    } else if p == 30 {
        Note::Gb1
    } else if p == 31 {
        Note::G1
    } else if p == 32 {
        Note::Ab1
    } else if p == 33 {
        Note::A1
    } else if p == 34 {
        Note::Bb1
    } else if p == 35 {
        Note::B1
    } else if p == 36 {
        Note::C2
    } else if p == 37 {
        Note::Db2
    } else if p == 38 {
        Note::D2
    } else if p == 39 {
        Note::Eb2
    } else if p == 40 {
        Note::E2
    } else if p == 41 {
        Note::F2
    } else if p == 42 {
        Note::Gb2
    } else if p == 43 {
        Note::G2
    } else if p == 44 {
        Note::Ab2
    } else if p == 45 {
        Note::A2
    } else if p == 46 {
        Note::Bb2
    } else if p == 47 {
        Note::B2
    } else if p == 48 {
        Note::C3
    } else if p == 49 {
        Note::Db3
    } else if p == 50 {
        Note::D3
    } else if p == 51 {
        Note::Eb3
    } else if p == 52 {
        Note::E3
    } else if p == 53 {
        Note::F3
    } else if p == 54 {
        Note::Gb3
    } else if p == 55 {
        Note::G3
    } else if p == 56 {
        Note::Ab3
    } else if p == 57 {
        Note::A3
    } else if p == 58 {
        Note::Bb3
    } else if p == 59 {
        Note::B3
    } else if p == 60 {
        Note::C4
    } else if p == 61 {
        Note::Db4
    } else if p == 62 {
        Note::D4
    } else if p == 63 {
        Note::Eb4
    } else if p == 64 {
        Note::E4
    } else if p == 65 {
        Note::F4
    } else if p == 66 {
        Note::Gb4
    } else if p == 67 {
        Note::G4
    } else if p == 68 {
        Note::Ab4
    } else if p == 69 {
        Note::A4
    } else if p == 70 {
        Note::Bb4
    } else if p == 71 {
        Note::B4
    } else if p == 72 {
        Note::C5
    } else if p == 73 {
        Note::Db5
    } else if p == 74 {
        Note::D5
    } else if p == 75 {
        Note::Eb5
    } else if p == 76 {
        Note::E5
    } else if p == 77 {
        Note::F5
    } else if p == 78 {
        Note::Gb5
    } else if p == 79 {
        Note::G5
    } else if p == 80 {
        Note::Ab5
    } else if p == 81 {
        Note::A5
    } else if p == 82 {
        Note::Bb5
    } else if p == 83 {
        Note::B5
    } else if p == 84 {
        Note::C6
    } else if p == 85 {
        Note::Db6
    } else if p == 86 {
        Note::D6
    } else if p == 87 {
        Note::Eb6
    } else if p == 88 {
        Note::E6
    } else if p == 89 {
        Note::F6
    } else if p == 90 {
        Note::Gb6
    } else if p == 91 {
        Note::G6
    } else if p == 92 {
        Note::Ab6
    } else if p == 93 {
        Note::A6
    } else if p == 94 {
        Note::Bb6
    } else if p == 95 {
        Note::B6
    } else if p == 96 {
        Note::C7
    } else if p == 97 {
        Note::Db7
    } else if p == 98 {
        Note::D7
    } else if p == 99 {
        Note::Eb7
    } else if p == 100 {
        Note::E7
    } else if p == 101 {
        Note::F7
    } else if p == 102 {
        Note::Gb7
    } else if p == 103 {
        Note::G7
    } else if p == 104 {
        Note::Ab7
    } else if p == 105 {
        Note::A7
    } else if p == 106 {
        Note::Bb7
    } else if p == 107 {
        Note::B7
    } else if p == 108 {
        Note::C8
    } else if p == 109 {
        Note::Db8
    } else if p == 110 {
        Note::D8
    } else if p == 111 {
        Note::Eb8
    } else if p == 112 {
        Note::E8
    } else if p == 113 {
        Note::F8
    } else if p == 114 {
        Note::Gb8
    } else if p == 115 {
        Note::G8
    } else if p == 116 {
        Note::Ab8
    } else if p == 117 {
        Note::A8
    } else if p == 118 {
        Note::Bb8
    } else if p == 119 {
        Note::B8
    } else if p == 120 {
        Note::C9
    } else if p == 121 {
        Note::Db9
    } else if p == 122 {
        Note::D9
    } else if p == 123 {
        Note::Eb9
    } else if p == 124 {
        Note::E9
    } else if p == 125 {
        Note::F9
    } else if p == 126 {
        Note::Gb9
    } else if p == 127 {
        Note::G9
    } else if p == 128 {
        Note::Ab9
    } else {
        Note::Ab9
    }
}

/// The note with MIDI number `p`, `None` outside 21..=128.
pub open spec fn note_from_pitch(p: int) -> Option<Note> {
    if in_midi_range(p) {
        Some(note_at(p))
    } else {
        None
    }
}

/// A note is the note of its own MIDI number, so MIDI numbers tell notes apart.
pub proof fn lemma_note_at_pitch(n: Note)
    ensures
        note_at(n.pitch()) == n,
{
    match n {
        Note::A0 => {},
        Note::Bb0 => {},
        Note::B0 => {},
        Note::C1 => {},
        Note::Db1 => {},
        Note::D1 => {},
        Note::Eb1 => {},
        Note::E1 => {},
        Note::F1 => {},
        Note::Gb1 => {},
        Note::G1 => {},
        Note::Ab1 => {},
        Note::A1 => {},
        Note::Bb1 => {},
        Note::B1 => {},
        Note::C2 => {},
        Note::Db2 => {},
        Note::D2 => {},
        Note::Eb2 => {},
        Note::E2 => {},
        Note::F2 => {},
        Note::Gb2 => {},
        Note::G2 => {},
        Note::Ab2 => {},
        Note::A2 => {},
        Note::Bb2 => {},
        Note::B2 => {},
        Note::C3 => {},
        Note::Db3 => {},
        Note::D3 => {},
        Note::Eb3 => {},
        Note::E3 => {},
        Note::F3 => {},
        Note::Gb3 => {},
        Note::G3 => {},
        Note::Ab3 => {},
        Note::A3 => {},
        Note::Bb3 => {},
        Note::B3 => {},
        Note::C4 => {},
        Note::Db4 => {},
        Note::D4 => {},
        Note::Eb4 => {},
        Note::E4 => {},
        Note::F4 => {},
        Note::Gb4 => {},
        Note::G4 => {},
        Note::Ab4 => {},
        Note::A4 => {},
        Note::Bb4 => {},
        Note::B4 => {},
        Note::C5 => {},
        Note::Db5 => {},
        Note::D5 => {},
        Note::Eb5 => {},
        Note::E5 => {},
        Note::F5 => {},
        Note::Gb5 => {},
        Note::G5 => {},
        Note::Ab5 => {},
        Note::A5 => {},
        Note::Bb5 => {},
        Note::B5 => {},
        Note::C6 => {},
        Note::Db6 => {},
        Note::D6 => {},
        Note::Eb6 => {},
        Note::E6 => {},
        Note::F6 => {},
        Note::Gb6 => {},
        Note::G6 => {},
        Note::Ab6 => {},
        Note::A6 => {},
        Note::Bb6 => {},
        Note::B6 => {},
        Note::C7 => {},
        Note::Db7 => {},
        Note::D7 => {},
        Note::Eb7 => {},
        Note::E7 => {},
        Note::F7 => {},
        Note::Gb7 => {},
        Note::G7 => {},
        Note::Ab7 => {},
        Note::A7 => {},
        Note::Bb7 => {},
        Note::B7 => {},
        Note::C8 => {},
        Note::Db8 => {},
        Note::D8 => {},
        Note::Eb8 => {},
        Note::E8 => {},
        Note::F8 => {},
        Note::Gb8 => {},
        Note::G8 => {},
        Note::Ab8 => {},
        Note::A8 => {},
        Note::Bb8 => {},
        Note::B8 => {},
        Note::C9 => {},
        Note::Db9 => {},
        Note::D9 => {},
        Note::Eb9 => {},
        Note::E9 => {},
        Note::F9 => {},
        Note::Gb9 => {},
        Note::G9 => {},
        Note::Ab9 => {},
    }
}

/// Every note's MIDI number lies in 21..=128.
pub proof fn lemma_pitch_in_range(n: Note)
    ensures
        in_midi_range(n.pitch()),
{
}

impl Note {
    /// MIDI number of the note: A0 is 21, and each variant is one semitone
    /// above the one before it.
    pub open spec fn pitch(self) -> int {
        match self {
            Note::A0 => 21,
            Note::Bb0 => 22,
            Note::B0 => 23,
            Note::C1 => 24,
            Note::Db1 => 25,
            Note::D1 => 26,
            Note::Eb1 => 27,
            Note::E1 => 28,
            Note::F1 => 29,
            Note::Gb1 => 30,
            Note::G1 => 31,
            Note::Ab1 => 32,
            Note::A1 => 33,
            Note::Bb1 => 34,
            Note::B1 => 35,
            Note::C2 => 36,
            Note::Db2 => 37,
            Note::D2 => 38,
            Note::Eb2 => 39,
            Note::E2 => 40,
            Note::F2 => 41,
            Note::Gb2 => 42,
            Note::G2 => 43,
            Note::Ab2 => 44,
            Note::A2 => 45,
            Note::Bb2 => 46,
            Note::B2 => 47,
            Note::C3 => 48,
            Note::Db3 => 49,
            Note::D3 => 50,
            Note::Eb3 => 51,
            Note::E3 => 52,
            Note::F3 => 53,
            Note::Gb3 => 54,
            Note::G3 => 55,
            Note::Ab3 => 56,
            Note::A3 => 57,
            Note::Bb3 => 58,
            Note::B3 => 59,
            Note::C4 => 60,
            Note::Db4 => 61,
            Note::D4 => 62,
            Note::Eb4 => 63,
            Note::E4 => 64,
            Note::F4 => 65,
            Note::Gb4 => 66,
            Note::G4 => 67,
            Note::Ab4 => 68,
            Note::A4 => 69,
            Note::Bb4 => 70,
            Note::B4 => 71,
            Note::C5 => 72,
            Note::Db5 => 73,
            Note::D5 => 74,
            Note::Eb5 => 75,
            Note::E5 => 76,
            Note::F5 => 77,
            Note::Gb5 => 78,
            Note::G5 => 79,
            Note::Ab5 => 80,
            Note::A5 => 81,
            Note::Bb5 => 82,
            Note::B5 => 83,
            Note::C6 => 84,
            Note::Db6 => 85,
            Note::D6 => 86,
            Note::Eb6 => 87,
            Note::E6 => 88,
            Note::F6 => 89,
            Note::Gb6 => 90,
            Note::G6 => 91,
            Note::Ab6 => 92,
            Note::A6 => 93,
            Note::Bb6 => 94,
            Note::B6 => 95,
            Note::C7 => 96,
            Note::Db7 => 97,
            Note::D7 => 98,
            Note::Eb7 => 99,
            Note::E7 => 100,
            Note::F7 => 101,
            Note::Gb7 => 102,
            Note::G7 => 103,
            Note::Ab7 => 104,
            Note::A7 => 105,
            Note::Bb7 => 106,
            Note::B7 => 107,
            Note::C8 => 108,
            Note::Db8 => 109,
            Note::D8 => 110,
            Note::Eb8 => 111,
            Note::E8 => 112,
            Note::F8 => 113,
            Note::Gb8 => 114,
            Note::G8 => 115,
            Note::Ab8 => 116,
            Note::A8 => 117,
            Note::Bb8 => 118,
            Note::B8 => 119,
            Note::C9 => 120,
            Note::Db9 => 121,
            Note::D9 => 122,
            Note::Eb9 => 123,
            Note::E9 => 124,
            Note::F9 => 125,
            Note::Gb9 => 126,
            Note::G9 => 127,
            Note::Ab9 => 128,
        }
    }

    /// Gets midi value of the note.
    pub fn midi(&self) -> (r: u8)
        ensures
            r == self.pitch(),
            in_midi_range(r as int),
    {
        match self {
            Note::A0 => 21,
            Note::Bb0 => 22,
            Note::B0 => 23,
            Note::C1 => 24,
            Note::Db1 => 25,
            Note::D1 => 26,
            Note::Eb1 => 27,
            Note::E1 => 28,
            Note::F1 => 29,
            Note::Gb1 => 30,
            Note::G1 => 31,
            Note::Ab1 => 32,
            Note::A1 => 33,
            Note::Bb1 => 34,
            Note::B1 => 35,
            Note::C2 => 36,
            Note::Db2 => 37,
            Note::D2 => 38,
            Note::Eb2 => 39,
            Note::E2 => 40,
            Note::F2 => 41,
            Note::Gb2 => 42,
            Note::G2 => 43,
            Note::Ab2 => 44,
            Note::A2 => 45,
            Note::Bb2 => 46,
            Note::B2 => 47,
            Note::C3 => 48,
            Note::Db3 => 49,
            Note::D3 => 50,
            Note::Eb3 => 51,
            Note::E3 => 52,
            Note::F3 => 53,
            Note::Gb3 => 54,
            Note::G3 => 55,
            Note::Ab3 => 56,
            Note::A3 => 57,
            Note::Bb3 => 58,
            Note::B3 => 59,
            Note::C4 => 60,
            Note::Db4 => 61,
            Note::D4 => 62,
            Note::Eb4 => 63,
            Note::E4 => 64,
            Note::F4 => 65,
            Note::Gb4 => 66,
            Note::G4 => 67,
            Note::Ab4 => 68,
            Note::A4 => 69,
            Note::Bb4 => 70,
            Note::B4 => 71,
            Note::C5 => 72,
            Note::Db5 => 73,
            Note::D5 => 74,
            Note::Eb5 => 75,
            Note::E5 => 76,
            Note::F5 => 77,
            Note::Gb5 => 78,
            Note::G5 => 79,
            Note::Ab5 => 80,
            Note::A5 => 81,
            Note::Bb5 => 82,
            Note::B5 => 83,
            Note::C6 => 84,
            Note::Db6 => 85,
            Note::D6 => 86,
            Note::Eb6 => 87,
            Note::E6 => 88,
            Note::F6 => 89,
            Note::Gb6 => 90,
            Note::G6 => 91,
            Note::Ab6 => 92,
            Note::A6 => 93,
            Note::Bb6 => 94,
            Note::B6 => 95,
            Note::C7 => 96,
            Note::Db7 => 97,
            Note::D7 => 98,
            Note::Eb7 => 99,
            Note::E7 => 100,
            Note::F7 => 101,
            Note::Gb7 => 102,
            Note::G7 => 103,
            Note::Ab7 => 104,
            Note::A7 => 105,
            Note::Bb7 => 106,
            Note::B7 => 107,
            Note::C8 => 108,
            Note::Db8 => 109,
            Note::D8 => 110,
            Note::Eb8 => 111,
            Note::E8 => 112,
            Note::F8 => 113,
            Note::Gb8 => 114,
            Note::G8 => 115,
            Note::Ab8 => 116,
            Note::A8 => 117,
            Note::Bb8 => 118,
            Note::B8 => 119,
            Note::C9 => 120,
            Note::Db9 => 121,
            Note::D9 => 122,
            Note::Eb9 => 123,
            Note::E9 => 124,
            Note::F9 => 125,
            Note::Gb9 => 126,
            Note::G9 => 127,
            Note::Ab9 => 128,
        }
    }

    /// Constructs the note from the given midi value,
    /// or `None` where no note has that value (outside 21..=128).
    pub fn from_midi_or_none(midi_value: u8) -> (r: Option<Note>)
        ensures
            r == note_from_pitch(midi_value as int),
    {
        match midi_value {
            21 => Some(Note::A0),
            22 => Some(Note::Bb0),
            23 => Some(Note::B0),
            24 => Some(Note::C1),
            25 => Some(Note::Db1),
            26 => Some(Note::D1),
            27 => Some(Note::Eb1),
            28 => Some(Note::E1),
            29 => Some(Note::F1),
            30 => Some(Note::Gb1),
            31 => Some(Note::G1),
            32 => Some(Note::Ab1),
            33 => Some(Note::A1),
            34 => Some(Note::Bb1),
            35 => Some(Note::B1),
            36 => Some(Note::C2),
            37 => Some(Note::Db2),
            38 => Some(Note::D2),
            39 => Some(Note::Eb2),
            40 => Some(Note::E2),
            41 => Some(Note::F2),
            42 => Some(Note::Gb2),
            43 => Some(Note::G2),
            44 => Some(Note::Ab2),
            45 => Some(Note::A2),
            46 => Some(Note::Bb2),
            47 => Some(Note::B2),
            48 => Some(Note::C3),
            49 => Some(Note::Db3),
            50 => Some(Note::D3),
            51 => Some(Note::Eb3),
            52 => Some(Note::E3),
            53 => Some(Note::F3),
            54 => Some(Note::Gb3),
            55 => Some(Note::G3),
            56 => Some(Note::Ab3),
            57 => Some(Note::A3),
            58 => Some(Note::Bb3),
            59 => Some(Note::B3),
            60 => Some(Note::C4),
            61 => Some(Note::Db4),
            62 => Some(Note::D4),
            63 => Some(Note::Eb4),
            64 => Some(Note::E4),
            65 => Some(Note::F4),
            66 => Some(Note::Gb4),
            67 => Some(Note::G4),
            68 => Some(Note::Ab4),
            69 => Some(Note::A4),
            70 => Some(Note::Bb4),
            71 => Some(Note::B4),
            72 => Some(Note::C5),
            73 => Some(Note::Db5),
            74 => Some(Note::D5),
            75 => Some(Note::Eb5),
            76 => Some(Note::E5),
            77 => Some(Note::F5),
            78 => Some(Note::Gb5),
            79 => Some(Note::G5),
            80 => Some(Note::Ab5),
            81 => Some(Note::A5),
            82 => Some(Note::Bb5),
            83 => Some(Note::B5),
            84 => Some(Note::C6),
            85 => Some(Note::Db6),
            86 => Some(Note::D6),
            87 => Some(Note::Eb6),
            88 => Some(Note::E6),
            89 => Some(Note::F6),
            90 => Some(Note::Gb6),
            91 => Some(Note::G6),
            92 => Some(Note::Ab6),
            93 => Some(Note::A6),
            94 => Some(Note::Bb6),
            95 => Some(Note::B6),
            96 => Some(Note::C7),
            97 => Some(Note::Db7),
            98 => Some(Note::D7),
            99 => Some(Note::Eb7),
            100 => Some(Note::E7),
            101 => Some(Note::F7),
            102 => Some(Note::Gb7),
            103 => Some(Note::G7),
            104 => Some(Note::Ab7),
            105 => Some(Note::A7),
            106 => Some(Note::Bb7),
            107 => Some(Note::B7),
            108 => Some(Note::C8),
            109 => Some(Note::Db8),
            110 => Some(Note::D8),
            111 => Some(Note::Eb8),
            112 => Some(Note::E8),
            113 => Some(Note::F8),
            114 => Some(Note::Gb8),
            115 => Some(Note::G8),
            116 => Some(Note::Ab8),
            117 => Some(Note::A8),
            118 => Some(Note::Bb8),
            119 => Some(Note::B8),
            120 => Some(Note::C9),
            121 => Some(Note::Db9),
            122 => Some(Note::D9),
            123 => Some(Note::Eb9),
            124 => Some(Note::E9),
            125 => Some(Note::F9),
            126 => Some(Note::Gb9),
            127 => Some(Note::G9),
            128 => Some(Note::Ab9),
            _ => None,
        }
    }

    /// The note `d` semitones away, or `None` where that leaves 21..=128.
    pub open spec fn shifted(self, d: int) -> Option<Note> {
        note_from_pitch(self.pitch() + d)
    }

    /// Constructs the list of pairs (note, midi value), lowest note first.
    pub fn midi_iter() -> (r: Vec<(Note, u8)>)
        ensures
            r.len() == HIGHEST_MIDI - LOWEST_MIDI + 1,
            forall|i: int|
                0 <= i < r.len() ==> {
                    &&& #[trigger] r[i].1 == LOWEST_MIDI + i
                    &&& r[i].0.pitch() == LOWEST_MIDI + i
                },
    {
        let mut r: Vec<(Note, u8)> = Vec::new();
        let mut m: u8 = LOWEST_MIDI;
        while m <= HIGHEST_MIDI
            invariant
                LOWEST_MIDI <= m <= HIGHEST_MIDI + 1,
                r.len() == m - LOWEST_MIDI,
                forall|i: int|
                    0 <= i < r.len() ==> {
                        &&& #[trigger] r[i].1 == LOWEST_MIDI + i
                        &&& r[i].0.pitch() == LOWEST_MIDI + i
                    },
            decreases HIGHEST_MIDI + 1 - m,
        {
            if let Some(n) = Note::from_midi_or_none(m) {
                r.push((n, m));
            }
            m = m + 1;
        }
        r
    }

    /// Increases note's pitch by the given number of semitones;
    /// `None` where the result would be above Ab9.
    pub fn up(&self, semitones: u8) -> (r: Option<Note>)
        ensures
            r == self.shifted(semitones as int),
    {
        let m: u16 = self.midi() as u16 + semitones as u16;
        if m > HIGHEST_MIDI as u16 {
            None
        } else {
            Note::from_midi_or_none(m as u8)
        }
    }

    /// Decreases note's pitch by the given number of semitones;
    /// `None` where the result would be below A0.
    pub fn down(&self, semitones: u8) -> (r: Option<Note>)
        ensures
            r == self.shifted(-(semitones as int)),
    {
        let m = self.midi();
        if semitones > m {
            None
        } else {
            Note::from_midi_or_none(m - semitones)
        }
    }

    /// Increases note's pitch by an octave.
    pub fn octave_up(&self) -> (r: Option<Note>)
        ensures
            r == self.shifted(OCTAVE as int),
    {
        self.up(OCTAVE)
    }

    /// Lowers note's pitch by an octave.
    pub fn octave_down(&self) -> (r: Option<Note>)
        ensures
            r == self.shifted(-(OCTAVE as int)),
    {
        self.down(OCTAVE)
    }

    /// The pitch class of the note: 0 for C up to 11 for B.
    pub fn pitch_class(&self) -> (r: u8)
        ensures
            r == self.pitch() % (OCTAVE as int),
            r < OCTAVE,
    {
        self.midi() % OCTAVE
    }

    /// The signed distance in semitones from `other` up to this note.
    pub fn semitones_from(&self, other: &Note) -> (r: i8)
        ensures
            r == self.pitch() - other.pitch(),
    {
        (self.midi() as i16 - other.midi() as i16) as i8
    }
}

/// The order of two integers.
pub open spec fn compare_int(a: int, b: int) -> core::cmp::Ordering {
    if a < b {
        core::cmp::Ordering::Less
    } else if a > b {
        core::cmp::Ordering::Greater
    } else {
        core::cmp::Ordering::Equal
    }
}

/// Compares two integers.
pub(crate) fn compare_u64(a: u64, b: u64) -> (r: core::cmp::Ordering)
    ensures
        r == compare_int(a as int, b as int),
{
    if a < b {
        core::cmp::Ordering::Less
    } else if a > b {
        core::cmp::Ordering::Greater
    } else {
        core::cmp::Ordering::Equal
    }
}

/// Notes are ordered by MIDI number, which is the order of the variants.
impl PartialOrd for Note {
    fn partial_cmp(&self, other: &Note) -> (r: Option<core::cmp::Ordering>) {
        Some(compare_u64(self.midi() as u64, other.midi() as u64))
    }
}

impl vstd::std_specs::cmp::PartialOrdSpecImpl for Note {
    open spec fn obeys_partial_cmp_spec() -> bool {
        true
    }

    open spec fn partial_cmp_spec(&self, other: &Note) -> Option<core::cmp::Ordering> {
        Some(compare_int(self.pitch(), other.pitch()))
    }
}

/// Notes compare equal exactly when they are the same note, and swapping
/// them reverses the order.
pub proof fn lemma_note_cmp_consistent(a: Note, b: Note)
    ensures
        compare_int(a.pitch(), b.pitch()) == core::cmp::Ordering::Equal <==> a == b,
        compare_int(a.pitch(), b.pitch()) == core::cmp::Ordering::Less <==> compare_int(b.pitch(), a.pitch())
            == core::cmp::Ordering::Greater,
{
    lemma_note_at_pitch(a);
    lemma_note_at_pitch(b);
}

} // verus!
