//! Two-note arpeggio figures built around a tonic.

use crate::notes::note::Note;
use crate::notes::note_data::NoteData;
use crate::random::random_below;
use vstd::prelude::*;

verus! {

/// How the two notes of an arpeggio move: the first word is the first note,
/// the second word the second (the tonic, or the closest scale note above
/// or below it).
#[derive(Copy, Clone, PartialEq, Eq, Structural, Debug)]
pub enum ArpeggioTypes {
    SameSame,
    SameUp,
    SameDown,
    UpSame,
    UpUp,
    DownSame,
    DownDown,
}

/// `n` is the scale note closest to pitch `p` above it (`is_up`) or below it.
pub open spec fn is_closest_beyond(scale: Seq<Note>, p: int, is_up: bool, n: Note) -> bool {
    &&& scale.contains(n)
    &&& if is_up {
        n.pitch() > p
    } else {
        n.pitch() < p
    }
    &&& forall|j: int|
        0 <= j < scale.len() ==> (if is_up {
            #[trigger] scale[j].pitch() > p ==> n.pitch() <= scale[j].pitch()
        } else {
            scale[j].pitch() < p ==> n.pitch() >= scale[j].pitch()
        })
}

/// Some scale note lies above (`is_up`) or below pitch `p`.
pub open spec fn has_note_beyond(scale: Seq<Note>, p: int, is_up: bool) -> bool {
    exists|j: int| 0 <= j < scale.len() && if is_up {
        #[trigger] scale[j].pitch() > p
    } else {
        scale[j].pitch() < p
    }
}

/// The two notes that the figure makes of a tonic and the closest scale
/// note `second` in its direction.
pub open spec fn figure(tonic: NoteData, second: NoteData, is_tonic_required: bool, is_tonic_first: bool) -> Seq<NoteData> {
    if !is_tonic_required {
        seq![second, second]
    } else if is_tonic_first {
        seq![tonic, second]
    } else {
        seq![second, tonic]
    }
}

/// Whether the figure holds the tonic, whether the tonic comes first, and
/// whether the other note lies above it.
pub open spec fn figure_params(t: ArpeggioTypes) -> (bool, bool, bool) {
    match t {
        ArpeggioTypes::SameSame => (true, true, true),
        ArpeggioTypes::SameUp => (true, true, true),
        ArpeggioTypes::SameDown => (true, true, false),
        ArpeggioTypes::UpSame => (true, false, true),
        ArpeggioTypes::UpUp => (false, false, true),
        ArpeggioTypes::DownSame => (true, false, false),
        ArpeggioTypes::DownDown => (false, false, false),
    }
}

/// `r` is what [`notes_from_tonic`] gives for the tonic on the scale.
pub open spec fn is_figure_from(
    scale: Seq<Note>,
    tonic: NoteData,
    is_tonic_required: bool,
    is_tonic_first: bool,
    is_up: bool,
    r: Option<Vec<NoteData>>,
) -> bool {
    &&& r is Some <==> has_note_beyond(scale, tonic.note.pitch(), is_up)
    &&& r matches Some(v) ==> exists|n: Note|
        is_closest_beyond(scale, tonic.note.pitch(), is_up, n) && v@ == #[trigger] figure(
            tonic,
            tonic.with_note(n),
            is_tonic_required,
            is_tonic_first,
        )
}

impl ArpeggioTypes {
    /// Generates a random arpeggio type, each with the same chance.
    pub fn random_arp(rng: &mut rand::rngs::StdRng) -> Self {
        match random_below(rng, 7) {
            0 => ArpeggioTypes::SameSame,
            1 => ArpeggioTypes::SameUp,
            2 => ArpeggioTypes::SameDown,
            3 => ArpeggioTypes::UpSame,
            4 => ArpeggioTypes::UpUp,
            5 => ArpeggioTypes::DownSame,
            _ => ArpeggioTypes::DownDown,
        }
    }

    /// Constructs the two notes of this figure from the tonic: the closest
    /// scale notes to the tonic are taken. `None` where the scale has no note
    /// in the figure's direction.
    pub fn notes_from_tonic(&self, tonic_note: NoteData, scale_notes: &Vec<Note>) -> (r: Option<Vec<NoteData>>)
        ensures
            *self == ArpeggioTypes::SameSame ==> (r matches Some(v) && v@ == seq![tonic_note, tonic_note]),
            *self != ArpeggioTypes::SameSame ==> is_figure_from(
                scale_notes@,
                tonic_note,
                figure_params(*self).0,
                figure_params(*self).1,
                figure_params(*self).2,
                r,
            ),
    {
        match self {
            ArpeggioTypes::SameSame => Some(vec![tonic_note, tonic_note]),
            ArpeggioTypes::SameUp => notes_from_tonic(tonic_note, scale_notes, true, true, true),
            ArpeggioTypes::SameDown => notes_from_tonic(tonic_note, scale_notes, true, true, false),
            ArpeggioTypes::UpSame => notes_from_tonic(tonic_note, scale_notes, true, false, true),
            ArpeggioTypes::UpUp => notes_from_tonic(tonic_note, scale_notes, false, false, true),
            ArpeggioTypes::DownSame => notes_from_tonic(tonic_note, scale_notes, true, false, false),
            ArpeggioTypes::DownDown => notes_from_tonic(tonic_note, scale_notes, false, false, false),
        }
    }
}

/// Gets the scale note closest to the given one above it (`is_up`) or below it.
fn get_closest_note(note: Note, scale_notes: &Vec<Note>, is_up: bool) -> (r: Option<Note>)
    ensures
        r is Some <==> has_note_beyond(scale_notes@, note.pitch(), is_up),
        r matches Some(n) ==> is_closest_beyond(scale_notes@, note.pitch(), is_up, n),
{
    let ghost s = scale_notes@;
    let ghost p = note.pitch();
    let mut best: Option<Note> = None;
    let mut i: usize = 0;
    while i < scale_notes.len()
        invariant
            s == scale_notes@,
            p == note.pitch(),
            i <= s.len(),
            best is Some <==> exists|j: int| 0 <= j < i && if is_up {
                #[trigger] s[j].pitch() > p
            } else {
                s[j].pitch() < p
            },
            best matches Some(n) ==> {
                &&& s.contains(n)
                &&& if is_up {
                    n.pitch() > p
                } else {
                    n.pitch() < p
                }
                &&& forall|j: int|
                    0 <= j < i ==> (if is_up {
                        #[trigger] s[j].pitch() > p ==> n.pitch() <= s[j].pitch()
                    } else {
                        s[j].pitch() < p ==> n.pitch() >= s[j].pitch()
                    })
            },
        decreases s.len() - i,
    {
        let nt = scale_notes[i];
        let beyond = if is_up {
            up_filter(note, nt)
        } else {
            down_filter(note, nt)
        };
        if beyond {
            let better = match best {
                None => true,
                Some(b) => if is_up {
                    nt.midi() < b.midi()
                } else {
                    nt.midi() >= b.midi()
                },
            };
            if better {
                best = Some(nt);
            }
            assert(s.contains(s[i as int]));
        }
        i = i + 1;
    }
    best
}

/// Constructs the two notes of an arpeggio from the tonic. The other note is
/// the scale note closest to the tonic above it (`is_up`) or below it. Where
/// the tonic is not required (UpUp or DownDown) the other note comes twice.
fn notes_from_tonic(
    tonic_note: NoteData,
    scale_notes: &Vec<Note>,
    is_tonic_required: bool,
    is_tonic_first: bool,
    is_up: bool,
) -> (r: Option<Vec<NoteData>>)
    ensures
        is_figure_from(scale_notes@, tonic_note, is_tonic_required, is_tonic_first, is_up, r),
{
    let second_note = match get_closest_note(tonic_note.note, scale_notes, is_up) {
        Some(n) => n,
        None => {
            return None;
        },
    };
    let second = tonic_note.clone_with_new_note(second_note);
    let v = if !is_tonic_required {
        vec![second, second]
    } else if is_tonic_first {
        vec![tonic_note, second]
    } else {
        vec![second, tonic_note]
    };
    assert(v@ =~= figure(tonic_note, tonic_note.with_note(second_note), is_tonic_required, is_tonic_first));
    Some(v)
}

/// Whether `other` is higher than the tonic.
fn up_filter(tonic: Note, other: Note) -> (r: bool)
    ensures
        r == (tonic.pitch() < other.pitch()),
{
    tonic.midi() < other.midi()
}

/// Whether `other` is lower than the tonic.
fn down_filter(tonic: Note, other: Note) -> (r: bool)
    ensures
        r == (tonic.pitch() > other.pitch()),
{
    tonic.midi() > other.midi()
}

} // verus!
