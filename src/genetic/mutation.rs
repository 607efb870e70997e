//! Mutation: random pitch moves, note by note, that keep a lead on its scale.

use crate::midi::generator::generator::{is_random_move, randomize_note};
use crate::notes::note::Note;
use crate::notes::note_data::NoteData;
use crate::random::random_ratio;
use vstd::prelude::*;

verus! {

/// The mutation rate that stands for a probability of 1.
pub const RATE_SCALE: u32 = 1_000_000;

/// Performs the lead mutation by randomizing notes' pitches: every note,
/// the first included, is independently moved (see
/// [`randomize_note`]) with probability `mutation_rate / RATE_SCALE`, and
/// kept as it is otherwise. A moved note may land on its own pitch again.
pub fn mutate(
    rng: &mut rand::rngs::StdRng,
    lead: Vec<NoteData>,
    scale_notes: &Vec<Note>,
    mutation_rate: u32,
) -> (r: Vec<NoteData>)
    requires
        mutation_rate <= RATE_SCALE,
    ensures
        r.len() == lead.len(),
        forall|i: int|
            0 <= i < r.len() ==> #[trigger] r[i] == lead[i] || is_random_move(scale_notes@, lead[i], r[i]),
        mutation_rate == 0 ==> r@ == lead@,
        mutation_rate == RATE_SCALE ==> forall|i: int|
            0 <= i < r.len() ==> is_random_move(scale_notes@, lead[i], #[trigger] r[i]),
{
    let mut r: Vec<NoteData> = Vec::new();
    let mut i: usize = 0;
    while i < lead.len()
        invariant
            mutation_rate <= RATE_SCALE,
            r.len() == i,
            i <= lead.len(),
            forall|j: int|
                0 <= j < i ==> #[trigger] r[j] == lead[j] || is_random_move(scale_notes@, lead[j], r[j]),
            mutation_rate == 0 ==> forall|j: int| 0 <= j < i ==> #[trigger] r[j] == lead[j],
            mutation_rate == RATE_SCALE ==> forall|j: int|
                0 <= j < i ==> is_random_move(scale_notes@, lead[j], #[trigger] r[j]),
        decreases lead.len() - i,
    {
        let note = lead[i];
        if random_ratio(rng, mutation_rate, RATE_SCALE) {
            r.push(randomize_note(rng, note, scale_notes));
        } else {
            r.push(note);
        }
        i = i + 1;
    }
    proof {
        if mutation_rate == 0 {
            assert(r@ =~= lead@);
        }
    }
    r
}

} // verus!
