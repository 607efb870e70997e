//! Counts of which value follows which in a set of melodies (the data of a
//! Markov chain over pitches or delays).

use crate::notes::note_data::{DeltaTime, NoteData};
use vstd::prelude::*;

verus! {

/// The number of times an event was repeated.
pub type RepeatTimes = u32;

/// Entries `(first, next, times)`: `next` followed `first` that many times.
/// Each pair `(first, next)` has one entry.
pub type AnalyzedData = Vec<(u32, u32, RepeatTimes)>;

/// Transitions between MIDI note numbers.
pub type AnalyzedNotes = AnalyzedData;

/// Transitions between delays.
pub type AnalyzedDelays = AnalyzedData;

/// The pairs of neighbours of a sequence, in order.
pub open spec fn adjacent_pairs(s: Seq<u32>) -> Seq<(u32, u32)> {
    if s.len() < 2 {
        Seq::empty()
    } else {
        Seq::new((s.len() - 1) as nat, |i: int| (s[i], s[i + 1]))
    }
}

/// The pairs of neighbours of every sequence, sequence after sequence.
pub open spec fn all_pairs(data: Seq<Seq<u32>>) -> Seq<(u32, u32)>
    decreases data.len(),
{
    if data.len() == 0 {
        Seq::empty()
    } else {
        all_pairs(data.drop_last()) + adjacent_pairs(data.last())
    }
}

/// How many times `p` occurs in `ps`.
pub open spec fn occurrences(ps: Seq<(u32, u32)>, p: (u32, u32)) -> nat
    decreases ps.len(),
{
    if ps.len() == 0 {
        0
    } else {
        occurrences(ps.drop_last(), p) + if ps.last() == p {
            1nat
        } else {
            0nat
        }
    }
}

/// The table counts the pairs: one entry for each pair that occurs, with
/// its number of occurrences, and none for the others.
pub open spec fn counts_pairs(t: Seq<(u32, u32, u32)>, ps: Seq<(u32, u32)>) -> bool {
    &&& forall|k: int|
        0 <= k < t.len() ==> (#[trigger] t[k]).2 == occurrences(ps, (t[k].0, t[k].1)) && t[k].2 > 0
    &&& forall|k: int, l: int|
        0 <= k < l < t.len() ==> ((#[trigger] t[k]).0, t[k].1) != ((#[trigger] t[l]).0, t[l].1)
    &&& forall|p: (u32, u32)|
        #[trigger] occurrences(ps, p) > 0 ==> exists|k: int| 0 <= k < t.len() && (t[k].0, t[k].1) == p
}

/// Pitches of the notes as MIDI numbers.
pub open spec fn pitches(s: Seq<NoteData>) -> Seq<u32> {
    Seq::new(s.len(), |i: int| s[i].note.pitch() as u32)
}

/// Delays of the notes.
pub open spec fn delays(s: Seq<NoteData>) -> Seq<u32> {
    Seq::new(s.len(), |i: int| s[i].delay)
}

/// Counts the pairs of neighbours, adding one pair at a time.
fn count_pairs(ps: &Vec<(u32, u32)>) -> (r: AnalyzedData)
    requires
        ps.len() <= u32::MAX,
    ensures
        counts_pairs(r@, ps@),
{
    let mut t: AnalyzedData = Vec::new();
    let mut i: usize = 0;
    while i < ps.len()
        invariant
            i <= ps.len() <= u32::MAX,
            counts_pairs(t@, ps@.subrange(0, i as int)),
            forall|k: int| 0 <= k < t.len() ==> (#[trigger] t[k]).2 <= i,
        decreases ps.len() - i,
    {
        let p = ps[i];
        let ghost before = ps@.subrange(0, i as int);
        let ghost after = ps@.subrange(0, i + 1);
        assert(after.drop_last() =~= before);
        assert(forall|q: (u32, u32)| #[trigger] occurrences(after, q) == occurrences(before, q) + if q == p {
            1nat
        } else {
            0nat
        });
        let mut k: usize = 0;
        while k < t.len() && !(t[k].0 == p.0 && t[k].1 == p.1)
            invariant
                k <= t.len(),
                forall|m: int| 0 <= m < k ==> ((#[trigger] t[m]).0, t[m].1) != p,
            decreases t.len() - k,
        {
            k = k + 1;
        }
        let ghost old_t = t@;
        if k < t.len() {
            let (a, b, c) = t[k];
            t.set(k, (a, b, c + 1));
            assert forall|m: int, l: int| 0 <= m < l < t.len() implies ((#[trigger] t[m]).0, t[m].1) != (
            (#[trigger] t[l]).0, t[l].1) by {
                assert(((old_t[m]).0, old_t[m].1) != ((old_t[l]).0, old_t[l].1));
            }
            assert forall|q: (u32, u32)| #[trigger] occurrences(after, q) > 0 implies exists|m: int|
                0 <= m < t.len() && (t[m].0, t[m].1) == q by {
                if q != p {
                    let m = choose|m: int| 0 <= m < old_t.len() && (old_t[m].0, old_t[m].1) == q;
                    assert((t[m].0, t[m].1) == q);
                } else {
                    assert((t[k as int].0, t[k as int].1) == q);
                }
            }
            assert forall|m: int| 0 <= m < t.len() implies (#[trigger] t[m]).2 == occurrences(
                after,
                (t[m].0, t[m].1),
            ) && t[m].2 > 0 by {
                if m != k {
                    assert(t[m] == old_t[m]);
                    assert((old_t[m].0, old_t[m].1) != (old_t[k as int].0, old_t[k as int].1) || m == k);
                }
            }
        } else {
            t.push((p.0, p.1, 1));
            assert forall|m: int, l: int| 0 <= m < l < t.len() implies ((#[trigger] t[m]).0, t[m].1) != (
            (#[trigger] t[l]).0, t[l].1) by {
                if l < old_t.len() {
                    assert(((old_t[m]).0, old_t[m].1) != ((old_t[l]).0, old_t[l].1));
                }
            }
            assert forall|q: (u32, u32)| #[trigger] occurrences(after, q) > 0 implies exists|m: int|
                0 <= m < t.len() && (t[m].0, t[m].1) == q by {
                if q != p {
                    let m = choose|m: int| 0 <= m < old_t.len() && (old_t[m].0, old_t[m].1) == q;
                    assert((t[m].0, t[m].1) == q);
                } else {
                    assert((t[old_t.len() as int].0, t[old_t.len() as int].1) == q);
                }
            }
            assert forall|m: int| 0 <= m < t.len() implies (#[trigger] t[m]).2 == occurrences(
                after,
                (t[m].0, t[m].1),
            ) && t[m].2 > 0 by {
                if m < old_t.len() {
                    assert(t[m] == old_t[m]);
                } else {
                    if occurrences(before, p) > 0 {
                        let j = choose|j: int| 0 <= j < old_t.len() && (old_t[j].0, old_t[j].1) == p;
                        assert(false);
                    }
                }
            }
        }
        i = i + 1;
    }
    assert(ps@.subrange(0, ps.len() as int) =~= ps@);
    t
}

/// Lists the pairs of neighbours of every sequence.
fn collect_pairs(data: &Vec<Vec<u32>>) -> (r: Vec<(u32, u32)>)
    ensures
        r@ == all_pairs(data@.map_values(|s: Vec<u32>| s@)),
{
    let ghost views = data@.map_values(|s: Vec<u32>| s@);
    let mut r: Vec<(u32, u32)> = Vec::new();
    let mut i: usize = 0;
    while i < data.len()
        invariant
            views == data@.map_values(|s: Vec<u32>| s@),
            i <= data.len(),
            r@ == all_pairs(views.subrange(0, i as int)),
        decreases data.len() - i,
    {
        let s = &data[i];
        let ghost start = r@;
        let mut j: usize = 1;
        while j < s.len()
            invariant
                1 <= j,
                j <= s.len() || s.len() == 0,
                s.len() < 2 ==> j == 1,
                r@ == start + adjacent_pairs(s@).subrange(0, (j - 1) as int),
                s.len() >= 2 ==> adjacent_pairs(s@).len() == s.len() - 1,
            decreases s.len() - j,
        {
            r.push((s[j - 1], s[j]));
            j = j + 1;
            assert(r@ =~= start + adjacent_pairs(s@).subrange(0, (j - 1) as int));
        }
        proof {
            if s.len() >= 2 {
                assert(adjacent_pairs(s@).subrange(0, (s.len() - 1) as int) =~= adjacent_pairs(s@));
            } else {
                assert(adjacent_pairs(s@) =~= Seq::<(u32, u32)>::empty());
                assert(adjacent_pairs(s@).subrange(0, 0) =~= Seq::<(u32, u32)>::empty());
                assert(r@ =~= start + adjacent_pairs(s@));
            }
            assert(views.subrange(0, i + 1).drop_last() =~= views.subrange(0, i as int));
            assert(views[i as int] == s@);
        }
        i = i + 1;
    }
    assert(views.subrange(0, data.len() as int) =~= views);
    r
}

/// Counts, over the given melodies (with at most `u32::MAX` pairs of
/// neighbours in all, so that every count fits), how often each pitch (as a MIDI number)
/// follows each other.
pub fn analyze_notes(midi_data: &Vec<Vec<NoteData>>) -> (r: AnalyzedNotes)
    requires
        all_pairs(midi_data@.map_values(|s: Vec<NoteData>| pitches(s@))).len() <= u32::MAX,
    ensures
        counts_pairs(r@, all_pairs(midi_data@.map_values(|s: Vec<NoteData>| pitches(s@)))),
{
    let mut projected: Vec<Vec<u32>> = Vec::new();
    let mut i: usize = 0;
    while i < midi_data.len()
        invariant
            i <= midi_data.len(),
            projected.len() == i,
            forall|k: int| 0 <= k < i ==> #[trigger] projected[k]@ == pitches(midi_data[k]@),
        decreases midi_data.len() - i,
    {
        let s = &midi_data[i];
        let mut p: Vec<u32> = Vec::new();
        let mut j: usize = 0;
        while j < s.len()
            invariant
                j <= s.len(),
                p.len() == j,
                forall|k: int| 0 <= k < j ==> #[trigger] p[k] == s[k].note.pitch() as u32,
            decreases s.len() - j,
        {
            p.push(s[j].note.midi() as u32);
            j = j + 1;
        }
        assert(p@ =~= pitches(s@));
        projected.push(p);
        i = i + 1;
    }
    assert(projected@.map_values(|s: Vec<u32>| s@) =~= midi_data@.map_values(|s: Vec<NoteData>| pitches(s@)));
    analyze_data(&projected)
}

/// Counts, over the given melodies (with at most `u32::MAX` pairs of
/// neighbours in all), how often each delay follows each other.
pub fn analyze_delays(midi_data: &Vec<Vec<NoteData>>) -> (r: AnalyzedDelays)
    requires
        all_pairs(midi_data@.map_values(|s: Vec<NoteData>| delays(s@))).len() <= u32::MAX,
    ensures
        counts_pairs(r@, all_pairs(midi_data@.map_values(|s: Vec<NoteData>| delays(s@)))),
{
    let mut projected: Vec<Vec<u32>> = Vec::new();
    let mut i: usize = 0;
    while i < midi_data.len()
        invariant
            i <= midi_data.len(),
            projected.len() == i,
            forall|k: int| 0 <= k < i ==> #[trigger] projected[k]@ == delays(midi_data[k]@),
        decreases midi_data.len() - i,
    {
        let s = &midi_data[i];
        let mut p: Vec<u32> = Vec::new();
        let mut j: usize = 0;
        while j < s.len()
            invariant
                j <= s.len(),
                p.len() == j,
                forall|k: int| 0 <= k < j ==> #[trigger] p[k] == s[k].delay,
            decreases s.len() - j,
        {
            p.push(s[j].delay);
            j = j + 1;
        }
        assert(p@ =~= delays(s@));
        projected.push(p);
        i = i + 1;
    }
    assert(projected@.map_values(|s: Vec<u32>| s@) =~= midi_data@.map_values(|s: Vec<NoteData>| delays(s@)));
    analyze_data(&projected)
}

/// Counts how often each value follows each other over the sequences.
fn analyze_data(data: &Vec<Vec<u32>>) -> (r: AnalyzedData)
    requires
        all_pairs(data@.map_values(|s: Vec<u32>| s@)).len() <= u32::MAX,
    ensures
        counts_pairs(r@, all_pairs(data@.map_values(|s: Vec<u32>| s@))),
{
    let ps = collect_pairs(data);
    count_pairs(&ps)
}

} // verus!
