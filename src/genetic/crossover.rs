//! Crossover: a child lead spliced from two parents at random cut points.

use crate::random::random_below;
use itertools::Itertools;
use vstd::prelude::*;

verus! {

/// Most cut points that one crossover draws.
pub const MAX_CO_POINTS: u128 = 4;

/// Cut points are usable for parents of lengths `len1` and `len2` when
/// they ascend and lie below the shorter length.
pub open spec fn valid_co_points(points: Seq<usize>, len1: nat, len2: nat) -> bool {
    &&& forall|a: int, b: int| 0 <= a < b < points.len() ==> points[a] <= points[b]
    &&& forall|a: int| 0 <= a < points.len() ==> #[trigger] points[a] < len1 && points[a] < len2
}

/// Strictly ascending.
pub open spec fn strictly_ascending(s: Seq<usize>) -> bool {
    forall|a: int, b: int| 0 <= a < b < s.len() ==> s[a] < s[b]
}

/// Part `j` of the child: from the cut before it (or the start) to the cut
/// after it, taken from the first parent for even `j` and from the second
/// for odd `j`; the last part runs to the end of its parent.
pub open spec fn part<T>(p1: Seq<T>, p2: Seq<T>, points: Seq<usize>, j: int) -> Seq<T> {
    let src = if j % 2 == 0 {
        p1
    } else {
        p2
    };
    let lo = if j == 0 {
        0
    } else {
        points[j - 1] as int
    };
    let hi = if j == points.len() {
        src.len() as int
    } else {
        points[j] as int
    };
    src.subrange(lo, hi)
}

/// Parts `j..=points.len()` of the child, in order.
pub open spec fn parts_from<T>(p1: Seq<T>, p2: Seq<T>, points: Seq<usize>, j: int) -> Seq<T>
    decreases points.len() + 1 - j,
{
    if j > points.len() || j < 0 {
        Seq::empty()
    } else {
        part(p1, p2, points, j) + parts_from(p1, p2, points, j + 1)
    }
}

/// The child that the cut points give: `p1[..c1] + p2[c1..c2] + p1[c2..c3]
/// + ...`, the last part running to the end of its parent.
pub open spec fn crossover_of<T>(p1: Seq<T>, p2: Seq<T>, points: Seq<usize>) -> Seq<T> {
    parts_from(p1, p2, points, 0)
}

/// Length of the parts from `j` on: what remains of the last part's parent
/// after the cut before part `j`.
proof fn lemma_parts_from_len<T>(p1: Seq<T>, p2: Seq<T>, points: Seq<usize>, j: int)
    requires
        valid_co_points(points, p1.len(), p2.len()),
        0 <= j <= points.len(),
    ensures
        parts_from(p1, p2, points, j).len() == (if points.len() % 2 == 0 {
            p1.len() as int
        } else {
            p2.len() as int
        }) - (if j == 0 {
            0
        } else {
            points[j - 1] as int
        }),
    decreases points.len() - j,
{
    if j < points.len() {
        lemma_parts_from_len(p1, p2, points, j + 1);
        if j > 0 {
            assert(points[j - 1] <= points[j]);
        }
    } else {
        assert(parts_from(p1, p2, points, j + 1) =~= Seq::<T>::empty());
    }
}

/// Every item of the parts from `j` on is an item of one of the parents.
proof fn lemma_parts_from_items<T>(p1: Seq<T>, p2: Seq<T>, points: Seq<usize>, j: int)
    requires
        valid_co_points(points, p1.len(), p2.len()),
        0 <= j <= points.len() + 1,
    ensures
        forall|x: T| #[trigger]
            parts_from(p1, p2, points, j).contains(x) ==> p1.contains(x) || p2.contains(x),
    decreases points.len() + 1 - j,
{
    if j <= points.len() {
        lemma_parts_from_items(p1, p2, points, j + 1);
        if j > 0 && j < points.len() {
            assert(points[j - 1] <= points[j]);
        }
        let pt = part(p1, p2, points, j);
        let rest = parts_from(p1, p2, points, j + 1);
        assert forall|x: T| #[trigger] (pt + rest).contains(x) implies p1.contains(x) || p2.contains(x) by {
            let i = choose|i: int| 0 <= i < (pt + rest).len() && (pt + rest)[i] == x;
            if i < pt.len() {
                let lo = if j == 0 {
                    0
                } else {
                    points[j - 1] as int
                };
                assert(pt[i] == x);
                if j % 2 == 0 {
                    assert(p1[lo + i] == x);
                    assert(p1.contains(x));
                } else {
                    assert(p2[lo + i] == x);
                    assert(p2.contains(x));
                }
            } else {
                assert(rest[i - pt.len()] == x);
                assert(rest.contains(x));
            }
        }
    }
}

/// The child of a crossover is exactly as long as the parent that gives its
/// last part (the first parent for an even number of cut points, the second
/// for an odd one), so its length lies between the parents' lengths; and
/// each of its notes comes from one of the parents.
pub proof fn lemma_crossover_length_bound<T>(p1: Seq<T>, p2: Seq<T>, points: Seq<usize>)
    requires
        valid_co_points(points, p1.len(), p2.len()),
    ensures
        crossover_of(p1, p2, points).len() == if points.len() % 2 == 0 {
            p1.len()
        } else {
            p2.len()
        },
        p1.len() <= p2.len() ==> p1.len() <= crossover_of(p1, p2, points).len() <= p2.len(),
        p2.len() <= p1.len() ==> p2.len() <= crossover_of(p1, p2, points).len() <= p1.len(),
        forall|x: T| #[trigger]
            crossover_of(p1, p2, points).contains(x) ==> p1.contains(x) || p2.contains(x),
{
    lemma_parts_from_len(p1, p2, points, 0);
    lemma_parts_from_items(p1, p2, points, 0);
}

/// With the cut points 2 and 5 the child is `p1[0..2] + p2[2..5] + p1[5..]`.
pub proof fn lemma_crossover_two_five<T>(p1: Seq<T>, p2: Seq<T>)
    requires
        p1.len() > 5,
        p2.len() > 5,
    ensures
        crossover_of(p1, p2, seq![2usize, 5usize]) == p1.subrange(0, 2) + p2.subrange(2, 5)
            + p1.subrange(5, p1.len() as int),
{
    let points = seq![2usize, 5usize];
    assert(parts_from(p1, p2, points, 3) =~= Seq::<T>::empty());
    assert(parts_from(p1, p2, points, 2) =~= p1.subrange(5, p1.len() as int));
    assert(parts_from(p1, p2, points, 1) =~= p2.subrange(2, 5) + p1.subrange(5, p1.len() as int));
    assert(crossover_of(p1, p2, points) =~= p1.subrange(0, 2) + (p2.subrange(2, 5) + p1.subrange(
        5,
        p1.len() as int,
    )));
}

/// Relies on itertools' `Itertools::sorted`: the same items, ascending.
#[verifier::external_body]
fn sorted_points(v: Vec<usize>) -> (r: Vec<usize>)
    ensures
        r@.to_multiset() == v@.to_multiset(),
        forall|a: int, b: int| 0 <= a < b < r.len() ==> r[a] <= r[b],
{
    v.into_iter().sorted().collect()
}

/// Relies on itertools' `Itertools::dedup`: each run of equal consecutive
/// items kept once, which leaves an ascending input strictly ascending.
#[verifier::external_body]
fn dedup_points(v: Vec<usize>) -> (r: Vec<usize>)
    requires
        forall|a: int, b: int| 0 <= a < b < v.len() ==> v[a] <= v[b],
    ensures
        strictly_ascending(r@),
        r@.to_set() == v@.to_set(),
        r.len() <= v.len(),
{
    v.into_iter().dedup().collect()
}

/// Generates 1 to 4 distinct cut points, ascending, below the shorter
/// parent's length (duplicate draws leave fewer points).
fn generate_co_points(rng: &mut rand::rngs::StdRng, parent1_len: usize, parent2_len: usize) -> (r: Vec<usize>)
    requires
        parent1_len > 0,
        parent2_len > 0,
    ensures
        1 <= r.len() <= MAX_CO_POINTS,
        strictly_ascending(r@),
        valid_co_points(r@, parent1_len as nat, parent2_len as nat),
        exists|d: Seq<usize>|
            {
                &&& 1 <= d.len() <= MAX_CO_POINTS
                &&& forall|a: int| 0 <= a < d.len() ==> #[trigger] d[a] < parent1_len && d[a] < parent2_len
                &&& r@.to_set() == #[trigger] d.to_set()
            },
{
    let max_co_point = if parent1_len < parent2_len {
        parent1_len
    } else {
        parent2_len
    };
    let co_points = random_below(rng, MAX_CO_POINTS) + 1;
    let mut drawn: Vec<usize> = Vec::new();
    let mut i: u128 = 0;
    while i < co_points
        invariant
            i <= co_points <= MAX_CO_POINTS,
            drawn.len() == i,
            max_co_point > 0,
            forall|a: int| 0 <= a < drawn.len() ==> #[trigger] drawn[a] < max_co_point,
        decreases co_points - i,
    {
        let p = random_below(rng, max_co_point as u128) as usize;
        drawn.push(p);
        i = i + 1;
    }
    let ghost all = drawn@;
    let r = co_points_from_draws(drawn);
    proof {
        assert(all.contains(all[0]));
        assert(r@.to_set().contains(all[0]));
        assert forall|a: int| 0 <= a < r.len() implies #[trigger] r[a] < max_co_point by {
            assert(r@.to_set().contains(r[a]));
            assert(all.contains(r[a]));
        }
    }
    r
}

/// The cut points that a list of drawn indices gives: the distinct draws,
/// ascending.
pub fn co_points_from_draws(draws: Vec<usize>) -> (r: Vec<usize>)
    ensures
        strictly_ascending(r@),
        r@.to_set() == draws@.to_set(),
        r.len() <= draws.len(),
{
    let ghost all = draws@;
    let sorted = sorted_points(draws);
    let r = dedup_points(sorted);
    proof {
        all.to_multiset_ensures();
        sorted@.to_multiset_ensures();
        assert(sorted@.to_set() =~= all.to_set()) by {
            assert forall|x: usize| sorted@.contains(x) <==> all.contains(x) by {
                if sorted@.contains(x) {
                    assert(sorted@.to_multiset().count(x) > 0);
                }
                if all.contains(x) {
                    assert(all.to_multiset().count(x) > 0);
                }
            }
        }
    }
    r
}

/// Cuts the part from `lo` on off the parent of part `j` (the first for
/// even `j`) and cuts the other parent back to the same length.
fn take_part<T>(first: &mut Vec<T>, second: &mut Vec<T>, lo: usize, j: usize) -> (r: Vec<T>)
    requires
        lo <= old(first).len(),
        lo <= old(second).len(),
    ensures
        j % 2 == 0 ==> r@ == old(first)@.subrange(lo as int, old(first)@.len() as int),
        j % 2 == 1 ==> r@ == old(second)@.subrange(lo as int, old(second)@.len() as int),
        final(first)@ == old(first)@.subrange(0, lo as int),
        final(second)@ == old(second)@.subrange(0, lo as int),
{
    if j % 2 == 0 {
        let piece = first.split_off(lo);
        second.truncate(lo);
        piece
    } else {
        let piece = second.split_off(lo);
        first.truncate(lo);
        piece
    }
}

/// Performs crossover of two parents at the given cut points: parts are
/// taken from the first parent, then the second, alternately, and the last
/// part runs to the end of its parent (the first for an even number of
/// points, the second for an odd one).
pub fn perform_crossover<T>(parent1: Vec<T>, parent2: Vec<T>, co_points: &Vec<usize>) -> (r: Vec<T>)
    requires
        valid_co_points(co_points@, parent1.len() as nat, parent2.len() as nat),
    ensures
        r@ == crossover_of(parent1@, parent2@, co_points@),
{
    let ghost p1 = parent1@;
    let ghost p2 = parent2@;
    let ghost pts = co_points@;
    let mut first = parent1;
    let mut second = parent2;
    let k = co_points.len();
    let last_lo = if k == 0 {
        0
    } else {
        co_points[k - 1]
    };
    let mut child = take_part(&mut first, &mut second, last_lo, k);
    assert(child@ == part(p1, p2, pts, k as int));
    assert(parts_from(p1, p2, pts, k + 1) =~= Seq::<T>::empty());
    assert(child@ =~= parts_from(p1, p2, pts, k as int));
    let mut j: usize = k;
    while j > 0
        invariant
            j <= k,
            k == pts.len(),
            pts == co_points@,
            valid_co_points(pts, p1.len(), p2.len()),
            1 <= j ==> first@ == p1.subrange(0, pts[j - 1] as int) && second@ == p2.subrange(
                0,
                pts[j - 1] as int,
            ),
            child@ == parts_from(p1, p2, pts, j as int),
        decreases j,
    {
        j = j - 1;
        let lo = if j == 0 {
            0
        } else {
            co_points[j - 1]
        };
        proof {
            if j > 0 {
                assert(pts[j - 1] <= pts[j as int]);
            }
        }
        let mut piece = take_part(&mut first, &mut second, lo, j);
        assert(piece@ == part(p1, p2, pts, j as int));
        piece.append(&mut child);
        child = piece;
    }
    child
}

/// Generates a child lead from two parents by mixing them: 1 to 4 cut
/// points are drawn below the shorter parent's length, and the parts between
/// them are taken from the parents alternately. The child is as long as the
/// parent that gives its last part, so not always as long as the first.
pub fn crossover<T>(rng: &mut rand::rngs::StdRng, parent1: Vec<T>, parent2: Vec<T>) -> (r: Vec<T>)
    requires
        parent1.len() > 0,
        parent2.len() > 0,
    ensures
        exists|points: Seq<usize>|
            {
                &&& 1 <= points.len() <= MAX_CO_POINTS
                &&& strictly_ascending(points)
                &&& valid_co_points(points, parent1.len() as nat, parent2.len() as nat)
                &&& r@ == crossover_of(parent1@, parent2@, points)
            },
{
    let co_points = generate_co_points(rng, parent1.len(), parent2.len());
    perform_crossover(parent1, parent2, &co_points)
}

} // verus!
