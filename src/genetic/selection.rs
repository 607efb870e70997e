//! Fitness-proportionate (roulette-wheel) selection.

use crate::random::random_below;
use vstd::prelude::*;

verus! {

/// Why a selection could not be made.
#[derive(Copy, Clone, Debug, PartialEq, Eq, Structural)]
pub enum SelectionError {
    /// The population has no members.
    EmptyPopulation,
    /// There is not exactly one fitness value per member.
    LengthMismatch,
    /// All fitness values are zero, so no member can be weighted.
    ZeroTotalFitness,
}

/// Sum of the values.
pub open spec fn sum_of(s: Seq<u64>) -> int
    decreases s.len(),
{
    if s.len() == 0 {
        0
    } else {
        sum_of(s.drop_last()) + s.last()
    }
}

/// Sum of the first `i` values.
pub open spec fn prefix_sum(s: Seq<u64>, i: int) -> int {
    sum_of(s.subrange(0, i))
}

/// The member that the roulette value `v` lands on: the first `i` whose
/// running total `prefix_sum(s, i + 1)` exceeds `v`.
pub open spec fn lands_on(s: Seq<u64>, v: int, i: int) -> bool {
    &&& 0 <= i < s.len()
    &&& v < prefix_sum(s, i + 1)
    &&& forall|j: int| 0 < j <= i ==> #[trigger] prefix_sum(s, j) <= v
}

/// Some roulette value below the total lands on member `i`.
pub open spec fn can_land_on(s: Seq<u64>, i: int) -> bool {
    exists|v: int| 0 <= v < sum_of(s) && lands_on(s, v, i)
}

proof fn lemma_prefix_sum_step(s: Seq<u64>, i: int)
    requires
        0 <= i < s.len(),
    ensures
        prefix_sum(s, i + 1) == prefix_sum(s, i) + s[i],
{
    assert(s.subrange(0, i + 1).drop_last() =~= s.subrange(0, i));
}

/// Running totals never decrease.
proof fn lemma_prefix_sum_monotone(s: Seq<u64>, i: int, j: int)
    requires
        0 <= i <= j <= s.len(),
    ensures
        prefix_sum(s, i) <= prefix_sum(s, j),
    decreases j - i,
{
    if i < j {
        lemma_prefix_sum_monotone(s, i, j - 1);
        lemma_prefix_sum_step(s, j - 1);
    }
}

/// A roulette value lands on member `i` exactly when it lies in
/// `prefix_sum(s, i)..prefix_sum(s, i + 1)`, a span as wide as that
/// member's fitness: a value drawn uniformly below the total picks each
/// member with probability `s[i] / sum_of(s)`, and never one with fitness 0.
pub proof fn lemma_roulette_fair(s: Seq<u64>, v: int, i: int)
    requires
        0 <= i < s.len(),
        0 <= v,
    ensures
        lands_on(s, v, i) <==> prefix_sum(s, i) <= v < prefix_sum(s, i + 1),
        prefix_sum(s, i + 1) - prefix_sum(s, i) == s[i],
{
    lemma_prefix_sum_step(s, i);
    if lands_on(s, v, i) && i > 0 {
        assert(prefix_sum(s, i) <= v);
    }
    if prefix_sum(s, i) <= v < prefix_sum(s, i + 1) {
        assert forall|j: int| 0 < j <= i implies #[trigger] prefix_sum(s, j) <= v by {
            lemma_prefix_sum_monotone(s, j, i);
        }
    }
}

/// Only a member with positive fitness can be landed on.
pub proof fn lemma_landed_member_has_fitness(s: Seq<u64>, i: int)
    requires
        0 <= i < s.len(),
        can_land_on(s, i),
    ensures
        s[i] > 0,
{
    let v = choose|v: int| 0 <= v < sum_of(s) && lands_on(s, v, i);
    lemma_roulette_fair(s, v, i);
}

/// Generates the running totals of the fitness values:
/// `r[i] == prefix_sum(values, i + 1)`.
pub fn fitness_sums(fitness_values: &Vec<u64>) -> (r: Vec<u128>)
    ensures
        r.len() == fitness_values.len(),
        forall|i: int| 0 <= i < r.len() ==> #[trigger] r[i] == prefix_sum(fitness_values@, i + 1),
{
    let mut r: Vec<u128> = Vec::new();
    let mut acc: u128 = 0;
    let mut i: usize = 0;
    while i < fitness_values.len()
        invariant
            i <= fitness_values.len(),
            r.len() == i,
            acc == prefix_sum(fitness_values@, i as int),
            acc <= i * 0xffff_ffff_ffff_ffff,
            forall|j: int| 0 <= j < r.len() ==> #[trigger] r[j] == prefix_sum(fitness_values@, j + 1),
        decreases fitness_values.len() - i,
    {
        proof {
            lemma_prefix_sum_step(fitness_values@, i as int);
            assert(i * 0xffff_ffff_ffff_ffff + 0xffff_ffff_ffff_ffff == (i + 1) * 0xffff_ffff_ffff_ffff)
                by (nonlinear_arith);
            assert((i + 1) * 0xffff_ffff_ffff_ffff <= 0x1_0000_0000_0000_0000 * 0xffff_ffff_ffff_ffff)
                by (nonlinear_arith)
                requires
                    i < 0xffff_ffff_ffff_ffff,
            ;
        }
        acc = acc + fitness_values[i] as u128;
        r.push(acc);
        i = i + 1;
    }
    r
}

/// Picks the member that the roulette value lands on: the first whose
/// running total exceeds it.
pub fn roulette_index(fitness_values: &Vec<u64>, sums: &Vec<u128>, roulette_value: u128) -> (r: usize)
    requires
        sums.len() == fitness_values.len(),
        forall|i: int| 0 <= i < sums.len() ==> #[trigger] sums[i] == prefix_sum(fitness_values@, i + 1),
        roulette_value < sum_of(fitness_values@),
    ensures
        lands_on(fitness_values@, roulette_value as int, r as int),
        fitness_values[r as int] > 0,
{
    let ghost s = fitness_values@;
    assert(s.subrange(0, s.len() as int) =~= s);
    let mut i: usize = 0;
    while i < sums.len()
        invariant
            sums.len() == s.len(),
            s == fitness_values@,
            forall|j: int| 0 <= j < sums.len() ==> #[trigger] sums[j] == prefix_sum(s, j + 1),
            roulette_value < prefix_sum(s, s.len() as int),
            forall|j: int| 0 < j <= i ==> #[trigger] prefix_sum(s, j) <= roulette_value,
            i <= sums.len(),
        decreases sums.len() - i,
    {
        if sums[i] > roulette_value {
            proof {
                lemma_prefix_sum_step(s, i as int);

            }
            return i;
        }
        i = i + 1;
    }
    proof {
        assert(prefix_sum(s, s.len() as int) <= roulette_value);
    }
    0
}

/// Draws `fitness_values.len()` member indices, with replacement, each
/// with probability proportional to the member's fitness.
pub fn select_indices_with_roulette(rng: &mut rand::rngs::StdRng, fitness_values: &Vec<u64>) -> (r:
    Result<Vec<usize>, SelectionError>)
    ensures
        fitness_values.len() == 0 <==> r == Err::<Vec<usize>, SelectionError>(
            SelectionError::EmptyPopulation,
        ),
        fitness_values.len() > 0 && sum_of(fitness_values@) == 0 <==> r == Err::<
            Vec<usize>,
            SelectionError,
        >(SelectionError::ZeroTotalFitness),
        r is Ok ==> fitness_values.len() > 0 && sum_of(fitness_values@) > 0,
        r != Err::<Vec<usize>, SelectionError>(SelectionError::LengthMismatch),
        r matches Ok(idx) ==> idx.len() == fitness_values.len() && forall|k: int|
            0 <= k < idx.len() ==> #[trigger] can_land_on(fitness_values@, idx[k] as int),
{
    let n = fitness_values.len();
    if n == 0 {
        return Err(SelectionError::EmptyPopulation);
    }
    let sums = fitness_sums(fitness_values);
    let total = sums[n - 1];
    assert(fitness_values@.subrange(0, n as int) =~= fitness_values@);
    if total == 0 {
        return Err(SelectionError::ZeroTotalFitness);
    }
    let mut idx: Vec<usize> = Vec::new();
    let mut k: usize = 0;
    while k < n
        invariant
            n == fitness_values.len(),
            sums.len() == n,
            forall|i: int| 0 <= i < sums.len() ==> #[trigger] sums[i] == prefix_sum(fitness_values@, i + 1),
            total == sum_of(fitness_values@),
            total > 0,
            idx.len() == k,
            k <= n,
            forall|j: int| 0 <= j < idx.len() ==> #[trigger] can_land_on(fitness_values@, idx[j] as int),
        decreases n - k,
    {
        let v = random_below(rng, total);
        let i = roulette_index(fitness_values, &sums, v);
        idx.push(i);
        assert(lands_on(fitness_values@, v as int, i as int));
        assert(can_land_on(fitness_values@, idx[k as int] as int));
        k = k + 1;
    }
    Ok(idx)
}

/// `x` is a clone of a member that some roulette value lands on.
pub open spec fn copies_selectable<T: Clone>(population: Seq<T>, fitness_values: Seq<u64>, x: T) -> bool {
    exists|j: int| can_land_on(fitness_values, j) && cloned(population[j], x)
}

/// Performs the selection of members with the roulette algorithm: as many
/// draws as there are members, with replacement, each member drawn with
/// probability proportional to its fitness. Fails when the population is
/// empty, when the fitness values do not pair up with the members, or when
/// all fitness values are zero.
pub fn select_from_population_with_roulette<T: Clone>(
    rng: &mut rand::rngs::StdRng,
    population: &Vec<T>,
    fitness_values: Vec<u64>,
) -> (r: Result<Vec<T>, SelectionError>)
    ensures
        population.len() == 0 <==> r == Err::<Vec<T>, SelectionError>(SelectionError::EmptyPopulation),
        population.len() > 0 && population.len() != fitness_values.len() <==> r == Err::<
            Vec<T>,
            SelectionError,
        >(SelectionError::LengthMismatch),
        population.len() > 0 && population.len() == fitness_values.len() && sum_of(fitness_values@)
            == 0 <==> r == Err::<Vec<T>, SelectionError>(SelectionError::ZeroTotalFitness),
        r matches Ok(chosen) ==> chosen.len() == population.len() && forall|k: int|
            0 <= k < chosen.len() ==> #[trigger] copies_selectable(population@, fitness_values@, chosen[k]),
{
    if population.len() == 0 {
        return Err(SelectionError::EmptyPopulation);
    }
    if population.len() != fitness_values.len() {
        return Err(SelectionError::LengthMismatch);
    }
    let idx = match select_indices_with_roulette(rng, &fitness_values) {
        Ok(idx) => idx,
        Err(e) => {
            return Err(e);
        },
    };
    let mut chosen: Vec<T> = Vec::new();
    let mut k: usize = 0;
    while k < idx.len()
        invariant
            idx.len() == population.len() == fitness_values.len(),
            forall|j: int| 0 <= j < idx.len() ==> #[trigger] can_land_on(fitness_values@, idx[j] as int),
            chosen.len() == k,
            k <= idx.len(),
            forall|m: int|
                0 <= m < chosen.len() ==> #[trigger] copies_selectable(population@, fitness_values@, chosen[m]),
        decreases idx.len() - k,
    {
        let j = idx[k];
        assert(can_land_on(fitness_values@, j as int));
        assert(j < population.len()) by {
            let v = choose|v: int| 0 <= v < sum_of(fitness_values@) && lands_on(fitness_values@, v, j as int);
        }
        let item = population[j].clone();
        chosen.push(item);
        assert(can_land_on(fitness_values@, j as int) && cloned(population[j as int], chosen[k as int]));
        assert(copies_selectable(population@, fitness_values@, chosen[k as int]));
        k = k + 1;
    }
    Ok(chosen)
}

} // verus!
