//! The genetic search for leads: fitness, crossover, mutation, selection,
//! and the loop that drives them.

pub mod crossover;
pub mod fitness;
pub mod mutation;
pub mod selection;

use crate::genetic::crossover::{crossover, crossover_of, lemma_crossover_length_bound, valid_co_points};
use crate::genetic::fitness::{
    fitness, fitness_value, lemma_fitness_bounded, lemma_reference_scores_full, passes_gate,
    FitnessConfig, FITNESS_SCALE,
};
use crate::genetic::mutation::{mutate, RATE_SCALE};
use crate::genetic::selection::{copies_selectable, select_from_population_with_roulette};
use crate::melody_type::SynthwaveMelodyType;
use crate::midi::generator::generator::{is_random_move, lemma_random_move_keeps_timing};
use crate::midi::generator::random_from_vec;
use crate::notes::note::Note;
use crate::notes::note_data::NoteData;
use crate::random::random_ratio;
use vstd::prelude::*;

verus! {

/// Generations that one run of the search may take.
pub const MAX_GENERATIONS: usize = 100;

/// Chance, out of `PARENT_CARRY_DENOMINATOR`, that a parent is carried into
/// the next generation beside its child.
pub const PARENT_CARRY_NUMERATOR: u32 = 1;

pub const PARENT_CARRY_DENOMINATOR: u32 = 4;

/// Leads in the first generation of a run.
pub const POPULATION_SIZE: usize = 1000;

/// A population of candidate leads.
pub type LeadPopulation = Vec<Vec<NoteData>>;

/// Every lead of the population has at least one note.
pub open spec fn leads_nonempty(pop: Seq<Vec<NoteData>>) -> bool {
    forall|i: int| 0 <= i < pop.len() ==> (#[trigger] pop[i]).len() > 0
}

/// Every note of the lead lasts at least one tick.
pub open spec fn lead_wf(lead: Seq<NoteData>) -> bool {
    forall|j: int| 0 <= j < lead.len() ==> (#[trigger] lead[j]).wf()
}

/// Every note of every lead of the population lasts at least one tick.
pub open spec fn notes_wf(pop: Seq<Vec<NoteData>>) -> bool {
    forall|i: int| 0 <= i < pop.len() ==> lead_wf((#[trigger] pop[i])@)
}

/// Some lead of the pool has the notes `lead`.
pub open spec fn pool_has(pool: Seq<Vec<NoteData>>, lead: Seq<NoteData>) -> bool {
    exists|i: int| 0 <= i < pool.len() && (#[trigger] pool[i])@ == lead
}

/// `b` is `a` with some notes moved in pitch, as mutation does.
pub open spec fn is_mutation_of(scale: Seq<Note>, a: Seq<NoteData>, b: Seq<NoteData>) -> bool {
    &&& b.len() == a.len()
    &&& forall|k: int| 0 <= k < b.len() ==> #[trigger] b[k] == a[k] || is_random_move(scale, a[k], b[k])
}

/// `child` is a crossover of the parents at some usable cut points, then
/// mutated.
pub open spec fn bred_from(scale: Seq<Note>, p1: Seq<NoteData>, p2: Seq<NoteData>, child: Seq<NoteData>) -> bool {
    exists|points: Seq<usize>|
        valid_co_points(points, p1.len(), p2.len()) && #[trigger] is_mutation_of(
            scale,
            crossover_of(p1, p2, points),
            child,
        )
}

/// The children of one breeding step from the pool: the first is bred from
/// two leads of the pool, and a second, if any, is one of those two parents.
pub open spec fn children_from_pool(scale: Seq<Note>, pool: Seq<Vec<NoteData>>, children: Seq<Vec<NoteData>>) -> bool {
    exists|p1: Seq<NoteData>, p2: Seq<NoteData>|
        {
            &&& pool_has(pool, p1)
            &&& pool_has(pool, p2)
            &&& #[trigger] bred_from(scale, p1, p2, children[0]@)
            &&& children.len() == 2 ==> children[1]@ == p1 || children[1]@ == p2
        }
}

/// `lead` is a lead of the pool carried over, or a child bred from two of
/// its leads.
pub open spec fn from_pool(scale: Seq<Note>, pool: Seq<Vec<NoteData>>, lead: Seq<NoteData>) -> bool {
    ||| pool_has(pool, lead)
    ||| exists|p1: Seq<NoteData>, p2: Seq<NoteData>|
        pool_has(pool, p1) && pool_has(pool, p2) && #[trigger] bred_from(scale, p1, p2, lead)
}

/// A reordered pool has the same leads.
proof fn lemma_pool_reordered(a: Seq<Vec<NoteData>>, b: Seq<Vec<NoteData>>)
    requires
        a.to_multiset() == b.to_multiset(),
    ensures
        forall|x: Seq<NoteData>| #[trigger] pool_has(b, x) ==> pool_has(a, x),
        forall|scale: Seq<Note>, x: Seq<NoteData>| #[trigger] from_pool(scale, b, x) ==> from_pool(scale, a, x),
{
    a.to_multiset_ensures();
    b.to_multiset_ensures();
    assert forall|x: Seq<NoteData>| #[trigger] pool_has(b, x) implies pool_has(a, x) by {
        let i = choose|i: int| 0 <= i < b.len() && (#[trigger] b[i])@ == x;
        assert(b.contains(b[i]));
        assert(b.to_multiset().count(b[i]) > 0);
        assert(a.contains(b[i]));
        let k = choose|k: int| 0 <= k < a.len() && a[k] == b[i];
        assert(a[k]@ == x);
    }
    assert forall|scale: Seq<Note>, x: Seq<NoteData>| #[trigger] from_pool(scale, b, x) implies from_pool(scale, a, x) by {
        if !pool_has(b, x) {
            let (p1, p2) = choose|p1: Seq<NoteData>, p2: Seq<NoteData>|
                pool_has(b, p1) && pool_has(b, p2) && #[trigger] bred_from(scale, p1, p2, x);
            assert(pool_has(a, p1) && pool_has(a, p2));
        }
    }
}

/// Values whose largest is 0 sum to 0.
proof fn lemma_max_zero_sum_zero(s: Seq<u64>)
    requires
        seq_max(s) == 0,
    ensures
        crate::genetic::selection::sum_of(s) == 0,
    decreases s.len(),
{
    if s.len() > 0 {
        lemma_seq_max(s);
        lemma_seq_max(s.drop_last());
        assert(s[s.len() - 1] == 0);
        assert(seq_max(s.drop_last()) == 0);
        lemma_max_zero_sum_zero(s.drop_last());
    }
}

/// Notes taken from well-formed parents are well formed.
proof fn lemma_crossover_keeps_wf(p1: Seq<NoteData>, p2: Seq<NoteData>, points: Seq<usize>)
    requires
        valid_co_points(points, p1.len(), p2.len()),
        lead_wf(p1),
        lead_wf(p2),
    ensures
        lead_wf(crossover_of(p1, p2, points)),
{
    lemma_crossover_length_bound(p1, p2, points);
    let c = crossover_of(p1, p2, points);
    assert forall|j: int| 0 <= j < c.len() implies (#[trigger] c[j]).wf() by {
        assert(c.contains(c[j]));
        if p1.contains(c[j]) {
            let k = choose|k: int| 0 <= k < p1.len() && p1[k] == c[j];
            assert(p1[k].wf());
        } else {
            let k = choose|k: int| 0 <= k < p2.len() && p2[k] == c[j];
            assert(p2[k].wf());
        }
    }
}

/// Mutation keeps the lengths of notes.
proof fn lemma_mutation_keeps_wf(scale: Seq<Note>, lead: Seq<NoteData>, r: Seq<NoteData>)
    requires
        r.len() == lead.len(),
        forall|i: int| 0 <= i < r.len() ==> #[trigger] r[i] == lead[i] || is_random_move(scale, lead[i], r[i]),
        lead_wf(lead),
    ensures
        lead_wf(r),
{
    assert forall|j: int| 0 <= j < r.len() implies (#[trigger] r[j]).wf() by {
        assert(lead[j].wf());
        if r[j] != lead[j] {
            lemma_random_move_keeps_timing(scale, lead[j], r[j]);
        }
    }
}

/// The fitness of each lead of the population against the ideal lead.
pub open spec fn fitness_seq(pop: Seq<Vec<NoteData>>, ideal: Seq<NoteData>, cfg: FitnessConfig) -> Seq<u64> {
    Seq::new(pop.len(), |i: int| fitness_value(pop[i]@, ideal, cfg) as u64)
}

/// The largest value, 0 for none.
pub open spec fn seq_max(s: Seq<u64>) -> int
    decreases s.len(),
{
    if s.len() == 0 {
        0
    } else {
        let m = seq_max(s.drop_last());
        if s.last() > m {
            s.last() as int
        } else {
            m
        }
    }
}

/// Index `i` holds the largest value, and no earlier index does.
pub open spec fn is_first_max(s: Seq<u64>, i: int) -> bool {
    &&& 0 <= i < s.len()
    &&& s[i] == seq_max(s)
    &&& forall|j: int| 0 <= j < i ==> s[j] < seq_max(s)
}

/// No value exceeds the largest, and some value is the largest.
proof fn lemma_seq_max(s: Seq<u64>)
    ensures
        forall|j: int| 0 <= j < s.len() ==> s[j] <= seq_max(s),
        s.len() > 0 ==> exists|j: int| 0 <= j < s.len() && s[j] == seq_max(s),
        seq_max(s) >= 0,
    decreases s.len(),
{
    if s.len() > 0 {
        lemma_seq_max(s.drop_last());
        assert forall|j: int| 0 <= j < s.len() implies s[j] <= seq_max(s) by {
            if j < s.len() - 1 {
                assert(s.drop_last()[j] == s[j]);
            }
        }
        if s.len() == 1 {
            assert(s[0] == seq_max(s));
        } else if s.last() <= seq_max(s.drop_last()) {
            let j = choose|j: int| 0 <= j < s.drop_last().len() && s.drop_last()[j] == seq_max(s.drop_last());
            assert(s[j] == seq_max(s));
        } else {
            assert(s[s.len() - 1] == seq_max(s));
        }
    }
}

/// A reordering of a population keeps its size, and the first lead of it
/// has notes when all leads of the original do.
proof fn lemma_shuffle_keeps_leads(a: Seq<Vec<NoteData>>, b: Seq<Vec<NoteData>>)
    requires
        a.to_multiset() == b.to_multiset(),
        leads_nonempty(a),
    ensures
        leads_nonempty(b),
        notes_wf(a) ==> notes_wf(b),
        a.len() == b.len(),
{
    a.to_multiset_ensures();
    b.to_multiset_ensures();
    assert forall|i: int| 0 <= i < b.len() implies (#[trigger] b[i]).len() > 0 && (notes_wf(a) ==> lead_wf(
        b[i]@,
    )) by {
        assert(b.contains(b[i]));
        assert(b.to_multiset().count(b[i]) > 0);
        assert(a.to_multiset().count(b[i]) > 0);
        assert(a.contains(b[i]));
        let k = choose|k: int| 0 <= k < a.len() && a[k] == b[i];
    }
}

/// A seed population that holds a copy of the reference lead (one that
/// keeps the structural rules) has the largest possible fitness,
/// `FITNESS_SCALE`; so for any target up to that, [`evolve`] stops before
/// the first generation and returns the first lead that scores it. Where no
/// earlier lead scores it, that lead is the copy itself.
pub proof fn lemma_reference_in_seed_reaches_target(
    seed: Seq<Vec<NoteData>>,
    reference: Seq<NoteData>,
    cfg: FitnessConfig,
    j: int,
)
    requires
        cfg.wf(),
        0 <= j < seed.len(),
        seed[j]@ == reference,
        reference.len() > 0,
        passes_gate(reference),
    ensures
        seq_max(fitness_seq(seed, reference, cfg)) == FITNESS_SCALE,
        (forall|k: int| 0 <= k < j ==> fitness_value(#[trigger] seed[k]@, reference, cfg) < FITNESS_SCALE)
            ==> is_first_max(fitness_seq(seed, reference, cfg), j),
{
    let s = fitness_seq(seed, reference, cfg);
    lemma_reference_scores_full(reference, cfg);
    lemma_seq_max(s);
    assert(s[j] == FITNESS_SCALE);
    let k = choose|k: int| 0 <= k < s.len() && s[k] == seq_max(s);
    lemma_fitness_bounded(seed[k]@, reference, cfg);
    if forall|k: int| 0 <= k < j ==> fitness_value(#[trigger] seed[k]@, reference, cfg) < FITNESS_SCALE {
        assert forall|m: int| 0 <= m < j implies s[m] < seq_max(s) by {
            assert(fitness_value(seed[m]@, reference, cfg) < FITNESS_SCALE);
            lemma_fitness_bounded(seed[m]@, reference, cfg);
        }
    }
}

/// Calculates fitness values for the given population against the ideal lead.
fn next_fitness(cfg: FitnessConfig, population: &LeadPopulation, ideal_lead: &Vec<NoteData>) -> (r: Vec<u64>)
    requires
        cfg.wf(),
    ensures
        r@ == fitness_seq(population@, ideal_lead@, cfg),
{
    let mut r: Vec<u64> = Vec::new();
    let mut i: usize = 0;
    while i < population.len()
        invariant
            cfg.wf(),
            i <= population.len(),
            r.len() == i,
            forall|j: int| 0 <= j < i ==> #[trigger] r[j] == fitness_value(population[j]@, ideal_lead@, cfg),
        decreases population.len() - i,
    {
        let f = fitness(cfg, &population[i], ideal_lead);
        r.push(f);
        i = i + 1;
    }
    assert(r@ =~= fitness_seq(population@, ideal_lead@, cfg));
    r
}

/// Calculates the maximum of the fitness values, 0 for an empty list.
fn max_fitness(fitness_values: &Vec<u64>) -> (r: u64)
    ensures
        r == seq_max(fitness_values@),
{
    let mut m: u64 = 0;
    let mut i: usize = 0;
    while i < fitness_values.len()
        invariant
            i <= fitness_values.len(),
            m == seq_max(fitness_values@.subrange(0, i as int)),
        decreases fitness_values.len() - i,
    {
        assert(fitness_values@.subrange(0, i + 1).drop_last() =~= fitness_values@.subrange(0, i as int));
        if fitness_values[i] > m {
            m = fitness_values[i];
        }
        i = i + 1;
    }
    assert(fitness_values@.subrange(0, fitness_values.len() as int) =~= fitness_values@);
    m
}

/// The first lead of the population with the largest fitness, where that
/// fitness reaches the target; `None` otherwise.
fn fittest(
    cfg: FitnessConfig,
    population: &LeadPopulation,
    ideal_lead: &Vec<NoteData>,
    desired_fitness: u64,
) -> (r: Option<Vec<NoteData>>)
    requires
        cfg.wf(),
    ensures
        r is Some <==> population.len() > 0 && seq_max(fitness_seq(population@, ideal_lead@, cfg))
            >= desired_fitness,
        r matches Some(lead) ==> exists|i: int|
            is_first_max(fitness_seq(population@, ideal_lead@, cfg), i) && lead@ == population[i]@,
        r matches Some(lead) ==> fitness_value(lead@, ideal_lead@, cfg) >= desired_fitness,
{
    let values = next_fitness(cfg, population, ideal_lead);
    let best = max_fitness(&values);
    let ghost s = values@;
    proof {
        lemma_seq_max(s);
    }
    if population.len() == 0 || best < desired_fitness {
        return None;
    }
    let mut i: usize = 0;
    while i < values.len()
        invariant
            cfg.wf(),
            s == values@,
            s == fitness_seq(population@, ideal_lead@, cfg),
            values.len() == population.len(),
            best == seq_max(s),
            best >= desired_fitness,
            forall|j: int| 0 <= j < s.len() ==> s[j] <= seq_max(s),
            i <= values.len(),
            forall|j: int| 0 <= j < i ==> s[j] < seq_max(s),
            exists|j: int| 0 <= j < s.len() && s[j] == seq_max(s),
        decreases values.len() - i,
    {
        if values[i] == best {
            let lead = population[i].clone();
            assert(is_first_max(s, i as int));
            assert(lead@ == population[i as int]@);
            proof {
                lemma_fitness_bounded(population[i as int]@, ideal_lead@, cfg);
            }
            return Some(lead);
        }
        i = i + 1;
    }
    None
}

/// Generates one or two leads for the next population: a child of two
/// parents drawn from the selected pool, crossed over and mutated, and with
/// a chance of one in four one of the parents unchanged. `None` when the
/// pool is empty.
fn next_child_with_mb_parent(
    rng: &mut rand::rngs::StdRng,
    selected: &mut LeadPopulation,
    scale_notes: &Vec<Note>,
    mutation_rate: u32,
) -> (r: Option<LeadPopulation>)
    requires
        mutation_rate <= RATE_SCALE,
        leads_nonempty(old(selected)@),
    ensures
        leads_nonempty(final(selected)@),
        final(selected).len() == old(selected).len(),
        r is None <==> old(selected).len() == 0,
        r matches Some(children) ==> 1 <= children.len() <= 2 && leads_nonempty(children@),
        notes_wf(old(selected)@) ==> notes_wf(final(selected)@),
        notes_wf(old(selected)@) ==> (r matches Some(children) ==> notes_wf(children@)),
        final(selected)@.to_multiset() == old(selected)@.to_multiset(),
        r matches Some(children) ==> children_from_pool(scale_notes@, old(selected)@, children@),
{
    if selected.len() == 0 {
        return None;
    }
    let ghost before = selected@;
    let parent1 = match random_from_vec(rng, selected) {
        Some(p) => p,
        None => {
            return None;
        },
    };
    proof {
        lemma_shuffle_keeps_leads(before, selected@);
        if notes_wf(before) {
            assert(lead_wf(selected[0]@));
        }
        assert(pool_has(selected@, parent1@));
        lemma_pool_reordered(before, selected@);
    }
    let ghost mid = selected@;
    let parent2 = match random_from_vec(rng, selected) {
        Some(p) => p,
        None => {
            return None;
        },
    };
    proof {
        lemma_shuffle_keeps_leads(mid, selected@);
        if notes_wf(before) {
            assert(lead_wf(selected[0]@));
        }
        assert(pool_has(selected@, parent2@));
        lemma_pool_reordered(before, selected@);
    }
    let mut population: LeadPopulation = Vec::new();
    let child = crossover(rng, parent1.clone(), parent2.clone());
    let ghost points = choose|points: Seq<usize>|
        {
            &&& valid_co_points(points, parent1.len() as nat, parent2.len() as nat)
            &&& child@ == crossover_of(parent1@, parent2@, points)
        };
    proof {
        lemma_crossover_length_bound(parent1@, parent2@, points);
        if notes_wf(before) {
            lemma_crossover_keeps_wf(parent1@, parent2@, points);
        }
    }
    let ghost crossed = child@;
    let child = mutate(rng, child, scale_notes, mutation_rate);
    proof {
        if notes_wf(before) {
            lemma_mutation_keeps_wf(scale_notes@, crossed, child@);
        }
        assert(is_mutation_of(scale_notes@, crossover_of(parent1@, parent2@, points), child@));
        assert(bred_from(scale_notes@, parent1@, parent2@, child@));
    }
    let ghost p1 = parent1@;
    let ghost p2 = parent2@;
    population.push(child);
    if random_ratio(rng, PARENT_CARRY_NUMERATOR, PARENT_CARRY_DENOMINATOR) {
        let mut parents: LeadPopulation = vec![parent1, parent2];
        let ghost both = parents@;
        assert(leads_nonempty(both));
        assert(notes_wf(before) ==> notes_wf(both));
        match random_from_vec(rng, &mut parents) {
            Some(p) => {
                proof {
                    lemma_shuffle_keeps_leads(both, parents@);
                    if notes_wf(before) {
                        assert(lead_wf(parents[0]@));
                    }
                    assert(pool_has(parents@, p@));
                    lemma_pool_reordered(both, parents@);
                    let k = choose|k: int| 0 <= k < both.len() && (#[trigger] both[k])@ == p@;
                    assert(p@ == p1 || p@ == p2);
                }
                population.push(p);
            },
            None => {},
        }
    }
    assert(notes_wf(before) ==> notes_wf(population@));
    assert(children_from_pool(scale_notes@, before, population@)) by {
        assert(bred_from(scale_notes@, p1, p2, population[0]@));
    }
    Some(population)
}

/// Generates the next population from the selected pool: children (and
/// sometimes a parent) are added until the population has its size again.
fn next_population(
    rng: &mut rand::rngs::StdRng,
    selected: &mut LeadPopulation,
    scale_notes: &Vec<Note>,
    mutation_rate: u32,
    population_size: usize,
) -> (r: LeadPopulation)
    requires
        mutation_rate <= RATE_SCALE,
        old(selected).len() > 0,
        leads_nonempty(old(selected)@),
    ensures
        r.len() == population_size,
        leads_nonempty(r@),
        notes_wf(old(selected)@) ==> notes_wf(r@),
        forall|k: int| 0 <= k < r.len() ==> from_pool(scale_notes@, old(selected)@, (#[trigger] r[k])@),
{
    let ghost pool_wf = notes_wf(selected@);
    let ghost pool = selected@;
    let mut next: LeadPopulation = Vec::new();
    while next.len() < population_size
        invariant
            mutation_rate <= RATE_SCALE,
            selected.len() > 0,
            leads_nonempty(selected@),
            next.len() <= population_size,
            leads_nonempty(next@),
            pool_wf == notes_wf(old(selected)@),
            pool_wf ==> notes_wf(selected@) && notes_wf(next@),
            pool == old(selected)@,
            selected@.to_multiset() == pool.to_multiset(),
            forall|m: int| 0 <= m < next.len() ==> from_pool(scale_notes@, pool, (#[trigger] next[m])@),
        decreases population_size - next.len(),
    {
        let ghost current = selected@;
        let children = match next_child_with_mb_parent(rng, selected, scale_notes, mutation_rate) {
            Some(c) => c,
            None => {
                return next;
            },
        };
        let ghost start = next.len();
        proof {
            lemma_pool_reordered(pool, current);
            let (p1, p2) = choose|p1: Seq<NoteData>, p2: Seq<NoteData>|
                {
                    &&& pool_has(current, p1)
                    &&& pool_has(current, p2)
                    &&& #[trigger] bred_from(scale_notes@, p1, p2, children[0]@)
                    &&& children.len() == 2 ==> children[1]@ == p1 || children[1]@ == p2
                };
            assert forall|c: int| 0 <= c < children.len() implies from_pool(scale_notes@, pool, (#[trigger] children[c])@) by {
                if c == 0 {
                    assert(from_pool(scale_notes@, current, children[0]@));
                } else {
                    assert(pool_has(current, children[1]@));
                    assert(from_pool(scale_notes@, current, children[1]@));
                }
            }
        }
        let mut k: usize = 0;
        while k < children.len() && next.len() < population_size
            invariant
                1 <= children.len() <= 2,
                leads_nonempty(children@),
                pool_wf ==> notes_wf(children@) && notes_wf(next@),
                next.len() <= population_size,
                leads_nonempty(next@),
                k <= children.len(),
                start < population_size,
                next.len() == start + k,
                forall|c: int| 0 <= c < children.len() ==> from_pool(scale_notes@, pool, (#[trigger] children[c])@),
                forall|m: int| 0 <= m < next.len() ==> from_pool(scale_notes@, pool, (#[trigger] next[m])@),
            decreases children.len() - k,
        {
            next.push(children[k].clone());
            k = k + 1;
        }
        assert(k >= 1);
    }
    next
}

/// Runs the genetic search from a seed population against a reference
/// lead. The seed is scored first; while no lead reaches the target, the
/// population is replaced by a new generation (roulette selection, then
/// crossover and mutation of drawn pairs, sometimes with a parent carried
/// over), up to `max_generations` times. The result is the first lead with
/// the largest fitness once that fitness reaches the target; `None` when
/// the seed is empty, when every lead of a generation scores 0, or when the
/// generations run out. A seed that misses the target gives `None` at once
/// when all its leads score 0 or no generation is allowed. Empty leads score
/// 0, so they are never drawn as parents.
pub fn evolve(
    rng: &mut rand::rngs::StdRng,
    cfg: FitnessConfig,
    seed_population: LeadPopulation,
    reference: &Vec<NoteData>,
    target_fitness: u64,
    mutation_rate: u32,
    scale_notes: &Vec<Note>,
    max_generations: usize,
) -> (r: Option<Vec<NoteData>>)
    requires
        cfg.wf(),
        mutation_rate <= RATE_SCALE,
    ensures
        r matches Some(lead) ==> fitness_value(lead@, reference@, cfg) >= target_fitness && (target_fitness
            > 0 ==> lead.len() > 0),
        notes_wf(seed_population@) ==> (r matches Some(lead) ==> lead_wf(lead@)),
        seed_population.len() == 0 ==> r is None,
        seed_population.len() > 0 && seq_max(
            fitness_seq(seed_population@, reference@, cfg),
        ) >= target_fitness ==> (r matches Some(lead) && exists|i: int|
            is_first_max(fitness_seq(seed_population@, reference@, cfg), i) && lead@
                == seed_population[i]@),
        seed_population.len() > 0 && seq_max(
            fitness_seq(seed_population@, reference@, cfg),
        ) < target_fitness && (max_generations == 0 || seq_max(
            fitness_seq(seed_population@, reference@, cfg),
        ) == 0) ==> r is None,
{
    let n = seed_population.len();
    if n == 0 {
        return None;
    }
    match fittest(cfg, &seed_population, reference, target_fitness) {
        Some(lead) => {
            return Some(lead);
        },
        None => {},
    }
    let ghost seed = seed_population@;
    let mut population = seed_population;
    let mut generation: usize = 0;
    while generation < max_generations
        invariant
            seed == seed_population@,
            seed.len() > 0,
            seq_max(fitness_seq(seed, reference@, cfg)) < target_fitness,
            notes_wf(seed) ==> notes_wf(population@),
            generation == 0 ==> population@ == seed,
            generation > 0 ==> seq_max(fitness_seq(seed, reference@, cfg)) > 0,
            cfg.wf(),
            mutation_rate <= RATE_SCALE,
            population.len() == n,
            n > 0,
        decreases max_generations - generation,
    {
        let values = next_fitness(cfg, &population, reference);
        proof {
            if generation == 0 && seq_max(values@) == 0 {
                lemma_max_zero_sum_zero(values@);
            }
        }
        let mut selected = match select_from_population_with_roulette(rng, &population, values) {
            Ok(chosen) => chosen,
            Err(_) => {
                return None;
            },
        };
        assert(leads_nonempty(selected@) && (notes_wf(population@) ==> notes_wf(selected@))) by {
            assert forall|k: int| 0 <= k < selected.len() implies (#[trigger] selected[k]).len() > 0 && (notes_wf(
                population@,
            ) ==> lead_wf(selected[k]@)) by {
                assert(copies_selectable(population@, values@, selected[k]));
                let j = choose|j: int|
                    crate::genetic::selection::can_land_on(values@, j) && cloned(population[j], selected[k]);
                assert(0 <= j < population.len());
                assert(selected[k]@ == population[j]@);
                crate::genetic::selection::lemma_landed_member_has_fitness(values@, j);
                lemma_fitness_bounded(population[j]@, reference@, cfg);
                assert(fitness_value(population[j]@, reference@, cfg) > 0);
            }
        }
        population = next_population(rng, &mut selected, scale_notes, mutation_rate, n);
        match fittest(cfg, &population, reference, target_fitness) {
            Some(lead) => {
                proof {
                    let i = choose|i: int|
                        is_first_max(fitness_seq(population@, reference@, cfg), i) && lead@ == population[i]@;
                    if notes_wf(seed) {
                        assert(lead_wf(population[i]@));
                    }
                }
                return Some(lead);
            },
            None => {},
        }
        generation = generation + 1;
    }
    None
}

/// Generates the first generation: 1000 eight-bar melodies of the given
/// type, key and scale; `None` where one of them could not be generated.
fn initial_population(
    rng: &mut rand::rngs::StdRng,
    key: u8,
    scale_notes: &Vec<Note>,
    melody_type: SynthwaveMelodyType,
) -> (r: Option<LeadPopulation>)
    requires
        key < 12,
    ensures
        r matches Some(pop) ==> pop.len() == POPULATION_SIZE,
{
    let mut pop: LeadPopulation = Vec::new();
    while pop.len() < POPULATION_SIZE
        invariant
            key < 12,
            pop.len() <= POPULATION_SIZE,
        decreases POPULATION_SIZE - pop.len(),
    {
        match melody_type.generate_synthwave_melody(rng, key, scale_notes) {
            Some(lead) => pop.push(lead),
            None => {
                return None;
            },
        }
    }
    Some(pop)
}

/// Attempts to generate a synthwave-style eight-bar lead in the given key
/// (a pitch class, 0 for C), on the given scale and of the given melody
/// type: one of the ideal leads is drawn as the reference, a first
/// generation of 1000 melodies is generated, and the genetic search runs
/// for at most 100 generations with the standard fitness weighting. The
/// result scores at least `desired_fitness` against one of the ideal leads;
/// `None` where there is no ideal lead or the run did not reach the target,
/// in which case the caller may try again.
pub fn try_generate_lead_with_genetic_algorithm(
    rng: &mut rand::rngs::StdRng,
    ideal_leads: &mut Vec<Vec<NoteData>>,
    key: u8,
    scale_notes: &Vec<Note>,
    melody_type: SynthwaveMelodyType,
    desired_fitness: u64,
    mutation_rate: u32,
) -> (r: Option<Vec<NoteData>>)
    requires
        key < 12,
        mutation_rate <= RATE_SCALE,
    ensures
        final(ideal_leads)@.to_multiset() == old(ideal_leads)@.to_multiset(),
        old(ideal_leads).len() == 0 ==> r is None,
        r matches Some(lead) ==> (desired_fitness > 0 ==> lead.len() > 0) && exists|i: int|
            0 <= i < old(ideal_leads).len() && fitness_value(
                lead@,
                #[trigger] old(ideal_leads)[i]@,
                FitnessConfig::standard_spec(),
            ) >= desired_fitness,
{
    let ghost before = ideal_leads@;
    let ideal_lead = match random_from_vec(rng, ideal_leads) {
        Some(l) => l,
        None => {
            return None;
        },
    };
    proof {
        before.to_multiset_ensures();
        ideal_leads@.to_multiset_ensures();
        assert(ideal_leads@.contains(ideal_leads[0]));
        assert(ideal_leads@.to_multiset().count(ideal_leads[0]) > 0);
        assert(before.contains(ideal_leads[0]));
    }
    let population = match initial_population(rng, key, scale_notes, melody_type) {
        Some(p) => p,
        None => {
            return None;
        },
    };
    let cfg = FitnessConfig::standard();
    evolve(rng, cfg, population, &ideal_lead, desired_fitness, mutation_rate, scale_notes, MAX_GENERATIONS)
}

} // verus!
