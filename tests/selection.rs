use music_generator::genetic::selection::{
    fitness_sums, roulette_index, select_from_population_with_roulette, select_indices_with_roulette,
    SelectionError,
};
use rand::rngs::StdRng;
use rand::SeedableRng;

#[test]
fn running_totals() {
    assert_eq!(fitness_sums(&vec![3, 0, 5, 2]), vec![3, 3, 8, 10]);
    assert_eq!(fitness_sums(&vec![]), Vec::<u128>::new());
}

#[test]
fn roulette_value_lands_on_first_total_above_it() {
    let values = vec![3, 0, 5, 2];
    let sums = fitness_sums(&values);
    assert_eq!(roulette_index(&values, &sums, 0), 0);
    assert_eq!(roulette_index(&values, &sums, 2), 0);
    // The member with fitness 0 is never picked.
    assert_eq!(roulette_index(&values, &sums, 3), 2);
    assert_eq!(roulette_index(&values, &sums, 7), 2);
    assert_eq!(roulette_index(&values, &sums, 8), 3);
    assert_eq!(roulette_index(&values, &sums, 9), 3);
}

#[test]
fn all_zero_fitness_fails_explicitly() {
    let mut rng = StdRng::seed_from_u64(1);
    let population = vec!["a", "b", "c"];
    assert_eq!(
        select_from_population_with_roulette(&mut rng, &population, vec![0, 0, 0]),
        Err(SelectionError::ZeroTotalFitness)
    );
}

#[test]
fn selection_errors() {
    let mut rng = StdRng::seed_from_u64(1);
    let empty: Vec<&str> = Vec::new();
    assert_eq!(
        select_from_population_with_roulette(&mut rng, &empty, vec![]),
        Err(SelectionError::EmptyPopulation)
    );
    assert_eq!(
        select_from_population_with_roulette(&mut rng, &vec!["a", "b"], vec![1]),
        Err(SelectionError::LengthMismatch)
    );
    assert_eq!(select_indices_with_roulette(&mut rng, &vec![]), Err(SelectionError::EmptyPopulation));
}

#[test]
fn selection_keeps_population_size_and_skips_zero_fitness() {
    let mut rng = StdRng::seed_from_u64(5);
    let population = vec!["a", "b", "c", "d"];
    let chosen = select_from_population_with_roulette(&mut rng, &population, vec![1, 0, 4, 0]).unwrap();
    assert_eq!(chosen.len(), 4);
    assert!(chosen.iter().all(|x| *x == "a" || *x == "c"));
}

#[test]
fn selection_frequency_follows_fitness() {
    let mut rng = StdRng::seed_from_u64(42);
    let values: Vec<u64> = vec![1, 2, 7, 0];
    let total: u64 = values.iter().sum();
    let mut counts = vec![0usize; values.len()];
    let rounds = 5000;
    for _ in 0..rounds {
        for i in select_indices_with_roulette(&mut rng, &values).unwrap() {
            counts[i] += 1;
        }
    }
    let draws = (rounds * values.len()) as f64;
    for (i, &v) in values.iter().enumerate() {
        let expected = v as f64 / total as f64;
        let seen = counts[i] as f64 / draws;
        assert!((seen - expected).abs() < 0.01, "member {i}: {seen} vs {expected}");
    }
    assert_eq!(counts[3], 0);
}
