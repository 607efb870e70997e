use music_generator::genetic::crossover::{co_points_from_draws, crossover, perform_crossover};
use rand::rngs::StdRng;
use rand::SeedableRng;

#[test]
fn cut_points_two_and_five_alternate_parents() {
    let p1: Vec<u32> = (0..8).collect();
    let p2: Vec<u32> = (100..110).collect();
    let child = perform_crossover(p1.clone(), p2.clone(), &vec![2, 5]);
    let mut expected = p1[0..2].to_vec();
    expected.extend_from_slice(&p2[2..5]);
    expected.extend_from_slice(&p1[5..]);
    assert_eq!(child, expected);
}

#[test]
fn odd_number_of_cuts_ends_with_second_parent() {
    let p1: Vec<u32> = (0..6).collect();
    let p2: Vec<u32> = (100..109).collect();
    let child = perform_crossover(p1, p2, &vec![1, 3, 4]);
    assert_eq!(child, vec![0, 101, 102, 3, 104, 105, 106, 107, 108]);
}

/// Whether each item of `child` is the item of one of the parents at its place.
fn is_spliced(child: &[u32], p1: &[u32], p2: &[u32]) -> bool {
    child
        .iter()
        .enumerate()
        .all(|(i, x)| p1.get(i) == Some(x) || p2.get(i) == Some(x))
}

#[test]
fn child_length_lies_between_parents() {
    let mut rng = StdRng::seed_from_u64(11);
    let mut lengths_seen = std::collections::HashSet::new();
    for round in 0..300u32 {
        let len1 = 4 + (round % 5) as usize;
        let len2 = 4 + (round % 7) as usize;
        let p1: Vec<u32> = (0..len1 as u32).collect();
        let p2: Vec<u32> = (1000..1000 + len2 as u32).collect();
        let child = crossover(&mut rng, p1.clone(), p2.clone());
        assert!(child.len() == len1 || child.len() == len2);
        assert!(child.len() >= len1.min(len2) && child.len() <= len1.max(len2));
        assert!(is_spliced(&child, &p1, &p2));
        lengths_seen.insert(child.len() == len1);
    }
    // Both parities of cut counts occur.
    assert_eq!(lengths_seen.len(), 2);
}

#[test]
fn single_note_parents_give_a_single_note() {
    let mut rng = StdRng::seed_from_u64(3);
    for _ in 0..50 {
        let child = crossover(&mut rng, vec![1u32], vec![2u32]);
        assert_eq!(child.len(), 1);
    }
}

#[test]
fn draws_become_distinct_ascending_cut_points() {
    assert_eq!(co_points_from_draws(vec![5, 1, 5, 3, 1]), vec![1, 3, 5]);
    assert_eq!(co_points_from_draws(vec![0, 0, 0]), vec![0]);
    assert_eq!(co_points_from_draws(vec![]), Vec::<usize>::new());
}
