use monte_carlo::pnl::{
    highlighted_paths, key_extremes, portfolio_return_profile, ranked_positions, sort_keys,
};
use monte_carlo::sampling::{bootstrap_indices, is_antithetic_path, path_seed, ticker_path_seed};
use rand::rngs::StdRng;
use rand::SeedableRng;

#[test]
fn path_seeds_wrap_around() {
    assert_eq!(path_seed(10, 5), 15);
    assert_eq!(path_seed(u64::MAX, 2), 1);
    assert_eq!(ticker_path_seed(10, 5, "AAPL"), 19);
    assert_eq!(ticker_path_seed(u64::MAX, 0, "AB"), 1);
}

#[test]
fn odd_paths_are_antithetic() {
    assert!(!is_antithetic_path(true, 0));
    assert!(is_antithetic_path(true, 1));
    assert!(!is_antithetic_path(true, 4));
    assert!(is_antithetic_path(true, 7));
    assert!(!is_antithetic_path(false, 7));
}

#[test]
fn bootstrap_indices_stay_in_range() {
    let mut rng = StdRng::seed_from_u64(42);
    let indices = bootstrap_indices(500, 3, &mut rng).unwrap();
    assert_eq!(indices.len(), 500);
    assert!(indices.iter().all(|&i| i < 3));
    assert!(indices.iter().any(|&i| i != indices[0]));
    assert_eq!(bootstrap_indices(10, 0, &mut rng), None);
    assert_eq!(bootstrap_indices(0, 4, &mut rng), Some(Vec::new()));
}

#[test]
fn bootstrap_indices_follow_the_seed() {
    let mut a = StdRng::seed_from_u64(7);
    let mut b = StdRng::seed_from_u64(7);
    assert_eq!(bootstrap_indices(50, 10, &mut a), bootstrap_indices(50, 10, &mut b));
}

#[test]
fn sort_keys_orders() {
    assert_eq!(sort_keys(&[3, -1, 2, -1, 0]), vec![-1, -1, 0, 2, 3]);
    assert_eq!(sort_keys(&[]), Vec::<i64>::new());
}

#[test]
fn return_profile_counts_and_tail() {
    assert!(portfolio_return_profile(&[], 0).is_none());
    let values: Vec<i64> = vec![5, -3, 0, 7, -9, 2];
    let p = portfolio_return_profile(&values, 1).unwrap();
    assert_eq!(p.sorted, vec![-9, -3, 0, 2, 5, 7]);
    assert_eq!(p.profitable, 3);
    assert_eq!(p.losing, 2);
    assert_eq!(p.var_index, 1);
    assert_eq!(p.sorted[p.var_index], -3);
    let p = portfolio_return_profile(&values, 100).unwrap();
    assert_eq!(p.var_index, 5);
    assert!(p.profitable + p.losing <= values.len());
}

#[test]
fn ranked_positions_are_stable() {
    assert_eq!(ranked_positions(&[5, 1, 5, -2, 1]), vec![3, 1, 4, 0, 2]);
    assert_eq!(ranked_positions(&[]), Vec::<usize>::new());
}

#[test]
fn highlighted_paths_pick_worst_median_best() {
    assert_eq!(highlighted_paths(&[]), None);
    assert_eq!(highlighted_paths(&[30, 10, 20, 40]), Some((1, 0, 3)));
    assert_eq!(highlighted_paths(&[7, 7, 7]), Some((0, 1, 2)));
}

#[test]
fn key_extremes_find_largest_and_smallest() {
    assert_eq!(key_extremes(&[]), None);
    assert_eq!(key_extremes(&[3, -8, 12, 0]), Some((12, -8)));
    assert_eq!(key_extremes(&[4]), Some((4, 4)));
}
