use prime_accelerator::fast_ops::{
    batch_process_with_progress, batch_sum_of_squares, count_primes, fast_collect,
    fast_range_sum, fast_string_join, fast_word_count, fibonacci, get_worker_info, heavy_loop,
    is_prime, square_sum, sum_of_squares,
};
use prime_accelerator::fast_ops_node;
use prime_accelerator::fast_ops::{
    range_sum_fits_u64, square_sum_fits_i64, square_sum_fits_u64, trial_division_would_overflow,
};

#[test]
fn sums_of_squares() {
    assert_eq!(sum_of_squares(0), 0);
    assert_eq!(sum_of_squares(1), 0);
    assert_eq!(sum_of_squares(4), 14);
    assert_eq!(sum_of_squares(1000), 332_833_500);
    let n: u64 = 1_000_000;
    assert_eq!(sum_of_squares(n), (n - 1) * n * (2 * n - 1) / 6);
}

#[test]
fn heavy_loop_agrees_with_sum_of_squares() {
    for n in [0u64, 1, 2, 10, 1000, 100_000] {
        assert_eq!(heavy_loop(n), sum_of_squares(n));
    }
}

#[test]
fn heavy_loop_wraps() {
    let n: u64 = 5_000_000;
    let exact: u128 = (0..n as u128).map(|i| i * i).sum();
    assert_eq!(heavy_loop(n), (exact % (1u128 << 64)) as u64);
}

#[test]
fn range_sums() {
    assert_eq!(fast_range_sum(0), 0);
    assert_eq!(fast_range_sum(5), 10);
    assert_eq!(fast_range_sum(1_000_000), 499_999_500_000);
    assert_eq!(fast_ops_node::fast_range_sum(5), 10);
    assert_eq!(fast_ops_node::fast_range_sum(-3), 0);
}

#[test]
fn primes() {
    let primes: Vec<u64> = (0..30).filter(|&x| is_prime(x)).collect();
    assert_eq!(primes, vec![2, 3, 5, 7, 11, 13, 17, 19, 23, 29]);
    assert!(is_prime(1_000_000_007));
    assert!(!is_prime(1_000_000_007 * 3));
    assert!(is_prime(4294967291));
    assert_eq!(count_primes(0), 0);
    assert_eq!(count_primes(3), 1);
    assert_eq!(count_primes(100), 25);
    assert_eq!(count_primes(100_000), 9592);
}

#[test]
fn fibonacci_numbers() {
    let first: Vec<u64> = (0..10).map(fibonacci).collect();
    assert_eq!(first, vec![0, 1, 1, 2, 3, 5, 8, 13, 21, 34]);
    assert_eq!(fibonacci(90), 2880067194370816120);
    assert_eq!(fibonacci(93), 12200160415121876738);
    assert_eq!(fibonacci(94), 1293530146158671551);
    assert_eq!(fast_ops_node::fibonacci(10), 55);
    assert_eq!(fast_ops_node::fibonacci(91), 4660046610375530309);
    assert_eq!(fast_ops_node::fibonacci(91) as u64, fibonacci(91));
}

#[test]
fn string_join_and_collect() {
    let parts = vec!["ab".to_string(), String::new(), "c".to_string(), "dé".to_string()];
    assert_eq!(fast_string_join(parts.clone()), "abcdé");
    assert_eq!(fast_ops_node::fast_string_join(parts), "abcdé");
    assert_eq!(fast_string_join(vec![]), "");
    assert_eq!(fast_collect(vec![5, -1, 10, 3, 7], 4), vec![5, 10, 7]);
    assert_eq!(fast_collect(vec![], 0), Vec::<i64>::new());
}

#[test]
fn word_counts_in_first_occurrence_order() {
    let words: Vec<String> = ["b", "a", "b", "c", "b", "a"].iter().map(|s| s.to_string()).collect();
    let counts = fast_word_count(words.clone());
    assert_eq!(
        counts,
        vec![("b".to_string(), 3), ("a".to_string(), 2), ("c".to_string(), 1)]
    );
    let node_counts = fast_ops_node::fast_word_count(words);
    assert_eq!(
        node_counts,
        vec![("b".to_string(), 3i64), ("a".to_string(), 2), ("c".to_string(), 1)]
    );
    assert!(fast_word_count(vec![]).is_empty());
}

#[test]
fn batch_sums() {
    let data: Vec<i64> = (0..200_000).collect();
    let single = sum_of_squares(200_000);
    assert_eq!(batch_sum_of_squares(data.clone(), 50_000) as u64, single);
    assert_eq!(batch_sum_of_squares(data.clone(), 7) as u64, single);
    assert_eq!(fast_ops_node::batch_sum_of_squares(data.clone()) as u64, single);
    assert_eq!(batch_process_with_progress(data.clone()) as u64, single);
    assert_eq!(batch_sum_of_squares(vec![-3, 4], 1), 25);
    assert_eq!(square_sum(&[1, -2, 3]), 14);
}

#[test]
fn node_sum_of_squares() {
    assert_eq!(fast_ops_node::sum_of_squares(4), 14);
    assert_eq!(fast_ops_node::sum_of_squares(0), 0);
    assert_eq!(fast_ops_node::sum_of_squares(-10), 0);
    assert_eq!(fast_ops_node::sum_of_squares(1_000_000) as u64, sum_of_squares(1_000_000));
}

#[test]
fn worker_info() {
    let (physical, logical) = get_worker_info();
    assert!(physical >= 1);
    assert!(logical >= 1);
    assert!(fast_ops_node::get_worker_info() >= 1);
}

#[test]
fn fit_checks() {
    let exact = |n: u128| (0..n).map(|i| i * i).sum::<u128>();
    assert!(square_sum_fits_u64(0));
    assert!(square_sum_fits_u64(3_000_000));
    assert!(exact(3_000_000) <= u64::MAX as u128);
    let mut n: u64 = 3_000_000;
    while square_sum_fits_u64(n + 1) {
        n += 1;
    }
    assert!(exact(n as u128) <= u64::MAX as u128);
    assert!(exact(n as u128 + 1) > u64::MAX as u128);
    assert!(!square_sum_fits_u64(u64::MAX));
    assert!(range_sum_fits_u64(6_074_001_000));
    assert!(!range_sum_fits_u64(6_074_001_002));
    assert!(square_sum_fits_i64(&[3_037_000_499]));
    assert!(!square_sum_fits_i64(&[3_037_000_500]));
    assert!(!square_sum_fits_i64(&[i64::MIN]));
    assert!(square_sum_fits_i64(&[]));
    assert!(!trial_division_would_overflow(97));
    assert!(!trial_division_would_overflow(18446744065119617026));
    assert!(!trial_division_would_overflow(18446744065119617027));
}

#[test]
fn node_fit_checks() {
    assert!(fast_ops_node::fibonacci_fits(91));
    assert!(!fast_ops_node::fibonacci_fits(92));
    assert!(fast_ops_node::fibonacci_fits(0));
    assert!(fast_ops_node::square_sum_fits_i64(-5));
    assert!(fast_ops_node::square_sum_fits_i64(3_000_000));
    assert!(!fast_ops_node::square_sum_fits_i64(4_000_000));
    assert!(fast_ops_node::range_sum_fits_i64(4_294_967_296));
    assert!(!fast_ops_node::range_sum_fits_i64(i64::MAX));
}
