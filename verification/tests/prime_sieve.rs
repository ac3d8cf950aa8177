use compute_core::prime_sieve::{calculate_primes_rust, count_primes, integer_sqrt};

fn is_prime_by_trial(n: u32) -> bool {
    n >= 2 && (2..n).take_while(|d| d * d <= n).all(|d| n % d != 0)
}

#[test]
fn no_primes_below_two() {
    assert_eq!(calculate_primes_rust(0).count, 0);
    assert_eq!(calculate_primes_rust(1).count, 0);
}

#[test]
fn two_is_the_first_prime() {
    assert_eq!(calculate_primes_rust(2).count, 1);
    assert_eq!(calculate_primes_rust(3).count, 2);
    assert_eq!(calculate_primes_rust(4).count, 2);
}

#[test]
fn four_primes_up_to_ten() {
    assert_eq!(calculate_primes_rust(10).count, 4);
}

#[test]
fn nine_primes_up_to_twenty_five() {
    assert_eq!(calculate_primes_rust(25).count, 9);
}

#[test]
fn counts_around_perfect_squares() {
    assert_eq!(calculate_primes_rust(8).count, 4);
    assert_eq!(calculate_primes_rust(9).count, 4);
    assert_eq!(calculate_primes_rust(24).count, 9);
    assert_eq!(calculate_primes_rust(26).count, 9);
    assert_eq!(calculate_primes_rust(48).count, 15);
    assert_eq!(calculate_primes_rust(49).count, 15);
    assert_eq!(calculate_primes_rust(120).count, 30);
    assert_eq!(calculate_primes_rust(121).count, 30);
    assert_eq!(calculate_primes_rust(168).count, 39);
    assert_eq!(calculate_primes_rust(169).count, 39);
}

#[test]
fn known_counts() {
    assert_eq!(calculate_primes_rust(100).count, 25);
    assert_eq!(calculate_primes_rust(1_000).count, 168);
    assert_eq!(calculate_primes_rust(10_000).count, 1_229);
    assert_eq!(calculate_primes_rust(1_000_000).count, 78_498);
}

#[test]
fn the_limit_is_echoed() {
    assert_eq!(calculate_primes_rust(0).limit, 0);
    assert_eq!(calculate_primes_rust(25).limit, 25);
    assert_eq!(calculate_primes_rust(65_537).limit, 65_537);
}

#[test]
fn agrees_with_trial_division() {
    let mut expected = 0usize;
    for limit in 0u32..2_000 {
        if is_prime_by_trial(limit) {
            expected += 1;
        }
        assert_eq!(count_primes(limit), expected);
    }
}

#[test]
fn count_never_decreases() {
    let mut previous = 0usize;
    for limit in 0u32..1_500 {
        let count = calculate_primes_rust(limit).count;
        assert!(previous <= count);
        previous = count;
    }
    assert!(calculate_primes_rust(10_000).count <= calculate_primes_rust(100_000).count);
}

#[test]
fn square_roots_round_down() {
    assert_eq!(integer_sqrt(0), 0);
    assert_eq!(integer_sqrt(1), 1);
    assert_eq!(integer_sqrt(2), 1);
    assert_eq!(integer_sqrt(3), 1);
    assert_eq!(integer_sqrt(4), 2);
    assert_eq!(integer_sqrt(24), 4);
    assert_eq!(integer_sqrt(25), 5);
    assert_eq!(integer_sqrt(26), 5);
    assert_eq!(integer_sqrt(65_535 * 65_535 - 1), 65_534);
    assert_eq!(integer_sqrt(65_535 * 65_535), 65_535);
    assert_eq!(integer_sqrt(u32::MAX), 65_535);
}

#[test]
fn square_roots_agree_with_floating_point() {
    for n in (0u32..200_000).chain(u32::MAX - 200_000..=u32::MAX) {
        assert_eq!(integer_sqrt(n), (n as f64).sqrt() as u32);
    }
}
