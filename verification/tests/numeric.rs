use bench_kernels::coverage::rust_ray_trace;
use bench_kernels::fibonacci::{fib, rust_fibonacci};
use bench_kernels::generator::LCG;
use bench_kernels::matrix::{matrix_fill, matrix_product, rust_matrix_multiply};
use bench_kernels::monte_carlo::{count_inside, rust_monte_carlo_pi};
use bench_kernels::sieve::{prime_sieve, rust_prime_sieve};

#[test]
fn fibonacci_of_30_is_832040() {
    assert_eq!(rust_fibonacci(), 832040);
    assert_eq!(rust_fibonacci(), rust_fibonacci());
}

#[test]
fn fib_follows_the_recurrence() {
    assert_eq!(fib(0), 0);
    assert_eq!(fib(1), 1);
    assert_eq!(fib(2), 1);
    assert_eq!(fib(10), 55);
    assert_eq!(fib(20), 6765);
    for n in 2..25 {
        assert_eq!(fib(n), fib(n - 1) + fib(n - 2));
    }
}

#[test]
fn fib_returns_small_indices_unchanged() {
    assert_eq!(fib(-1), -1);
    assert_eq!(fib(-30), -30);
    assert_eq!(fib(i32::MIN), i32::MIN);
}

#[test]
fn coverage_counts_5013_cells() {
    assert_eq!(rust_ray_trace(), 5013);
    assert_eq!(rust_ray_trace(), rust_ray_trace());
}

#[test]
fn coverage_matches_a_direct_count() {
    let mut hits = 0;
    for y in 0..100i32 {
        for x in 0..100i32 {
            if (x - 50) * (x - 50) + (y - 50) * (y - 50) < 1600 {
                hits += 1;
            }
        }
    }
    assert_eq!(rust_ray_trace(), hits);
}

#[test]
fn sieve_flags_9592_primes_up_to_100000() {
    let (flags, _) = prime_sieve(100000);
    assert_eq!(flags.len(), 100001);
    assert_eq!(flags.iter().filter(|flag| **flag).count(), 9592);
    assert!(!flags[0] && !flags[1]);
    assert!(flags[2] && flags[3] && !flags[4] && flags[5]);
    assert!(flags[99991]);
    assert!(!flags[100000]);
    assert!(!flags[99999]);
}

#[test]
fn sieve_agrees_with_trial_division() {
    let (flags, _) = prime_sieve(2000);
    for n in 0..=2000usize {
        let mut prime = n >= 2;
        let mut d = 2;
        while d * d <= n {
            if n % d == 0 {
                prime = false;
            }
            d += 1;
        }
        assert_eq!(flags[n], prime, "at {}", n);
    }
}

#[test]
fn sieve_of_small_limits() {
    let (one, _) = prime_sieve(1);
    assert_eq!(one, vec![false, false]);
    let (two, _) = prime_sieve(2);
    assert_eq!(two, vec![false, false, true]);
    let (ten, _) = prime_sieve(10);
    let primes: Vec<usize> = (0..ten.len()).filter(|n| ten[*n]).collect();
    assert_eq!(primes, vec![2, 3, 5, 7]);
    let (thirty, _) = prime_sieve(30);
    let primes: Vec<usize> = (0..thirty.len()).filter(|n| thirty[*n]).collect();
    assert_eq!(primes, vec![2, 3, 5, 7, 11, 13, 17, 19, 23, 29]);
}

#[test]
fn sieve_marks_follow_the_formula() {
    let limit: usize = 100000;
    let (flags, _) = prime_sieve(limit);
    let mut by_formula = 0;
    let mut p = 2;
    while p * p <= limit {
        if flags[p] {
            by_formula += (limit - p * p) / p + 1;
        }
        p += 1;
    }
    let mut marked = vec![true; limit + 1];
    let mut counted = 0;
    let mut q = 2;
    while q * q <= limit {
        if marked[q] {
            let mut i = q * q;
            while i <= limit {
                marked[i] = false;
                counted += 1;
                i += q;
            }
        }
        q += 1;
    }
    assert_eq!(by_formula, 193078);
    assert_eq!(counted, by_formula);
}

#[test]
fn monte_carlo_from_seed_42_matches_the_float_computation() {
    let estimate = rust_monte_carlo_pi();
    assert_eq!(estimate.total, 1000000);
    assert_eq!(estimate.inside, 785678);
    let pi = (4.0 * estimate.inside as f64) / estimate.total as f64;
    assert_eq!(pi.to_bits(), 3.142712f64.to_bits());

    let mut rng = LCG::new(42);
    let mut inside = 0u32;
    for _ in 0..1000000 {
        let x = rng.float64() as f64 / 4294967296.0;
        let y = rng.float64() as f64 / 4294967296.0;
        if x * x + y * y <= 1.0 {
            inside += 1;
        }
    }
    assert_eq!(estimate.inside, inside);
}

#[test]
fn monte_carlo_is_repeatable() {
    assert_eq!(rust_monte_carlo_pi(), rust_monte_carlo_pi());
}

#[test]
fn count_inside_on_few_points() {
    assert_eq!(count_inside(42, 0), 0);
    assert_eq!(count_inside(42, 1), 1);
    assert_eq!(count_inside(42, 3), 3);
    assert_eq!(count_inside(42, 10), 7);
    assert_eq!(count_inside(42, 1000), 773);
    assert_eq!(count_inside(7, 1000), 809);
}

#[test]
fn matrix_fill_draws_in_turn() {
    let (a, b) = matrix_fill(12345, 2);
    assert_eq!(a, vec![87628868, 2332836374, 3908547000, 2129828778]);
    assert_eq!(b, vec![71072467, 2726892157, 483019191, 2355140353]);
    let (none_a, none_b) = matrix_fill(12345, 0);
    assert!(none_a.is_empty() && none_b.is_empty());
}

#[test]
fn matrix_product_of_two_by_two() {
    let (a, b) = matrix_fill(12345, 2);
    let (c, _) = matrix_product(&a, &b, 2);
    assert_eq!(
        c,
        vec![
            1133032737934030790,
            5733111554229588298,
            1306538250993527598,
            15674231859614357634
        ]
    );
    let (small, _) = matrix_product(&vec![1, 2, 3, 4], &vec![5, 6, 7, 8], 2);
    assert_eq!(small, vec![19, 22, 43, 50]);
}

#[test]
fn matrix_product_of_largest_entries_does_not_overflow() {
    let a = vec![u32::MAX; 9];
    let b = vec![u32::MAX; 9];
    let (c, _) = matrix_product(&a, &b, 3);
    let entry = 3 * (u32::MAX as u128) * (u32::MAX as u128);
    assert_eq!(c, vec![entry; 9]);
}

#[test]
fn matrix_product_of_side_128() {
    let (a, b) = matrix_fill(12345, 128);
    assert_eq!(a.len(), 128 * 128);
    let (c, _) = matrix_product(&a, &b, 128);
    assert_eq!(c.len(), 128 * 128);
    assert_eq!(c[0], 597266762720122927232);
    assert_eq!(c[128 * 128 - 1], 598515888215418079616);
    let mut adds = 0u64;
    let mut entry = 0u128;
    for k in 0..128 {
        entry += a[5 * 128 + k] as u128 * b[k * 128 + 9] as u128;
        adds += 1;
    }
    assert_eq!(c[5 * 128 + 9], entry);
    assert_eq!(adds * 128 * 128, 128 * 128 * 128);
}

#[test]
fn matrix_product_agrees_with_the_float_product() {
    let size = 128;
    let (a, b) = matrix_fill(12345, size);
    let (exact, _) = matrix_product(&a, &b, size);
    let fa: Vec<f64> = a.iter().map(|n| *n as f64 / 4294967296.0).collect();
    let fb: Vec<f64> = b.iter().map(|n| *n as f64 / 4294967296.0).collect();
    for i in 0..size {
        for j in 0..size {
            let mut sum = 0.0;
            for k in 0..size {
                sum += fa[i * size + k] * fb[k * size + j];
            }
            let entry = exact[i * size + j] as f64 / 18446744073709551616.0;
            assert!((sum - entry).abs() <= 1e-12 * entry, "at {} {}", i, j);
        }
    }
}

#[test]
fn matrix_workload_returns_the_product() {
    let product = rust_matrix_multiply();
    assert_eq!(product.len(), 128 * 128);
    assert_eq!(product[0], 597266762720122927232);
    assert_eq!(product[128 * 128 - 1], 598515888215418079616);
    let (a, b) = matrix_fill(12345, 128);
    let (again, _) = matrix_product(&a, &b, 128);
    assert_eq!(product, again);
}

#[test]
fn sieve_workload_returns_the_flags() {
    let flags = rust_prime_sieve();
    assert_eq!(flags.len(), 100001);
    assert_eq!(flags.iter().filter(|flag| **flag).count(), 9592);
    assert_eq!(flags, rust_prime_sieve());
}
