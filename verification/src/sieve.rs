//! The sieve of Eratosthenes.

use vstd::prelude::*;
use vstd::arithmetic::div_mod::{
    lemma_fundamental_div_mod,
    lemma_fundamental_div_mod_converse,
    lemma_mod_multiples_basic,
};

verus! {

/// Largest number that the catalogue's sieve decides.
pub const SIEVE_LIMIT: usize = 100000;

/// `d` divides `n`, for a positive `d`.
pub open spec fn divides(d: int, n: int) -> bool {
    n % d == 0
}

/// `n` is prime: at least two, and divisible by nothing between one and
/// itself.
pub open spec fn is_prime(n: int) -> bool {
    2 <= n && forall|d: int| 2 <= d < n ==> !#[trigger] divides(d, n)
}

/// No `d` from two up to `bound`, `bound` excluded, whose square is at most
/// `n`, divides `n`: what the sieve has established of an unmarked `n` when
/// its outer loop reaches `bound`.
pub open spec fn has_no_divisor_below(n: int, bound: int) -> bool {
    forall|d: int| 2 <= d < bound && d * d <= n ==> !#[trigger] divides(d, n)
}

/// `n` is still unmarked when the outer loop reaches `bound`.
pub open spec fn survives(n: int, bound: int) -> bool {
    2 <= n && has_no_divisor_below(n, bound)
}

/// Number of marks that the inner loop makes for `p`: none unless `p` is
/// prime and its square within the limit, else one for each multiple of `p`
/// from its square up to the limit.
pub open spec fn marks_of(limit: int, p: int) -> nat {
    if is_prime(p) && p * p <= limit {
        ((limit - p * p) / p + 1) as nat
    } else {
        0
    }
}

/// Number of marks made for all `p` from two up to `bound`, `bound`
/// excluded.
pub open spec fn marks_below(limit: int, bound: int) -> nat
    decreases bound,
{
    if bound <= 2 {
        0
    } else {
        marks_below(limit, bound - 1) + marks_of(limit, bound - 1)
    }
}

/// Number of marks that the whole sieve makes up to `limit`.
pub open spec fn sieve_marks(limit: int) -> nat {
    marks_below(limit, limit + 1)
}

/// While the square of `p - 1` is within the limit, the square of `p` is
/// within twice the limit, or at most nine.
proof fn lemma_square_fits(p: int, limit: int)
    by (nonlinear_arith)
    requires
        2 <= p,
        (p - 1) * (p - 1) <= limit,
    ensures
        p * p <= 2 * limit || p * p <= 9,
        p <= limit + 1,
{
}

/// A `p` whose square is within the limit lies below the limit and below
/// its own square.
proof fn lemma_root_within(p: int, limit: int)
    by (nonlinear_arith)
    requires
        2 <= p,
        p * p <= limit,
    ensures
        p < limit,
        p < p * p,
        p * p == p * (p + 0),
{
}

/// The multiple of `p` that follows `p * (p + k)`.
proof fn lemma_next_multiple(p: int, i: int, k: int)
    by (nonlinear_arith)
    requires
        i == p * (p + k),
    ensures
        i + p == p * (p + (k + 1)),
        i == p * p + k * p,
{
}

/// Between two consecutive multiples of `p` there is no other.
proof fn lemma_no_multiple_between(p: int, i: int, n: int)
    requires
        0 < p,
        divides(p, i),
        divides(p, n),
        i <= n < i + p,
    ensures
        n == i,
{
    lemma_fundamental_div_mod(i, p);
    lemma_fundamental_div_mod(n, p);
    let a = i / p;
    let b = n / p;
    assert(b <= a) by (nonlinear_arith)
        requires
            0 < p,
            p * b < p * a + p,
    ;
    assert(a <= b) by (nonlinear_arith)
        requires
            0 < p,
            p * a <= p * b,
    ;
}

/// Divisibility is transitive.
proof fn lemma_divides_transitive(d: int, p: int, n: int)
    requires
        0 < d,
        0 < p,
        divides(d, p),
        divides(p, n),
    ensures
        divides(d, n),
{
    lemma_fundamental_div_mod(p, d);
    lemma_fundamental_div_mod(n, p);
    let a = p / d;
    let b = n / p;
    assert(n == (a * b) * d) by (nonlinear_arith)
        requires
            p == d * a,
            n == p * b,
    ;
    lemma_mod_multiples_basic(a * b, d);
}

/// A composite `n` has a divisor whose square is at most `n`.
proof fn lemma_small_divisor(n: int, d: int) -> (m: int)
    requires
        2 <= d < n,
        divides(d, n),
    ensures
        2 <= m < n,
        m * m <= n,
        divides(m, n),
{
    lemma_fundamental_div_mod(n, d);
    let e = n / d;
    assert(2 <= e < n) by (nonlinear_arith)
        requires
            2 <= d < n,
            n == d * e,
    ;
    assert(n == e * d) by (nonlinear_arith)
        requires
            n == d * e,
    ;
    lemma_mod_multiples_basic(d, e);
    if d <= e {
        assert(d * d <= n) by (nonlinear_arith)
            requires
                0 <= d <= e,
                n == d * e,
        ;
        d
    } else {
        assert(e * e <= n) by (nonlinear_arith)
            requires
                0 <= e <= d,
                n == d * e,
        ;
        e
    }
}

/// Once the outer loop has passed the square root of `n`, an unmarked `n`
/// is prime and a marked one is not.
proof fn lemma_sieve_settled(n: int, bound: int)
    requires
        2 <= bound,
        n < bound * bound,
    ensures
        survives(n, bound) <==> is_prime(n),
{
    if is_prime(n) {
        assert forall|d: int| 2 <= d < bound && d * d <= n implies !#[trigger] divides(d, n) by {
            assert(d < n) by (nonlinear_arith)
                requires
                    2 <= d,
                    d * d <= n,
            ;
        }
    }
    if survives(n, bound) {
        assert forall|d: int| 2 <= d < n implies !#[trigger] divides(d, n) by {
            if divides(d, n) {
                let m = lemma_small_divisor(n, d);
                assert(m < bound) by (nonlinear_arith)
                    requires
                        0 <= m,
                        0 <= bound,
                        m * m <= n,
                        n < bound * bound,
                ;
                assert(false);
            }
        }
    }
}

/// What one round of the outer loop adds to what is established of `n`.
proof fn lemma_survives_step(n: int, p: int)
    requires
        2 <= p,
    ensures
        survives(n, p + 1) <==> survives(n, p) && !(p * p <= n && divides(p, n)),
{
    if survives(n, p) && !(p * p <= n && divides(p, n)) {
        assert forall|d: int| 2 <= d < p + 1 && d * d <= n implies !#[trigger] divides(d, n) by {
            if d == p {
            }
        }
    }
    if survives(n, p + 1) {
        assert forall|d: int| 2 <= d < p && d * d <= n implies !#[trigger] divides(d, n) by {
        }
        if p * p <= n && divides(p, n) {
            assert(false);
        }
    }
}

/// A marked `p` marks nothing new: its multiples from `p * p` on are
/// multiples of a smaller number, whose square they are not below.
proof fn lemma_composite_adds_nothing(n: int, p: int)
    requires
        2 <= p,
        !survives(p, p),
        survives(n, p),
    ensures
        !(p * p <= n && divides(p, n)),
{
    let d = choose|d: int| 2 <= d < p && d * d <= p && #[trigger] divides(d, p);
    if p * p <= n && divides(p, n) {
        lemma_divides_transitive(d, p, n);
        assert(d * d <= n) by (nonlinear_arith)
            requires
                2 <= p,
                d * d <= p,
                p * p <= n,
        ;
        assert(false);
    }
}

/// Beyond the square root of the limit nothing is marked any more.
proof fn lemma_marks_end(limit: int, p: int, bound: int)
    requires
        2 <= p <= bound,
        limit < p * p,
    ensures
        marks_below(limit, bound) == marks_below(limit, p),
    decreases bound - p,
{
    if p < bound {
        lemma_marks_end(limit, p, bound - 1);
        let q = bound - 1;
        assert(limit < q * q) by (nonlinear_arith)
            requires
                2 <= p <= q,
                limit < p * p,
        ;
    }
}

/// The inner loop, having reached `i`, has made all its marks.
proof fn lemma_marks_counted(limit: int, p: int, k: int, i: int)
    requires
        2 <= p,
        p * p <= limit,
        i == p * p + k * p,
        limit < i <= limit + p,
    ensures
        k == (limit - p * p) / p + 1,
{
    let x = limit - p * p;
    let r = x - (k - 1) * p;
    assert(0 <= r < p && x == (k - 1) * p + r) by (nonlinear_arith)
        requires
            r == x - (k - 1) * p,
            x == limit - p * p,
            i == p * p + k * p,
            limit < i <= limit + p,
    ;
    lemma_fundamental_div_mod_converse(x, p, k - 1, r);
}

/// Sieves the numbers from zero to `limit`.
///
/// Returns one flag for each, set for the primes and for nothing else, and
/// the number of marks that the inner loop made.
pub fn prime_sieve(limit: usize) -> (sieved: (Vec<bool>, Ghost<nat>))
    requires
        1 <= limit <= usize::MAX / 2,
    ensures
        sieved.0@.len() == limit + 1,
        forall|n: int| 0 <= n <= limit ==> #[trigger] sieved.0@[n] == is_prime(n),
        sieved.1@ == sieve_marks(limit as int),
{
    let mut primes: Vec<bool> = vec![true; limit + 1];
    primes.set(0, false);
    primes.set(1, false);
    let ghost mut marks: nat = 0;
    let mut p: usize = 2;
    while p * p <= limit
        invariant
            1 <= limit <= usize::MAX / 2,
            2 <= p,
            (p - 1) * (p - 1) <= limit,
            p * p <= usize::MAX,
            primes@.len() == limit + 1,
            forall|n: int| 0 <= n <= limit ==> #[trigger] primes@[n] == survives(n, p as int),
            marks == marks_below(limit as int, p as int),
        decreases limit + 1 - p,
    {
        proof {
            lemma_root_within(p as int, limit as int);
            lemma_sieve_settled(p as int, p as int);
        }
        let ghost before = primes@;
        let ghost mut k: int = 0;
        if primes[p] {
            let mut i: usize = p * p;
            while i <= limit
                invariant
                    1 <= limit <= usize::MAX / 2,
                    2 <= p < limit,
                    p * p <= limit,
                    0 <= k,
                    i == p * (p + k),
                    p * p <= i <= limit + p,
                    primes@.len() == limit + 1,
                    before.len() == limit + 1,
                    forall|n: int|
                        0 <= n <= limit ==> #[trigger] primes@[n] == (before[n] && !(p * p <= n < i
                            && divides(p as int, n))),
                decreases limit + p - i,
            {
                proof {
                    lemma_next_multiple(p as int, i as int, k);
                    lemma_mod_multiples_basic(p + k, p as int);
                    assert(p * (p + k) == (p + k) * p) by (nonlinear_arith);
                    assert forall|n: int| i <= n < i + p && divides(p as int, n) implies n == i by {
                        lemma_no_multiple_between(p as int, i as int, n);
                    }
                    k = k + 1;
                }
                primes.set(i, false);
                i += p;
            }
            proof {
                lemma_next_multiple(p as int, i as int, k);
                lemma_marks_counted(limit as int, p as int, k, i as int);
                marks = marks + k as nat;
            }
        }
        proof {
            assert forall|n: int| 0 <= n <= limit implies #[trigger] primes@[n] == survives(
                n,
                p + 1,
            ) by {
                lemma_survives_step(n, p as int);
                if !before[p as int] {
                    if survives(n, p as int) {
                        lemma_composite_adds_nothing(n, p as int);
                    }
                }
            }
            lemma_square_fits(p + 1, limit as int);
        }
        p += 1;
    }
    proof {
        lemma_square_fits(p as int, limit as int);
        lemma_marks_end(limit as int, p as int, limit + 1);
        assert forall|n: int| 0 <= n <= limit implies #[trigger] primes@[n] == is_prime(n) by {
            lemma_sieve_settled(n, p as int);
        }
    }
    (primes, Ghost(marks))
}

/// The sieve workload: sieves the numbers up to 100000 and returns their
/// flags.
pub fn rust_prime_sieve() -> (primes: Vec<bool>)
    ensures
        primes@.len() == 100001,
        forall|n: int| 0 <= n <= 100000 ==> #[trigger] primes@[n] == is_prime(n),
{
    let (primes, _) = prime_sieve(SIEVE_LIMIT);
    primes
}

} // verus!
