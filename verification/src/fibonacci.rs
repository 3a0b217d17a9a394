//! Fibonacci numbers by naive double recursion.

use vstd::prelude::*;

verus! {

/// Index of the number that the workload computes.
pub const FIBONACCI_INDEX: i32 = 30;

/// The Fibonacci recurrence, carried on below two as the recursion does:
/// there the number is its own index.
pub open spec fn fib_spec(n: int) -> int
    decreases n,
{
    if n <= 1 {
        n
    } else {
        fib_spec(n - 1) + fib_spec(n - 2)
    }
}

/// Fibonacci numbers do not decrease from index one on.
pub proof fn lemma_fib_monotonic(i: int, j: int)
    requires
        0 <= i <= j,
    ensures
        0 <= fib_spec(i) <= fib_spec(j),
    decreases j,
{
    if j <= 1 {
    } else if i == j {
        lemma_fib_monotonic(0, j - 1);
        lemma_fib_monotonic(0, j - 2);
    } else {
        lemma_fib_monotonic(i, j - 1);
        lemma_fib_monotonic(0, j - 2);
    }
}

/// The Fibonacci numbers at the indices that the bounds below rest on.
proof fn lemma_fib_values()
    ensures
        fib_spec(30) == 832040,
        fib_spec(46) == 1836311903,
{
    assert(fib_spec(0) == 0);
    assert(fib_spec(1) == 1);
    assert(fib_spec(2) == 1);
    assert(fib_spec(3) == 2);
    assert(fib_spec(4) == 3);
    assert(fib_spec(5) == 5);
    assert(fib_spec(6) == 8);
    assert(fib_spec(7) == 13);
    assert(fib_spec(8) == 21);
    assert(fib_spec(9) == 34);
    assert(fib_spec(10) == 55);
    assert(fib_spec(11) == 89);
    assert(fib_spec(12) == 144);
    assert(fib_spec(13) == 233);
    assert(fib_spec(14) == 377);
    assert(fib_spec(15) == 610);
    assert(fib_spec(16) == 987);
    assert(fib_spec(17) == 1597);
    assert(fib_spec(18) == 2584);
    assert(fib_spec(19) == 4181);
    assert(fib_spec(20) == 6765);
    assert(fib_spec(21) == 10946);
    assert(fib_spec(22) == 17711);
    assert(fib_spec(23) == 28657);
    assert(fib_spec(24) == 46368);
    assert(fib_spec(25) == 75025);
    assert(fib_spec(26) == 121393);
    assert(fib_spec(27) == 196418);
    assert(fib_spec(28) == 317811);
    assert(fib_spec(29) == 514229);
    assert(fib_spec(30) == 832040);
    assert(fib_spec(31) == 1346269);
    assert(fib_spec(32) == 2178309);
    assert(fib_spec(33) == 3524578);
    assert(fib_spec(34) == 5702887);
    assert(fib_spec(35) == 9227465);
    assert(fib_spec(36) == 14930352);
    assert(fib_spec(37) == 24157817);
    assert(fib_spec(38) == 39088169);
    assert(fib_spec(39) == 63245986);
    assert(fib_spec(40) == 102334155);
    assert(fib_spec(41) == 165580141);
    assert(fib_spec(42) == 267914296);
    assert(fib_spec(43) == 433494437);
    assert(fib_spec(44) == 701408733);
    assert(fib_spec(45) == 1134903170);
    assert(fib_spec(46) == 1836311903);
}

/// The Fibonacci number at `n`, by the recurrence itself; a number below
/// two is returned as it is. The result fits up to index 46.
pub fn fib(n: i32) -> (value: i32)
    requires
        n <= 46,
    ensures
        value == fib_spec(n as int),
    decreases n,
{
    if n <= 1 {
        return n;
    }
    proof {
        lemma_fib_values();
        lemma_fib_monotonic(n as int, 46);
        lemma_fib_monotonic(n as int - 1, n as int);
        lemma_fib_monotonic(n as int - 2, n as int);
    }
    fib(n - 1) + fib(n - 2)
}

/// The Fibonacci workload: the number at index 30.
pub fn rust_fibonacci() -> (value: i32)
    ensures
        value == fib_spec(30),
        value == 832040,
{
    proof {
        lemma_fib_values();
    }
    fib(FIBONACCI_INDEX)
}

} // verus!
