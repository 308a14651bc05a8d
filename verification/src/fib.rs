//! Fibonacci numbers by plain double recursion.
//!
//! The executable function deliberately does no memoisation, so its running
//! time grows exponentially with the index. Its contract ties it to the usual
//! mathematical sequence.

use vstd::prelude::*;

verus! {

/// The Fibonacci sequence over the naturals: the first two terms are their own
/// index, every later term is the sum of the two terms before it.
pub open spec fn spec_fib(n: nat) -> nat
    decreases n,
{
    if n <= 1 {
        n
    } else {
        spec_fib((n - 1) as nat) + spec_fib((n - 2) as nat)
    }
}

/// The largest index whose Fibonacci number still fits in a `u32`.
pub const MAX_INDEX: u32 = 47;

/// The index that the benchmark evaluates.
pub const BENCH_INDEX: u32 = 35;

/// The sequence obeys its recurrence: from index 2 on, every term is the sum
/// of its two predecessors.
pub proof fn lemma_fib_recurrence(n: nat)
    requires
        n >= 2,
    ensures
        spec_fib(n) == spec_fib((n - 1) as nat) + spec_fib((n - 2) as nat),
{
}

/// A term never exceeds its successor.
pub proof fn lemma_fib_step(n: nat)
    ensures
        spec_fib(n) <= spec_fib(n + 1),
{
    if n >= 1 {
        lemma_fib_recurrence(n + 1);
    }
}

/// The sequence never decreases.
pub proof fn lemma_fib_monotonic(lo: nat, hi: nat)
    requires
        lo <= hi,
    ensures
        spec_fib(lo) <= spec_fib(hi),
    decreases hi - lo,
{
    if lo < hi {
        lemma_fib_step(lo);
        lemma_fib_monotonic(lo + 1, hi);
    }
}

/// The terms from the start up to the benchmark's index, one unfolding at a time.
proof fn lemma_fib_upto_bench()
    ensures
        spec_fib(34) == 5702887,
        spec_fib(35) == 9227465,
{
    assert(spec_fib(0) == 0);
    assert(spec_fib(1) == 1);
    assert(spec_fib(2) == 1);
    assert(spec_fib(3) == 2);
    assert(spec_fib(4) == 3);
    assert(spec_fib(5) == 5);
    assert(spec_fib(6) == 8);
    assert(spec_fib(7) == 13);
    assert(spec_fib(8) == 21);
    assert(spec_fib(9) == 34);
    assert(spec_fib(10) == 55);
    assert(spec_fib(11) == 89);
    assert(spec_fib(12) == 144);
    assert(spec_fib(13) == 233);
    assert(spec_fib(14) == 377);
    assert(spec_fib(15) == 610);
    assert(spec_fib(16) == 987);
    assert(spec_fib(17) == 1597);
    assert(spec_fib(18) == 2584);
    assert(spec_fib(19) == 4181);
    assert(spec_fib(20) == 6765);
    assert(spec_fib(21) == 10946);
    assert(spec_fib(22) == 17711);
    assert(spec_fib(23) == 28657);
    assert(spec_fib(24) == 46368);
    assert(spec_fib(25) == 75025);
    assert(spec_fib(26) == 121393);
    assert(spec_fib(27) == 196418);
    assert(spec_fib(28) == 317811);
    assert(spec_fib(29) == 514229);
    assert(spec_fib(30) == 832040);
    assert(spec_fib(31) == 1346269);
    assert(spec_fib(32) == 2178309);
    assert(spec_fib(33) == 3524578);
    assert(spec_fib(34) == 5702887);
    assert(spec_fib(35) == 9227465);
}

/// The terms on either side of the `u32` limit.
proof fn lemma_fib_at_limit()
    ensures
        spec_fib(47) == 2971215073,
        spec_fib(48) == 4807526976,
{
    lemma_fib_upto_bench();
    assert(spec_fib(36) == 14930352);
    assert(spec_fib(37) == 24157817);
    assert(spec_fib(38) == 39088169);
    assert(spec_fib(39) == 63245986);
    assert(spec_fib(40) == 102334155);
    assert(spec_fib(41) == 165580141);
    assert(spec_fib(42) == 267914296);
    assert(spec_fib(43) == 433494437);
    assert(spec_fib(44) == 701408733);
    assert(spec_fib(45) == 1134903170);
    assert(spec_fib(46) == 1836311903);
    assert(spec_fib(47) == 2971215073);
    assert(spec_fib(48) == 4807526976);
}

/// A Fibonacci number fits in a `u32` exactly when its index is at most
/// `MAX_INDEX`.
pub proof fn lemma_fib_fits_u32(n: nat)
    ensures
        spec_fib(n) <= u32::MAX <==> n <= MAX_INDEX,
{
    lemma_fib_at_limit();
    if n <= 47 {
        lemma_fib_monotonic(n, 47);
    } else {
        lemma_fib_monotonic(48, n);
    }
}

/// The value that the benchmark computes.
pub proof fn lemma_fib_bench_value()
    ensures
        spec_fib(BENCH_INDEX as nat) == 9227465,
{
    lemma_fib_upto_bench();
}

/// Computes the `n`-th Fibonacci number by recursing on both predecessors,
/// without remembering any intermediate result.
///
/// The index is limited to `MAX_INDEX`, beyond which the value no longer fits
/// in the result type.
pub fn fib(n: u32) -> (r: u32)
    requires
        n <= MAX_INDEX,
    ensures
        r == spec_fib(n as nat),
    decreases n,
{
    if n <= 1 {
        return n;
    }
    proof {
        lemma_fib_fits_u32(n as nat);
    }
    fib(n - 1) + fib(n - 2)
}

/// Runs the Fibonacci benchmark: the term at `BENCH_INDEX`.
pub fn benchmark() -> (r: u32)
    ensures
        r == 9227465,
        r == spec_fib(BENCH_INDEX as nat),
{
    proof {
        lemma_fib_bench_value();
    }
    fib(BENCH_INDEX)
}

} // verus!
