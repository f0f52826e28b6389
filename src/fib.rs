//! Fibonacci numbers by plain recursion.
use vstd::prelude::*;

verus! {

/// The Fibonacci numbers, counted so that the values at 0 and 1 are both 1.
pub open spec fn spec_fib(n: nat) -> nat
    decreases n,
{
    if n <= 1 {
        1
    } else {
        spec_fib((n - 1) as nat) + spec_fib((n - 2) as nat)
    }
}

/// The largest argument whose Fibonacci number fits in an `i32`.
pub const FIB_MAX_ARG: i32 = 45;

proof fn lemma_fib_monotonic(m: nat, n: nat)
    requires
        m <= n,
    ensures
        spec_fib(m) <= spec_fib(n),
    decreases n,
{
    if m < n {
        lemma_fib_monotonic(m, (n - 1) as nat);
    }
}

proof fn lemma_fib_fits(n: nat)
    requires
        n <= FIB_MAX_ARG,
    ensures
        spec_fib(n) <= i32::MAX,
{
    // Each value follows from the two before it.
    assert(spec_fib(0) == 1);
    assert(spec_fib(1) == 1);
    assert(spec_fib(2) == 2);
    assert(spec_fib(3) == 3);
    assert(spec_fib(4) == 5);
    assert(spec_fib(5) == 8);
    assert(spec_fib(6) == 13);
    assert(spec_fib(7) == 21);
    assert(spec_fib(8) == 34);
    assert(spec_fib(9) == 55);
    assert(spec_fib(10) == 89);
    assert(spec_fib(11) == 144);
    assert(spec_fib(12) == 233);
    assert(spec_fib(13) == 377);
    assert(spec_fib(14) == 610);
    assert(spec_fib(15) == 987);
    assert(spec_fib(16) == 1597);
    assert(spec_fib(17) == 2584);
    assert(spec_fib(18) == 4181);
    assert(spec_fib(19) == 6765);
    assert(spec_fib(20) == 10946);
    assert(spec_fib(21) == 17711);
    assert(spec_fib(22) == 28657);
    assert(spec_fib(23) == 46368);
    assert(spec_fib(24) == 75025);
    assert(spec_fib(25) == 121393);
    assert(spec_fib(26) == 196418);
    assert(spec_fib(27) == 317811);
    assert(spec_fib(28) == 514229);
    assert(spec_fib(29) == 832040);
    assert(spec_fib(30) == 1346269);
    assert(spec_fib(31) == 2178309);
    assert(spec_fib(32) == 3524578);
    assert(spec_fib(33) == 5702887);
    assert(spec_fib(34) == 9227465);
    assert(spec_fib(35) == 14930352);
    assert(spec_fib(36) == 24157817);
    assert(spec_fib(37) == 39088169);
    assert(spec_fib(38) == 63245986);
    assert(spec_fib(39) == 102334155);
    assert(spec_fib(40) == 165580141);
    assert(spec_fib(41) == 267914296);
    assert(spec_fib(42) == 433494437);
    assert(spec_fib(43) == 701408733);
    assert(spec_fib(44) == 1134903170);
    assert(spec_fib(45) == 1836311903);
    lemma_fib_monotonic(n, 45);
}

/// The Fibonacci number of `n`, with `fib(0) == fib(1) == 1`.
pub fn fib(n: i32) -> (r: i32)
    requires
        0 <= n <= FIB_MAX_ARG,
    ensures
        r == spec_fib(n as nat),
    decreases n,
{
    if n == 0 || n == 1 {
        1
    } else {
        let a = fib(n - 1);
        let b = fib(n - 2);
        proof {
            lemma_fib_fits(n as nat);
        }
        a + b
    }
}

} // verus!
