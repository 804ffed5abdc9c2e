//! Primality by trial division and the search for the next prime, used to size
//! the neighbour table.

use vstd::prelude::*;

verus! {

/// `n` is a prime number: at least 2 and divisible by nothing in `2..n`.
pub open spec fn is_prime(n: int) -> bool {
    n >= 2 && forall|d: int| 2 <= d < n ==> #[trigger] (n % d) != 0
}

/// No number in `lo..hi` (upper end excluded) is prime.
pub open spec fn no_prime_in(lo: int, hi: int) -> bool {
    forall|m: int| lo <= m < hi ==> !#[trigger] is_prime(m)
}

/// The value that `next_prime` returns for `n`, stated as a relation: `p` is
/// the least prime that is at least `n` and fits in a `usize`; where there is
/// none, `p` is `n` itself.
pub open spec fn is_next_prime(n: int, p: int) -> bool {
    if is_prime(p) {
        n <= p <= usize::MAX && no_prime_in(n, p)
    } else {
        p == n && no_prime_in(n, usize::MAX + 1)
    }
}

/// The relation `is_next_prime` is a function of `n`: it admits one `p`.
pub proof fn lemma_next_prime_unique(n: int, p: int, q: int)
    requires
        is_next_prime(n, p),
        is_next_prime(n, q),
    ensures
        p == q,
{
    if is_prime(p) && is_prime(q) {
        if p < q {
            assert(!is_prime(p));
        } else if q < p {
            assert(!is_prime(q));
        }
    } else if is_prime(p) {
        assert(!is_prime(p));
    } else if is_prime(q) {
        assert(!is_prime(q));
    }
}

/// A divisor `k` of `n` at or above `d`, where `d * d > n`, has a cofactor
/// below `d` that divides `n` too.
proof fn lemma_cofactor_is_small(n: int, d: int, k: int)
    requires
        n >= 2,
        d >= 2,
        d * d > n,
        d <= k < n,
        n % k == 0,
    ensures
        2 <= n / k < d,
        n % (n / k) == 0,
{
    let q = n / k;
    assert(n == k * q) by (nonlinear_arith)
        requires
            n % k == 0,
            k > 0,
            q == n / k,
    ;
    assert(q >= 2) by (nonlinear_arith)
        requires
            n == k * q,
            k < n,
            k >= 2,
    ;
    assert(q < d) by (nonlinear_arith)
        requires
            n == k * q,
            k >= d,
            d >= 2,
            d * d > n,
            q >= 2,
    ;
    assert(n % q == 0) by (nonlinear_arith)
        requires
            n == k * q,
            q >= 2,
    ;
}

/// Once the trial divisor `d` has passed the square root of `n`, the absence
/// of divisors below `d` makes `n` prime.
proof fn lemma_trial_division_complete(n: int, d: int)
    requires
        n >= 2,
        d >= 2,
        d > n / d,
        forall|k: int| 2 <= k < d ==> #[trigger] (n % k) != 0,
    ensures
        is_prime(n),
{
    assert(d * d > n) by (nonlinear_arith)
        requires
            d >= 2,
            n >= 2,
            d > n / d,
    ;
    assert forall|k: int| 2 <= k < n implies #[trigger] (n % k) != 0 by {
        if k >= d && n % k == 0 {
            lemma_cofactor_is_small(n, d, k);
            let q = n / k;
            assert(n % q == 0);
        }
    }
}

/// Decides whether `n` is prime, by trial division up to its square root.
pub fn is_prime_number(n: usize) -> (prime: bool)
    ensures
        prime == is_prime(n as int),
{
    if n < 2 {
        return false;
    }
    let mut d: usize = 2;
    while d <= n / d
        invariant
            n >= 2,
            2 <= d <= n,
            forall|k: int| 2 <= k < d ==> #[trigger] ((n as int) % k) != 0,
        decreases n - d,
    {
        if n % d == 0 {
            assert(d < n) by (nonlinear_arith)
                requires
                    d >= 2,
                    d <= n / d,
                    n >= 2,
            ;
            return false;
        }
        assert(d < n) by (nonlinear_arith)
            requires
                d >= 2,
                d <= n / d,
                n >= 2,
        ;
        d = d + 1;
    }
    proof {
        lemma_trial_division_complete(n as int, d as int);
    }
    true
}

/// Returns the least prime that is at least `n`. Where no prime from `n` on
/// fits in a `usize`, returns `n` unchanged.
pub fn next_prime(n: usize) -> (p: usize)
    ensures
        is_next_prime(n as int, p as int),
        p >= n,
{
    let mut c: usize = n;
    while c < usize::MAX
        invariant
            n <= c,
            no_prime_in(n as int, c as int),
        decreases usize::MAX - c,
    {
        if is_prime_number(c) {
            return c;
        }
        c = c + 1;
    }
    if is_prime_number(c) {
        c
    } else {
        n
    }
}

} // verus!
