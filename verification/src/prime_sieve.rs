//! Counting primes with the sieve of Eratosthenes.

use std::time::Duration;
use std::time::Instant;
use vstd::arithmetic::div_mod::lemma_fundamental_div_mod;
use vstd::arithmetic::div_mod::lemma_fundamental_div_mod_converse;
use vstd::arithmetic::div_mod::lemma_mod_multiples_basic;
use vstd::prelude::*;

verus! {

/// Whether the non-zero number `d` divides `n` without remainder.
pub open spec fn divides(d: int, n: int) -> bool
    recommends
        d != 0,
{
    n % d == 0
}

/// Whether `n` is a prime number: at least two and divisible by no number
/// strictly between one and itself.
pub open spec fn is_prime(n: int) -> bool {
    n >= 2 && forall|d: int| 2 <= d < n ==> !#[trigger] divides(d, n)
}

/// The number of primes that are less than or equal to `n`.
pub open spec fn prime_count(n: int) -> nat
    decreases n,
{
    if n < 2 {
        0
    } else {
        prime_count(n - 1) + if is_prime(n) {
            1nat
        } else {
            0nat
        }
    }
}

/// Whether `k` is at least two and has no divisor `d` with `2 <= d < bound`
/// other than itself. This is what an entry of the sieve table records once
/// all candidates below `bound` have been processed.
pub open spec fn no_divisor_below(k: int, bound: int) -> bool {
    k >= 2 && forall|d: int| 2 <= d < bound && d < k ==> !#[trigger] divides(d, k)
}

/// A divisor `d` of a positive `k` comes with a cofactor `k / d` that divides
/// `k` as well.
proof fn lemma_cofactor(d: int, k: int)
    requires
        d >= 1,
        k >= 1,
        divides(d, k),
    ensures
        k == d * (k / d),
        k / d >= 1,
        divides(k / d, k),
{
    let m = k / d;
    lemma_fundamental_div_mod(k, d);
    assert(m >= 1) by (nonlinear_arith)
        requires
            k == d * m,
            d >= 1,
            k >= 1,
    ;
    lemma_mod_multiples_basic(d, m);
    assert(d * m == m * d) by (nonlinear_arith);
}

/// Divisibility is transitive.
proof fn lemma_divides_transitive(a: int, b: int, c: int)
    requires
        a >= 1,
        b >= 1,
        c >= 1,
        divides(a, b),
        divides(b, c),
    ensures
        divides(a, c),
{
    lemma_cofactor(a, b);
    lemma_cofactor(b, c);
    let x = b / a;
    let y = c / b;
    assert(c == (x * y) * a) by (nonlinear_arith)
        requires
            b == a * x,
            c == b * y,
    ;
    lemma_mod_multiples_basic(x * y, a);
}

/// A multiple `k` of `i` that has no smaller divisor than `i` is at least
/// `i * i`, and conversely a multiple from `i * i` on is a proper multiple.
proof fn lemma_struck_multiples(k: int, i: int)
    requires
        i >= 2,
        no_divisor_below(k, i),
        divides(i, k),
    ensures
        i < k <==> i * i <= k,
{
    if i < k {
        lemma_cofactor(i, k);
        let m = k / i;
        assert(m >= 2) by (nonlinear_arith)
            requires
                k == i * m,
                i < k,
                i >= 2,
                m >= 1,
        ;
        assert(m < k) by (nonlinear_arith)
            requires
                k == i * m,
                i >= 2,
                m >= 1,
        ;
        if m < i {
            assert(divides(m, k));
            assert(false);
        }
        assert(i * i <= k) by (nonlinear_arith)
            requires
                k == i * m,
                m >= i,
                i >= 2,
        ;
    }
    if i * i <= k {
        assert(i < k) by (nonlinear_arith)
            requires
                i * i <= k,
                i >= 2,
        ;
    }
}

/// Raising the bound by one adds exactly the condition on the old bound.
proof fn lemma_raise_bound(k: int, i: int)
    requires
        i >= 2,
    ensures
        no_divisor_below(k, i + 1) <==> (no_divisor_below(k, i) && !(i < k && divides(i, k))),
{
    if no_divisor_below(k, i + 1) {
        assert(no_divisor_below(k, i));
        if i < k {
            assert(!divides(i, k));
        }
    }
    if no_divisor_below(k, i) && !(i < k && divides(i, k)) {
        assert forall|d: int| 2 <= d < i + 1 && d < k implies !#[trigger] divides(d, k) by {
            if d < i {
            } else {
                assert(d == i);
            }
        }
    }
}

/// A number that has a proper divisor itself contributes nothing new: every
/// proper multiple of it already has a smaller divisor.
proof fn lemma_composite_adds_nothing(k: int, i: int)
    requires
        i >= 2,
        !no_divisor_below(i, i),
        no_divisor_below(k, i),
        i < k,
    ensures
        !divides(i, k),
{
    let d = choose|d: int| 2 <= d < i && #[trigger] divides(d, i);
    if divides(i, k) {
        lemma_divides_transitive(d, i, k);
        assert(divides(d, k));
        assert(false);
    }
}

/// Once the square of the bound exceeds `k`, having no divisor below the
/// bound means being prime.
proof fn lemma_sieve_complete(k: int, bound: int)
    requires
        bound >= 2,
        bound * bound > k,
    ensures
        no_divisor_below(k, bound) <==> is_prime(k),
{
    if no_divisor_below(k, bound) {
        assert forall|d: int| 2 <= d < k implies !#[trigger] divides(d, k) by {
            if d >= bound && divides(d, k) {
                lemma_cofactor(d, k);
                let m = k / d;
                assert(m >= 2) by (nonlinear_arith)
                    requires
                        k == d * m,
                        d < k,
                        d >= 2,
                        m >= 1,
                ;
                assert(m < k) by (nonlinear_arith)
                    requires
                        k == d * m,
                        d >= 2,
                        m >= 1,
                ;
                assert(m < bound) by (nonlinear_arith)
                    requires
                        k == d * m,
                        d >= bound,
                        bound >= 2,
                        bound * bound > k,
                        m >= 1,
                ;
                assert(divides(m, k));
                assert(false);
            }
        }
    }
    if is_prime(k) {
        assert(no_divisor_below(k, bound));
    }
}

/// The set of primes that are less than or equal to `n`.
pub open spec fn primes_up_to(n: int) -> Set<int> {
    Set::new(|p: int| 2 <= p <= n && is_prime(p))
}

/// `prime_count(n)` is the size of the set of primes up to `n`.
pub proof fn prime_count_is_cardinality(n: int)
    ensures
        primes_up_to(n).finite(),
        primes_up_to(n).len() == prime_count(n),
    decreases n,
{
    if n < 2 {
        assert(primes_up_to(n) =~= Set::<int>::empty());
    } else {
        prime_count_is_cardinality(n - 1);
        if is_prime(n) {
            assert(primes_up_to(n) =~= primes_up_to(n - 1).insert(n));
        } else {
            assert(primes_up_to(n) =~= primes_up_to(n - 1));
        }
    }
}

/// The count of primes never decreases as the bound grows.
pub proof fn prime_count_is_monotonic(lower: int, upper: int)
    requires
        lower <= upper,
    ensures
        prime_count(lower) <= prime_count(upper),
    decreases upper - lower,
{
    if lower < upper {
        prime_count_is_monotonic(lower, upper - 1);
    }
}

/// There are at most `n - 1` primes up to `n`.
proof fn lemma_prime_count_bound(n: int)
    ensures
        prime_count(n) <= if n < 2 { 0 } else { n - 1 },
    decreases n,
{
    if n >= 2 {
        lemma_prime_count_bound(n - 1);
    }
}

/// The largest `root` whose square does not exceed `n`.
pub fn integer_sqrt(n: u32) -> (root: u32)
    ensures
        root * root <= n < (root + 1) * (root + 1),
        root <= 65535,
{
    let target: u64 = n as u64;
    let mut low: u64 = 0;
    let mut high: u64 = 65536;
    assert(high * high > target) by (nonlinear_arith)
        requires
            high == 65536,
            target <= u32::MAX,
    ;
    while high - low > 1
        invariant
            low < high <= 65536,
            low * low <= target < high * high,
        decreases high - low,
    {
        let middle: u64 = low + (high - low) / 2;
        assert(middle * middle <= 65536 * 65536) by (nonlinear_arith)
            requires
                middle <= 65536,
        ;
        if middle * middle <= target {
            low = middle;
        } else {
            high = middle;
        }
    }
    low as u32
}

/// Counts the primes up to `limit` with the sieve of Eratosthenes.
///
/// A table of `limit + 1` flags starts out with every number from two on
/// marked as a candidate. For each candidate `i` up to the square root of
/// `limit`, the multiples of `i` from `i * i` on are struck. The candidates
/// that remain are the primes.
pub fn count_primes(limit: u32) -> (count: usize)
    requires
        limit < usize::MAX,
    ensures
        count == prime_count(limit as int),
{
    if limit < 2 {
        return 0;
    }
    let n: usize = limit as usize;
    let mut table: Vec<bool> = vec![true; n + 1];
    table.set(0, false);
    table.set(1, false);

    let root: usize = integer_sqrt(limit) as usize;
    assert(root >= 1) by (nonlinear_arith)
        requires
            n >= 2,
            n < (root + 1) * (root + 1),
    ;
    let mut i: usize = 2;
    while i <= root
        invariant
            n == limit,
            2 <= n <= u32::MAX,
            n < usize::MAX,
            table.len() == n + 1,
            root * root <= n < (root + 1) * (root + 1),
            root <= 65535,
            2 <= i <= root + 1,
            forall|k: int| 0 <= k <= n ==> table[k] == no_divisor_below(k, i as int),
        decreases root + 1 - i,
    {
        assert(i <= i * i <= root * root) by (nonlinear_arith)
            requires
                2 <= i <= root,
        ;
        if table[i] {
            let step: u64 = i as u64;
            let mut j: u64 = step * step;
            let ghost mut multiplier: int = i as int;
            while j <= n as u64
                invariant
                    n <= u32::MAX,
                    n < usize::MAX,
                    table.len() == n + 1,
                    2 <= i,
                    i <= n,
                    step == i,
                    j == step * multiplier,
                    multiplier >= step,
                    forall|k: int|
                        0 <= k <= n ==> table[k] == (no_divisor_below(k, i as int) && !(i * i <= k
                            < j && divides(i as int, k))),
                decreases n + step - j,
            {
                proof {
                    assert forall|k: int| 0 <= k <= n implies (k == j || table[k] == (
                    no_divisor_below(k, i as int) && !(i * i <= k < j + step && divides(
                        i as int,
                        k,
                    )))) by {
                        if j < k < j + step {
                            lemma_fundamental_div_mod_converse(k, i as int, multiplier, k - j);
                        }
                    }
                    lemma_mod_multiples_basic(multiplier, i as int);
                    assert(divides(i as int, j as int));
                    assert(i * i <= j) by (nonlinear_arith)
                        requires
                            j == step * multiplier,
                            multiplier >= step,
                            step == i,
                            i >= 2,
                    ;
                    assert(step * (multiplier + 1) == j + step) by (nonlinear_arith)
                        requires
                            j == step * multiplier,
                    ;
                }
                table.set(j as usize, false);
                j += step;
                proof {
                    multiplier = multiplier + 1;
                }
            }
            proof {
                assert forall|k: int| 0 <= k <= n implies table[k] == no_divisor_below(
                    k,
                    i + 1,
                ) by {
                    lemma_raise_bound(k, i as int);
                    if no_divisor_below(k, i as int) && divides(i as int, k) {
                        lemma_struck_multiples(k, i as int);
                    }
                }
            }
        } else {
            proof {
                assert(!no_divisor_below(i as int, i as int));
                assert forall|k: int| 0 <= k <= n implies table[k] == no_divisor_below(
                    k,
                    i + 1,
                ) by {
                    lemma_raise_bound(k, i as int);
                    if no_divisor_below(k, i as int) && i < k {
                        lemma_composite_adds_nothing(k, i as int);
                    }
                }
            }
        }
        i += 1;
    }

    proof {
        assert(i == root + 1);
        assert forall|k: int| 0 <= k <= n implies table[k] == is_prime(k) by {
            assert(i * i > k) by (nonlinear_arith)
                requires
                    i == root + 1,
                    (root + 1) * (root + 1) > n,
                    k <= n,
            ;
            lemma_sieve_complete(k, i as int);
        }
    }

    let mut count: usize = 0;
    let mut index: usize = 0;
    while index <= n
        invariant
            n <= u32::MAX,
            n < usize::MAX,
            table.len() == n + 1,
            index <= n + 1,
            count == prime_count(index - 1),
            forall|k: int| 0 <= k <= n ==> table[k] == is_prime(k),
        decreases n + 1 - index,
    {
        proof {
            lemma_prime_count_bound(index as int);
            assert(table[index as int] == is_prime(index as int));
        }
        if table[index] {
            count += 1;
        }
        index += 1;
    }
    count
}

/// Outcome of one prime-counting run.
#[derive(Debug, Clone, Copy, PartialEq, Eq)]
pub struct PrimeResult {
    /// Number of primes up to and including the limit.
    pub count: usize,
    /// Time spent sieving and counting.
    pub elapsed: Duration,
    /// The limit that was asked for.
    pub limit: u32,
}

/// Counts the primes up to `limit` and reports how long the count took.
///
/// Below two there are no primes and no table is allocated.
pub fn calculate_primes_rust(limit: u32) -> (result: PrimeResult)
    requires
        limit < usize::MAX,
    ensures
        result.count == prime_count(limit as int),
        result.limit == limit,
{
    let start = Instant::now();
    let count = count_primes(limit);
    let elapsed = start.elapsed();
    PrimeResult { count, elapsed, limit }
}

} // verus!
