//! Primality by trial division on the 6k +/- 1 wheel, and enumeration of the
//! first primes, sequentially and in parallel blocks.

use vstd::prelude::*;
use vstd::arithmetic::div_mod::{lemma_fundamental_div_mod, lemma_mod_multiples_basic};
use rayon::prelude::{IntoParallelIterator, ParallelIterator};

verus! {

/// `n` is prime: at least two, and no number in `[2, n)` divides it.
pub open spec fn is_prime_spec(n: nat) -> bool {
    n >= 2 && forall|d: nat| 2 <= d < n ==> #[trigger] (n % d) != 0
}

/// No number in `[2, bound)` divides `n`.
pub open spec fn no_divisor_below(n: nat, bound: nat) -> bool {
    forall|d: nat| 2 <= d < bound ==> #[trigger] (n % d) != 0
}

/// The primes in `[lo, hi)`, in ascending order.
pub open spec fn primes_in(lo: nat, hi: nat) -> Seq<nat>
    decreases hi - lo,
{
    if hi <= lo {
        Seq::empty()
    } else if is_prime_spec((hi - 1) as nat) {
        primes_in(lo, (hi - 1) as nat).push((hi - 1) as nat)
    } else {
        primes_in(lo, (hi - 1) as nat)
    }
}

/// The values of a vector of `u64`, as natural numbers.
pub open spec fn nat_seq(s: Seq<u64>) -> Seq<nat> {
    s.map_values(|x: u64| x as nat)
}

/// All the primes that a `u64` can hold (`u64::MAX` itself is not prime).
pub open spec fn u64_primes() -> Seq<nat> {
    primes_in(0, u64::MAX as nat)
}

/// How many primes a list of the first primes can hold when `count` are asked for.
pub open spec fn prime_list_len(count: nat) -> nat {
    if count <= u64_primes().len() {
        count
    } else {
        u64_primes().len()
    }
}

/// `r` holds the first `prime_list_len(count)` primes, in ascending order.
pub open spec fn is_first_primes(r: Seq<u64>, count: nat) -> bool {
    &&& r.len() == prime_list_len(count)
    &&& forall|k: int| 0 <= k < r.len() ==> r[k] as nat == #[trigger] u64_primes()[k]
}

proof fn lemma_divisor_of_divisor(n: nat, d: nat, k: nat)
    requires
        d > 0,
        k > 0,
        n % d == 0,
        d % k == 0,
    ensures
        n % k == 0,
{
    lemma_fundamental_div_mod(n as int, d as int);
    lemma_fundamental_div_mod(d as int, k as int);
    let a = n / d;
    let b = d / k;
    assert(n == (b * a) * k) by (nonlinear_arith)
        requires
            n == d * a,
            d == k * b,
    ;
    lemma_mod_multiples_basic((b * a) as int, k as int);
}

/// A divisor at or above `i`, where `i * i > n`, has a cofactor below `i`.
proof fn lemma_small_cofactor(n: nat, d: nat, i: nat)
    requires
        2 <= d < n,
        i <= d,
        n % d == 0,
        n < i * i,
    ensures
        2 <= n / d < i,
        n % (n / d) == 0,
{
    lemma_fundamental_div_mod(n as int, d as int);
    let e = n / d;
    assert(n == d * e);
    if e == 0 {
        assert(d * e == 0) by (nonlinear_arith)
            requires
                e == 0,
        ;
    }
    if e == 1 {
        assert(d * e == d) by (nonlinear_arith)
            requires
                e == 1,
        ;
    }
    if e >= i {
        assert(d * e >= i * i) by (nonlinear_arith)
            requires
                e >= i,
                d >= i,
        ;
    }
    assert(n == e * d) by (nonlinear_arith)
        requires
            n == d * e,
    ;
    lemma_mod_multiples_basic(d as int, e as int);
}

/// Trial division up to the square root of `n`, testing only 2, 3 and
/// numbers of the form 6k - 1 and 6k + 1.
pub fn is_prime(n: u64) -> (r: bool)
    ensures
        r == is_prime_spec(n as nat),
{
    if n <= 1 {
        return false;
    }
    if n <= 3 {
        return true;
    }
    if n % 2 == 0 {
        assert((n as nat) % 2 == 0);
        return false;
    }
    if n % 3 == 0 {
        assert((n as nat) % 3 == 0);
        return false;
    }
    proof {
        assert forall|d: nat| 2 <= d < 5 implies #[trigger] ((n as nat) % d) != 0 by {
            if d == 4 && (n as nat) % d == 0 {
                lemma_divisor_of_divisor(n as nat, d, 2);
            }
        }
    }
    let mut i: u64 = 5;
    while i <= n / i
        invariant
            5 <= i <= n,
            i % 6 == 5,
            n % 2 != 0,
            n % 3 != 0,
            no_divisor_below(n as nat, i as nat),
        decreases n - i,
    {
        proof {
            lemma_fundamental_div_mod(n as int, i as int);
            assert(i * i <= n) by (nonlinear_arith)
                requires
                    i <= n / i,
                    n == i * (n / i) + n % i,
                    0 <= n % i,
            ;
            assert(i * i >= 5 * i) by (nonlinear_arith)
                requires
                    i >= 5,
            ;
        }
        if n % i == 0 {
            assert((n as nat) % (i as nat) == 0);
            return false;
        }
        if n % (i + 2) == 0 {
            assert((n as nat) % ((i + 2) as nat) == 0);
            return false;
        }
        proof {
            let nn = n as nat;
            let ii = i as nat;
            assert forall|d: nat| 2 <= d < ii + 6 implies #[trigger] (nn % d) != 0 by {
                if d >= ii && nn % d == 0 {
                    if d == ii + 1 || d == ii + 3 || d == ii + 5 {
                        assert(d % 2 == 0);
                        lemma_divisor_of_divisor(nn, d, 2);
                    } else if d == ii + 4 {
                        assert(d % 3 == 0);
                        lemma_divisor_of_divisor(nn, d, 3);
                    }
                }
            }
        }
        i = i + 6;
    }
    proof {
        let nn = n as nat;
        let ii = i as nat;
        lemma_fundamental_div_mod(n as int, i as int);
        let q = nn / ii;
        assert(nn < ii * ii) by (nonlinear_arith)
            requires
                ii >= q + 1,
                nn == ii * q + nn % ii,
                nn % ii < ii,
        ;
        assert forall|d: nat| 2 <= d < nn implies #[trigger] (nn % d) != 0 by {
            if d >= ii && nn % d == 0 {
                lemma_small_cofactor(nn, d, ii);
                let e = nn / d;
                assert(nn % e != 0);
            }
        }
    }
    true
}


/// The primes in `[lo, hi)` are those in `[lo, mid)` followed by those in `[mid, hi)`.
pub proof fn lemma_primes_in_split(lo: nat, mid: nat, hi: nat)
    requires
        lo <= mid <= hi,
    ensures
        primes_in(lo, hi) == primes_in(lo, mid) + primes_in(mid, hi),
    decreases hi - mid,
{
    if hi == mid {
        assert(primes_in(lo, hi) =~= primes_in(lo, mid) + primes_in(mid, hi));
    } else {
        lemma_primes_in_split(lo, mid, (hi - 1) as nat);
        if is_prime_spec((hi - 1) as nat) {
            assert(primes_in(lo, hi) =~= primes_in(lo, mid) + primes_in(mid, hi));
        } else {
            assert(primes_in(lo, hi) =~= primes_in(lo, mid) + primes_in(mid, hi));
        }
    }
}

/// Every entry of `primes_in(lo, hi)` is a prime in `[lo, hi)`, the entries
/// ascend strictly, and every prime of the range is among them.
pub proof fn lemma_primes_in_facts(lo: nat, hi: nat)
    ensures
        forall|k: int|
            0 <= k < primes_in(lo, hi).len() ==> lo <= #[trigger] primes_in(lo, hi)[k] < hi
                && is_prime_spec(primes_in(lo, hi)[k]),
        forall|j: int, k: int|
            0 <= j < k < primes_in(lo, hi).len() ==> #[trigger] primes_in(lo, hi)[j]
                < #[trigger] primes_in(lo, hi)[k],
        forall|p: nat| lo <= p < hi && is_prime_spec(p) ==> primes_in(lo, hi).contains(p),
    decreases hi - lo,
{
    if hi > lo {
        let m = (hi - 1) as nat;
        lemma_primes_in_facts(lo, m);
        if is_prime_spec(m) {
            assert(primes_in(lo, hi).last() == m);
        }
        assert forall|p: nat| lo <= p < hi && is_prime_spec(p) implies primes_in(lo, hi).contains(
            p,
        ) by {
            if p < m {
                let k = choose|k: int| 0 <= k < primes_in(lo, m).len() && primes_in(lo, m)[k] == p;
                assert(primes_in(lo, hi)[k] == p);
            } else {
                assert(primes_in(lo, hi)[primes_in(lo, hi).len() - 1] == p);
            }
        }
    }
}

proof fn lemma_no_primes_below_two()
    ensures
        primes_in(0, 2) == Seq::<nat>::empty(),
{
    assert(!is_prime_spec(1));
    assert(!is_prime_spec(0));
    assert(primes_in(0, 0) == Seq::<nat>::empty());
    assert(primes_in(0, 1) == primes_in(0, 0));
    assert(primes_in(0, 2) == primes_in(0, 1));
}

/// The first primes are prefixes of one another: a list of the primes below
/// `m` agrees, entry by entry, with every list of the primes below `n >= m`.
pub proof fn lemma_primes_prefix(m: nat, n: nat)
    requires
        m <= n,
    ensures
        primes_in(0, m).len() <= primes_in(0, n).len(),
        forall|k: int|
            0 <= k < primes_in(0, m).len() ==> #[trigger] primes_in(0, m)[k] == primes_in(0, n)[k],
{
    lemma_primes_in_split(0, m, n);
}

/// A list of the first primes holds primes only, in strictly ascending
/// order, and starts at 2 when it is not empty.
pub proof fn lemma_first_primes_ascending(r: Seq<u64>, count: nat)
    requires
        is_first_primes(r, count),
    ensures
        forall|k: int| 0 <= k < r.len() ==> is_prime_spec(#[trigger] r[k] as nat),
        forall|j: int, k: int| 0 <= j < k < r.len() ==> #[trigger] r[j] < #[trigger] r[k],
        r.len() > 0 ==> r[0] == 2,
{
    lemma_primes_in_facts(0, u64::MAX as nat);
    assert forall|k: int| 0 <= k < r.len() implies is_prime_spec(#[trigger] r[k] as nat) by {
        assert(r[k] as nat == u64_primes()[k]);
    }
    assert forall|j: int, k: int| 0 <= j < k < r.len() implies #[trigger] r[j] < #[trigger] r[k] by {
        assert(r[j] as nat == u64_primes()[j]);
        assert(r[k] as nat == u64_primes()[k]);
    }
    if r.len() > 0 {
        lemma_no_primes_below_two();
        lemma_primes_in_split(0, 2, 3);
        lemma_primes_in_split(0, 3, u64::MAX as nat);
        assert(is_prime_spec(2));
        assert(primes_in(2, 2) == Seq::<nat>::empty());
        assert(primes_in(2, 3) =~= seq![2nat]);
        assert(primes_in(0, 3) =~= seq![2nat]);
        assert(r[0] as nat == u64_primes()[0]);
    }
}

/// A list of the first primes is determined by the count alone, so the
/// sequential and the parallel enumeration return the same list.
pub proof fn lemma_first_primes_unique(a: Seq<u64>, b: Seq<u64>, count: nat)
    requires
        is_first_primes(a, count),
        is_first_primes(b, count),
    ensures
        a == b,
{
    assert forall|k: int| 0 <= k < a.len() implies a[k] == b[k] by {
        assert(a[k] as nat == u64_primes()[k]);
        assert(b[k] as nat == u64_primes()[k]);
    }
    assert(a =~= b);
}

/// The first `count` primes, found by testing 2, 3, 4, ... in turn. A list
/// longer than the primes that fit in a `u64` stops at the last of them.
pub fn calculate_primes_single(count: usize) -> (r: Vec<u64>)
    ensures
        is_first_primes(r@, count as nat),
        r@.len() == prime_list_len(count as nat),
        forall|k: int| 0 <= k < r@.len() ==> is_prime_spec(#[trigger] r@[k] as nat),
        forall|j: int, k: int| 0 <= j < k < r@.len() ==> #[trigger] r@[j] < #[trigger] r@[k],
        r@.len() > 0 ==> r@[0] == 2,
{
    let mut primes: Vec<u64> = Vec::new();
    let mut n: u64 = 2;
    proof {
        lemma_no_primes_below_two();
    }
    while primes.len() < count && n < u64::MAX
        invariant
            2 <= n,
            primes.len() <= count,
            nat_seq(primes@) == primes_in(0, n as nat),
        decreases u64::MAX - n,
    {
        if is_prime(n) {
            primes.push(n);
        }
        proof {
            assert(nat_seq(primes@) =~= primes_in(0, (n + 1) as nat));
        }
        n = n + 1;
    }
    proof {
        lemma_first_primes_at_end(primes@, count as nat, n as nat);
        lemma_first_primes_ascending(primes@, count as nat);
    }
    primes
}

/// The list of the primes below `n` is the answer once it is long enough,
/// or once `n` has reached `u64::MAX`.
proof fn lemma_first_primes_at_end(r: Seq<u64>, count: nat, n: nat)
    requires
        n <= u64::MAX,
        nat_seq(r) == primes_in(0, n),
        r.len() >= count || n == u64::MAX,
    ensures
        is_first_primes(r.take(prime_list_len(count) as int), count),
        r.len() <= count ==> r.take(prime_list_len(count) as int) == r,
{
    lemma_primes_prefix(n, u64::MAX as nat);
    assert(r.len() == primes_in(0, n).len());
    let t = r.take(prime_list_len(count) as int);
    assert forall|k: int| 0 <= k < t.len() implies t[k] as nat == #[trigger] u64_primes()[k] by {
        assert(nat_seq(r)[k] == r[k] as nat);
    }
    if r.len() <= count {
        assert(t =~= r);
    }
}

/// The primes in `[lo, hi)` in ascending order, tested in parallel.
/// Relies on rayon's `into_par_iter`, `filter` and `collect`: `filter` keeps
/// the candidates for which `is_prime` holds, and `collect` into a `Vec`
/// keeps them in the order of the range.
#[verifier::external_body]
fn parallel_primes_in(lo: u64, hi: u64) -> (r: Vec<u64>)
    ensures
        nat_seq(r@) == primes_in(lo as nat, hi as nat),
{
    (lo..hi).into_par_iter().filter(|x| is_prime(*x)).collect()
}

/// The first `count` primes, found by testing blocks of candidates in
/// parallel. Each block holds `worker_count` times `ceil(count / worker_count)`
/// candidates (a worker count of 0 counts as 1); the primes of each block are
/// appended in ascending order, and the list is cut to `count` at the end.
pub fn calculate_primes_parallel(count: usize, worker_count: usize) -> (r: Vec<u64>)
    ensures
        is_first_primes(r@, count as nat),
        r@.len() == prime_list_len(count as nat),
        forall|k: int| 0 <= k < r@.len() ==> is_prime_spec(#[trigger] r@[k] as nat),
        forall|j: int, k: int| 0 <= j < k < r@.len() ==> #[trigger] r@[j] < #[trigger] r@[k],
        r@.len() > 0 ==> r@[0] == 2,
{
    let workers: usize = if worker_count == 0 {
        1
    } else {
        worker_count
    };
    proof {
        lemma_fundamental_div_mod(count as int, workers as int);
        let q = count / workers;
        assert(workers * q <= count);
        if workers >= 2 {
            assert(2 * q <= workers * q) by (nonlinear_arith)
                requires
                    workers >= 2,
                    q >= 0,
            ;
        }
        if count > 0 && count % workers == 0 {
            assert(q >= 1) by (nonlinear_arith)
                requires
                    count == workers * q,
                    count > 0,
                    q >= 0,
            ;
        }
    }
    let per_worker: usize = if count % workers == 0 {
        count / workers
    } else {
        count / workers + 1
    };
    let block_len: usize = if per_worker > usize::MAX / workers {
        usize::MAX
    } else {
        proof {
            let m = usize::MAX as int;
            lemma_fundamental_div_mod(m, workers as int);
            assert(per_worker * workers <= m) by (nonlinear_arith)
                requires
                    per_worker <= m / (workers as int),
                    m == (workers as int) * (m / (workers as int)) + m % (workers as int),
                    m % (workers as int) >= 0,
                    workers >= 1,
            ;
        }
        per_worker * workers
    };
    proof {
        if count > 0 {
            assert(per_worker * workers >= 1) by (nonlinear_arith)
                requires
                    per_worker >= 1,
                    workers >= 1,
            ;
        }
    }
    let block: u64 = block_len as u64;
    let mut all: Vec<u64> = Vec::new();
    let mut n: u64 = 2;
    proof {
        lemma_no_primes_below_two();
    }
    while all.len() < count && n < u64::MAX
        invariant
            2 <= n,
            count > 0 ==> block >= 1,
            nat_seq(all@) == primes_in(0, n as nat),
        decreases u64::MAX - n,
    {
        let hi: u64 = if n <= u64::MAX - block {
            n + block
        } else {
            u64::MAX
        };
        let mut found = parallel_primes_in(n, hi);
        proof {
            lemma_primes_in_split(0, n as nat, hi as nat);
            assert(nat_seq(all@ + found@) =~= nat_seq(all@) + nat_seq(found@));
        }
        all.append(&mut found);
        n = hi;
    }
    proof {
        lemma_first_primes_at_end(all@, count as nat, n as nat);
    }
    let ghost found_all = all@;
    if all.len() > count {
        all.truncate(count);
        proof {
            lemma_primes_prefix(n as nat, u64::MAX as nat);
            assert(all@ =~= found_all.take(prime_list_len(count as nat) as int));
        }
    }
    proof {
        lemma_first_primes_ascending(all@, count as nat);
    }
    all
}

} // verus!
