//! The native fast operations offered to Python code: numeric loops,
//! primes, strings and collections.

use vstd::prelude::*;
use crate::parallel::par_square_sum_below;
use crate::parallel::par_count_primes_below;
use crate::parallel::par_keep_above;
use crate::parallel::par_chunked_square_sum;
use crate::parallel::par_square_sum_of;
use crate::parallel::logical_cpus;
use crate::parallel::physical_cpus;
use crate::text::push_str;
use crate::text::string_views;

verus! {

/// 2^64, the modulus of `u64` arithmetic.
pub open spec fn u64_modulus() -> nat {
    0x1_0000_0000_0000_0000
}

/// 0 + 1 + ... + (n - 1).
pub open spec fn range_sum_below(n: nat) -> nat
    decreases n,
{
    if n == 0 {
        0
    } else {
        range_sum_below((n - 1) as nat) + (n - 1) as nat
    }
}

/// 0² + 1² + ... + (n - 1)².
pub open spec fn square_sum_below(n: nat) -> nat
    decreases n,
{
    if n == 0 {
        0
    } else {
        square_sum_below((n - 1) as nat) + ((n - 1) * (n - 1)) as nat
    }
}

/// The sum of the squares of the numbers of `s`.
pub open spec fn square_sum_of(s: Seq<i64>) -> int
    decreases s.len(),
{
    if s.len() == 0 {
        0
    } else {
        square_sum_of(s.drop_last()) + s.last() * s.last()
    }
}

/// The Fibonacci numbers: 0, 1, 1, 2, 3, 5, ...
pub open spec fn fib(n: nat) -> nat
    decreases n,
{
    if n == 0 {
        0
    } else if n == 1 {
        1
    } else {
        fib((n - 2) as nat) + fib((n - 1) as nat)
    }
}

/// `d` divides `n`.
pub open spec fn divides(d: nat, n: nat) -> bool {
    d > 0 && n % d == 0
}

/// `n` is a prime number.
pub open spec fn is_prime_number(n: nat) -> bool {
    n >= 2 && forall|d: nat| 2 <= d < n ==> !#[trigger] divides(d, n)
}

/// The primes `p` with `2 <= p < n`, counted.
pub open spec fn primes_below(n: nat) -> nat
    decreases n,
{
    if n <= 2 {
        0
    } else {
        primes_below((n - 1) as nat) + if is_prime_number((n - 1) as nat) {
            1nat
        } else {
            0nat
        }
    }
}

/// Trial division by odd numbers squares its divisor before comparing it
/// with `n`; for a prime this large the square of the next divisor no longer
/// fits in 64 bits.
pub open spec fn trial_division_overflows(n: nat) -> bool {
    is_prime_number(n) && n >= 18446744065119617025
}

/// The square of `i`, wrapping around at 2^64.
pub fn wrapping_square(i: u64) -> (r: u64)
    ensures
        r == ((i * i) as nat) % u64_modulus(),
{
    i.wrapping_mul(i)
}

/// The square of `x`.
pub fn square_i64(x: i64) -> (r: i64)
    requires
        x * x <= i64::MAX,
    ensures
        r == x * x,
{
    assert(x * x >= 0) by (nonlinear_arith);
    x * x
}

/// Whether `x` is above `threshold`.
pub fn exceeds(x: i64, threshold: i64) -> (b: bool)
    ensures
        b == (x > threshold),
{
    x > threshold
}

proof fn lemma_square_nonneg(x: int)
    ensures
        x * x >= 0,
{
    assert(x * x >= 0) by (nonlinear_arith);
}

/// Every prefix of `s` has a square sum no larger than that of `s`.
pub proof fn lemma_square_sum_prefix(s: Seq<i64>, k: int)
    requires
        0 <= k <= s.len(),
    ensures
        0 <= square_sum_of(s.take(k)) <= square_sum_of(s),
    decreases s.len(),
{
    if s.len() > 0 {
        lemma_square_nonneg(s.last() as int);
        if k == s.len() {
            assert(s.take(k) =~= s);
            lemma_square_sum_prefix(s.drop_last(), k - 1);
            assert(s.drop_last().take(k - 1) =~= s.drop_last());
        } else {
            lemma_square_sum_prefix(s.drop_last(), k);
            assert(s.drop_last().take(k) =~= s.take(k));
        }
    }
}

/// The sum of the squares of a slice of numbers.
pub fn square_sum(c: &[i64]) -> (r: i64)
    requires
        square_sum_of(c@) <= i64::MAX,
    ensures
        r == square_sum_of(c@),
{
    let mut total: i64 = 0;
    let mut i: usize = 0;
    while i < c.len()
        invariant
            0 <= i <= c@.len(),
            square_sum_of(c@) <= i64::MAX,
            total == square_sum_of(c@.take(i as int)),
        decreases c@.len() - i,
    {
        assert(c@.take(i + 1).drop_last() =~= c@.take(i as int));
        assert(c@.take(i + 1).last() == c@[i as int]);
        proof {
            lemma_square_sum_prefix(c@, i + 1);
            lemma_square_sum_prefix(c@, i as int);
            lemma_square_nonneg(c@[i as int] as int);
        }
        let sq = square_i64(c[i]);
        total = total + sq;
        i += 1;
    }
    assert(c@.take(c@.len() as int) =~= c@);
    total
}

/// Sum of the squares of `0..n`, computed on all cores.
pub fn sum_of_squares(n: u64) -> (r: u64)
    requires
        square_sum_below(n as nat) <= u64::MAX,
    ensures
        r == square_sum_below(n as nat),
{
    par_square_sum_below(n)
}

/// Sum of `0..n`.
pub fn fast_range_sum(n: u64) -> (r: u64)
    requires
        range_sum_below(n as nat) <= u64::MAX,
    ensures
        r == range_sum_below(n as nat),
{
    let mut total: u64 = 0;
    let mut i: u64 = 0;
    while i < n
        invariant
            i <= n,
            total == range_sum_below(i as nat),
            range_sum_below(n as nat) <= u64::MAX,
        decreases n - i,
    {
        proof {
            lemma_range_sum_monotone((i + 1) as nat, n as nat);
        }
        total = total + i;
        i += 1;
    }
    total
}

proof fn lemma_range_sum_monotone(a: nat, b: nat)
    requires
        a <= b,
    ensures
        range_sum_below(a) <= range_sum_below(b),
    decreases b,
{
    if a < b {
        lemma_range_sum_monotone(a, (b - 1) as nat);
    }
}

/// The wrapped sum of the wrapped squares of `0..n`, one at a time.
pub fn heavy_loop(n: u64) -> (r: u64)
    ensures
        r == square_sum_below(n as nat) % u64_modulus(),
{
    let mut total: u64 = 0;
    let mut i: u64 = 0;
    while i < n
        invariant
            i <= n,
            total == square_sum_below(i as nat) % u64_modulus(),
        decreases n - i,
    {
        let sq = i.wrapping_mul(i);
        let ghost old_total = total;
        total = total.wrapping_add(sq);
        proof {
            let m = u64_modulus() as int;
            vstd::arithmetic::div_mod::lemma_add_mod_noop(
                square_sum_below(i as nat) as int,
                (i * i) as int,
                m,
            );
            assert(square_sum_below((i + 1) as nat) == square_sum_below(i as nat) + i * i);
            let s = old_total as int + sq as int;
            if s >= m {
                vstd::arithmetic::div_mod::lemma_mod_multiples_vanish(1, s - m, m);
                vstd::arithmetic::div_mod::lemma_small_mod((s - m) as nat, m as nat);
            } else {
                vstd::arithmetic::div_mod::lemma_small_mod(s as nat, m as nat);
            }
        }
        i += 1;
    }
    total
}


/// A number with no divisor in `2..m`, where `m * m > n`, is prime.
pub proof fn lemma_prime_by_trial_division(n: nat, m: nat)
    requires
        n >= 2,
        m >= 2,
        m * m > n,
        forall|d: nat| 2 <= d < m ==> !#[trigger] divides(d, n),
    ensures
        is_prime_number(n),
{
    assert forall|d: nat| 2 <= d < n implies !#[trigger] divides(d, n) by {
        if d >= m && divides(d, n) {
            let q = n / d;
            vstd::arithmetic::div_mod::lemma_fundamental_div_mod(n as int, d as int);
            assert(n == d * q);
            assert(q < m) by (nonlinear_arith)
                requires
                    n == d * q,
                    d >= m,
                    m * m > n,
                    m >= 2,
            ;
            assert(q >= 2) by (nonlinear_arith)
                requires
                    n == d * q,
                    d < n,
                    n >= 2,
            ;
            vstd::arithmetic::div_mod::lemma_mod_multiples_basic(d as int, q as int);
            assert(n % q == 0) by {
                assert(d * q == q * d) by (nonlinear_arith);
            }
            assert(divides(q, n));
        }
    }
}

/// Whether `n` is prime, by trial division with odd numbers.
pub fn is_prime(n: u64) -> (b: bool)
    requires
        !trial_division_overflows(n as nat),
    ensures
        b == is_prime_number(n as nat),
{
    if n < 2 {
        return false;
    }
    if n % 2 == 0 {
        if n != 2 {
            assert(divides(2, n as nat));
        }
        return n == 2;
    }
    let mut i: u64 = 3;
    loop
        invariant
            3 <= i,
            i % 2 == 1,
            n % 2 == 1,
            n >= 3,
            (i - 2) * (i - 2) <= n,
            !trial_division_overflows(n as nat),
            forall|d: nat| 2 <= d < i ==> !#[trigger] divides(d, n as nat),
        decreases u64::MAX - i,
    {
        if i > 4294967295 {
            proof {
                assert(i - 2 <= 4294967295) by (nonlinear_arith)
                    requires
                        (i - 2) * (i - 2) <= n,
                        n <= u64::MAX,
                        i >= 3,
                ;
                assert(i == 4294967297);
                assert((i - 2) * (i - 2) == 18446744065119617025) by (nonlinear_arith)
                    requires
                        i == 4294967297,
                ;
                assert(i * i > n) by (nonlinear_arith)
                    requires
                        i == 4294967297,
                        n <= u64::MAX,
                ;
                lemma_prime_by_trial_division(n as nat, i as nat);
            }
            assert(false);
        }
        assert(i * i <= u64::MAX) by (nonlinear_arith)
            requires
                i <= 4294967295,
        ;
        if i * i > n {
            proof {
                lemma_prime_by_trial_division(n as nat, i as nat);
            }
            return true;
        }
        if n % i == 0 {
            assert(i < n) by (nonlinear_arith)
                requires
                    i * i <= n,
                    i >= 3,
            ;
            assert(divides(i as nat, n as nat));
            return false;
        }
        assert forall|d: nat| 2 <= d < i + 2 implies !#[trigger] divides(d, n as nat) by {
            if d == i + 1 {
                if divides(d, n as nat) {
                    assert(d % 2 == 0);
                    let k = d / 2;
                    assert(d == 2 * k);
                    let q = n as nat / d;
                    vstd::arithmetic::div_mod::lemma_fundamental_div_mod(n as int, d as int);
                    assert(n == d * q);
                    assert(n == 2 * (k * q)) by (nonlinear_arith)
                        requires
                            n == d * q,
                            d == 2 * k,
                    ;
                }
            }
        }
        i += 2;
    }
}

/// Whether trial division of `n` would square a divisor past 64 bits (see
/// [`trial_division_overflows`]); decided without overflowing.
pub fn trial_division_would_overflow(n: u64) -> (b: bool)
    ensures
        b == trial_division_overflows(n as nat),
{
    if n < 18446744065119617025 {
        return false;
    }
    if n % 2 == 0 {
        assert(divides(2, n as nat));
        return false;
    }
    let mut i: u64 = 3;
    while i <= 4294967295
        invariant
            3 <= i <= 4294967297,
            i % 2 == 1,
            n % 2 == 1,
            n >= 18446744065119617025,
            forall|d: nat| 2 <= d < i ==> !#[trigger] divides(d, n as nat),
        decreases 4294967297 - i,
    {
        if n % i == 0 {
            assert(divides(i as nat, n as nat));
            return false;
        }
        assert forall|d: nat| 2 <= d < i + 2 implies !#[trigger] divides(d, n as nat) by {
            if d == i + 1 {
                if divides(d, n as nat) {
                    let k = d / 2;
                    assert(d == 2 * k);
                    let q = n as nat / d;
                    vstd::arithmetic::div_mod::lemma_fundamental_div_mod(n as int, d as int);
                    assert(n == 2 * (k * q)) by (nonlinear_arith)
                        requires
                            n == d * q,
                            d == 2 * k,
                    ;
                }
            }
        }
        i += 2;
    }
    proof {
        assert(i == 4294967297);
        assert(4294967297 * 4294967297 > u64::MAX) by (nonlinear_arith);
        lemma_prime_by_trial_division(n as nat, 4294967297);
    }
    true
}

/// The number of primes below `n`, counted on all cores.
pub fn count_primes(n: u64) -> (r: u64)
    requires
        forall|x: nat| 2 <= x < n ==> !trial_division_overflows(x),
    ensures
        r == primes_below(n as nat),
{
    let c = par_count_primes_below(n);
    c as u64
}

proof fn lemma_fib_monotone(a: nat, b: nat)
    requires
        a <= b,
    ensures
        fib(a) <= fib(b),
    decreases b,
{
    if a < b {
        lemma_fib_monotone(a, (b - 1) as nat);
        if b >= 2 {
            assert(fib(b) == fib((b - 2) as nat) + fib((b - 1) as nat));
        }
    }
}

/// The `n`-th Fibonacci number, wrapping around at 2^64.
pub fn fibonacci(n: u64) -> (r: u64)
    ensures
        r == fib(n as nat) % u64_modulus(),
{
    let mut a: u64 = 0;
    let mut b: u64 = 1;
    let mut i: u64 = 0;
    while i < n
        invariant
            i <= n,
            a == fib(i as nat) % u64_modulus(),
            b == fib((i + 1) as nat) % u64_modulus(),
        decreases n - i,
    {
        let t = a;
        a = b;
        b = t.wrapping_add(b);
        proof {
            assert(fib((i + 2) as nat) == fib(i as nat) + fib((i + 1) as nat));
            vstd::arithmetic::div_mod::lemma_add_mod_noop(
                fib(i as nat) as int,
                fib((i + 1) as nat) as int,
                u64_modulus() as int,
            );
            if t as int + a as int >= u64_modulus() {
                vstd::arithmetic::div_mod::lemma_mod_multiples_vanish(
                    1,
                    t as int + a as int - u64_modulus(),
                    u64_modulus() as int,
                );
                vstd::arithmetic::div_mod::lemma_small_mod(
                    (t as int + a as int - u64_modulus()) as nat,
                    u64_modulus(),
                );
            } else {
                vstd::arithmetic::div_mod::lemma_small_mod((t + a) as nat, u64_modulus());
            }
        }
        i += 1;
    }
    a
}

/// The concatenation of a sequence of texts.
pub open spec fn concat_all(parts: Seq<Seq<char>>) -> Seq<char>
    decreases parts.len(),
{
    if parts.len() == 0 {
        seq![]
    } else {
        concat_all(parts.drop_last()) + parts.last()
    }
}

/// Concatenates the parts into one string.
pub fn fast_string_join(parts: Vec<String>) -> (r: String)
    ensures
        r@ == concat_all(string_views(parts@)),
{
    let mut r = String::new();
    let mut i: usize = 0;
    while i < parts.len()
        invariant
            0 <= i <= parts@.len(),
            r@ == concat_all(string_views(parts@).take(i as int)),
        decreases parts@.len() - i,
    {
        assert(string_views(parts@).take(i + 1).drop_last() =~= string_views(parts@).take(i as int));
        push_str(&mut r, parts[i].as_str());
        i += 1;
    }
    assert(string_views(parts@).take(parts@.len() as int) =~= string_views(parts@));
    r
}

/// The numbers above `threshold`, in their order, selected on all cores.
pub fn fast_collect(nums: Vec<i64>, threshold: i64) -> (r: Vec<i64>)
    ensures
        r@ == nums@.filter(|x: i64| x > threshold),
{
    par_keep_above(nums, threshold)
}

/// How often `w` occurs in `ws`.
pub open spec fn occurrences(ws: Seq<Seq<char>>, w: Seq<char>) -> nat
    decreases ws.len(),
{
    if ws.len() == 0 {
        0
    } else {
        occurrences(ws.drop_last(), w) + if ws.last() == w {
            1nat
        } else {
            0nat
        }
    }
}

/// The distinct texts of `ws` in the order of their first occurrence.
pub open spec fn distinct_in_order(ws: Seq<Seq<char>>) -> Seq<Seq<char>>
    decreases ws.len(),
{
    if ws.len() == 0 {
        seq![]
    } else {
        let d = distinct_in_order(ws.drop_last());
        if d.contains(ws.last()) {
            d
        } else {
            d.push(ws.last())
        }
    }
}

/// The word counts of `ws`: each distinct word, in order of first
/// occurrence, with the number of its occurrences.
pub open spec fn word_counts(ws: Seq<Seq<char>>) -> Seq<(Seq<char>, nat)> {
    distinct_in_order(ws).map_values(|w: Seq<char>| (w, occurrences(ws, w)))
}

/// The views of counted words.
pub open spec fn count_views(v: Seq<(String, u64)>) -> Seq<(Seq<char>, nat)> {
    v.map_values(|p: (String, u64)| (p.0@, p.1 as nat))
}

proof fn lemma_distinct_contains(ws: Seq<Seq<char>>, w: Seq<char>)
    ensures
        distinct_in_order(ws).contains(w) == ws.contains(w),
        distinct_in_order(ws).no_duplicates(),
        occurrences(ws, w) <= ws.len(),
        !ws.contains(w) ==> occurrences(ws, w) == 0,
    decreases ws.len(),
{
    if ws.len() > 0 {
        let rest = ws.drop_last();
        let x = ws.last();
        lemma_distinct_contains(rest, w);
        lemma_distinct_contains(rest, x);
        let d = distinct_in_order(rest);
        assert(ws.contains(w) == (rest.contains(w) || x == w)) by {
            if ws.contains(w) {
                let k = choose|k: int| 0 <= k < ws.len() && ws[k] == w;
                if k < rest.len() {
                    assert(rest[k] == w);
                }
            }
            if rest.contains(w) {
                let k = choose|k: int| 0 <= k < rest.len() && rest[k] == w;
                assert(ws[k] == w);
            }
            if x == w {
                assert(ws[ws.len() - 1] == w);
            }
        }
        if !d.contains(x) {
            let e = d.push(x);
            assert(e.contains(w) == (d.contains(w) || x == w)) by {
                if e.contains(w) {
                    let k = choose|k: int| 0 <= k < e.len() && e[k] == w;
                    if k < d.len() {
                        assert(d[k] == w);
                    }
                }
                if d.contains(w) {
                    let k = choose|k: int| 0 <= k < d.len() && d[k] == w;
                    assert(e[k] == w);
                }
                if x == w {
                    assert(e[e.len() - 1] == w);
                }
            }
            assert forall|a: int, b: int| 0 <= a < b < e.len() implies e[a] != e[b] by {
                if b == d.len() {
                    assert(e[a] == d[a]);
                    assert(d.contains(d[a]));
                }
            }
        }
    }
}

/// The counted words are exactly the words of `ws`, each listed once, as
/// the keys of a map would be.
pub proof fn lemma_word_count_keys(ws: Seq<Seq<char>>)
    ensures
        distinct_in_order(ws).no_duplicates(),
        forall|w: Seq<char>| #[trigger] distinct_in_order(ws).contains(w) == ws.contains(w),
{
    assert forall|w: Seq<char>| #[trigger] distinct_in_order(ws).contains(w) == ws.contains(w) by {
        lemma_distinct_contains(ws, w);
    }
    lemma_distinct_contains(ws, seq![]);
}

/// No word occurs more often than there are words.
pub proof fn lemma_word_counts_bounded(ws: Seq<Seq<char>>)
    ensures
        forall|q: int| 0 <= q < word_counts(ws).len() ==> #[trigger] word_counts(ws)[q].1 <= ws.len(),
{
    assert forall|q: int| 0 <= q < word_counts(ws).len() implies #[trigger] word_counts(ws)[q].1 <= ws.len() by {
        lemma_distinct_contains(ws, distinct_in_order(ws)[q]);
    }
}

/// Counts how often each word occurs, listing words in order of first
/// occurrence.
pub fn fast_word_count(words: Vec<String>) -> (r: Vec<(String, u64)>)
    ensures
        count_views(r@) == word_counts(string_views(words@)),
{
    let ghost ws = string_views(words@);
    let mut counts: vstd::hash_map::StringHashMap<u64> = vstd::hash_map::StringHashMap::new();
    let mut order: Vec<String> = Vec::new();
    let mut i: usize = 0;
    while i < words.len()
        invariant
            0 <= i <= words@.len(),
            ws == string_views(words@),
            string_views(order@) == distinct_in_order(ws.take(i as int)),
            forall|w: Seq<char>| #[trigger] counts@.contains_key(w) == ws.take(i as int).contains(w),
            forall|w: Seq<char>| counts@.contains_key(w) ==> #[trigger] counts@[w] as nat == occurrences(ws.take(i as int), w),
        decreases words@.len() - i,
    {
        let w = &words[i];
        let ghost pre = ws.take(i as int);
        let ghost post = ws.take(i + 1);
        assert(post.drop_last() =~= pre);
        assert(post.last() == w@);
        proof {
            lemma_distinct_contains(pre, w@);
            lemma_distinct_contains(post, w@);
        }
        let current = counts.get(w.as_str());
        match current {
            Some(c) => {
                let c = *c;
                assert(c as nat == occurrences(pre, w@));
                assert(c < words@.len());
                counts.insert(w.clone(), c + 1);
            },
            None => {
                order.push(w.clone());
                counts.insert(w.clone(), 1);
            },
        }
        assert forall|v: Seq<char>| #[trigger] counts@.contains_key(v) == post.contains(v) by {
            if v != w@ && pre.contains(v) {
                let k = choose|k: int| 0 <= k < pre.len() && pre[k] == v;
                assert(post[k] == v);
            }
            if post.contains(v) && v != w@ {
                let k = choose|k: int| 0 <= k < post.len() && post[k] == v;
                assert(k < pre.len());
                assert(pre[k] == v);
            }
        }
        assert(string_views(order@) =~= distinct_in_order(post));
        i += 1;
    }
    assert(ws.take(words@.len() as int) =~= ws);
    let mut r: Vec<(String, u64)> = Vec::new();
    let mut k: usize = 0;
    while k < order.len()
        invariant
            0 <= k <= order@.len(),
            ws == string_views(words@),
            string_views(order@) == distinct_in_order(ws),
            forall|w: Seq<char>| #[trigger] counts@.contains_key(w) == ws.contains(w),
            forall|w: Seq<char>| counts@.contains_key(w) ==> #[trigger] counts@[w] as nat == occurrences(ws, w),
            count_views(r@) == word_counts(ws).take(k as int),
        decreases order@.len() - k,
    {
        let w = &order[k];
        proof {
            lemma_distinct_contains(ws, w@);
            assert(distinct_in_order(ws)[k as int] == w@);
            assert(distinct_in_order(ws).contains(w@));
            assert(counts@.contains_key(w@));
            assert(word_counts(ws)[k as int] == (w@, occurrences(ws, w@)));
        }
        let c = match counts.get(w.as_str()) {
            Some(c) => *c,
            None => 0,
        };
        assert(c as nat == occurrences(ws, w@));
        let ghost before = count_views(r@);
        let wc = w.clone();
        r.push((wc, c));
        assert(count_views(r@) =~= before.push((w@, c as nat)));
        assert(word_counts(ws).take(k + 1) =~= word_counts(ws).take(k as int).push(word_counts(ws)[k as int]));
        assert(count_views(r@) =~= word_counts(ws).take(k + 1));
        k += 1;
    }
    assert(word_counts(ws).take(order@.len() as int) =~= word_counts(ws));
    r
}

/// The sum of the squares of the numbers, chunk by chunk on all cores.
pub fn batch_sum_of_squares(numbers: Vec<i64>, chunk_size: usize) -> (r: i64)
    requires
        chunk_size > 0,
        square_sum_of(numbers@) <= i64::MAX,
    ensures
        r == square_sum_of(numbers@),
{
    par_chunked_square_sum(numbers.as_slice(), chunk_size)
}

/// The sum of the squares of the numbers, on all cores.
pub fn batch_process_with_progress(data: Vec<i64>) -> (r: i64)
    requires
        square_sum_of(data@) <= i64::MAX,
    ensures
        r == square_sum_of(data@),
{
    par_square_sum_of(data.as_slice())
}

/// The numbers of physical and of logical processors; both at least 1.
pub fn get_worker_info() -> (r: (usize, usize))
    ensures
        r.0 >= 1,
        r.1 >= 1,
{
    let physical = physical_cpus();
    let logical = logical_cpus();
    (physical, logical)
}

// ---------------------------------------------------------------------------
// Laws relating the fast operations
// ---------------------------------------------------------------------------

/// The one-at-a-time wrapping loop and the parallel sum of squares agree
/// wherever the sum fits in 64 bits.
pub proof fn lemma_heavy_loop_agrees_with_sum_of_squares(n: nat)
    requires
        square_sum_below(n) <= u64::MAX,
    ensures
        square_sum_below(n) % u64_modulus() == square_sum_below(n),
{
    vstd::arithmetic::div_mod::lemma_small_mod(square_sum_below(n), u64_modulus());
}

/// The numbers `0, 1, ..., n - 1` as `i64`s.
pub open spec fn numbers_below(n: nat) -> Seq<i64> {
    Seq::new(n, |i: int| i as i64)
}

/// Batch-summing the squares of the list `0..n` gives the sum of squares
/// of `0..n`: the parallel and the single-threaded routes of the scaling
/// test compute the same total.
pub proof fn lemma_batch_over_range_is_sum_of_squares(n: nat)
    requires
        n <= i64::MAX + 1,
    ensures
        square_sum_of(numbers_below(n)) == square_sum_below(n),
    decreases n,
{
    if n > 0 {
        lemma_batch_over_range_is_sum_of_squares((n - 1) as nat);
        assert(numbers_below(n).drop_last() =~= numbers_below((n - 1) as nat));
        assert(numbers_below(n).last() == (n - 1) as i64);
    }
}

/// The wrapping Fibonacci of the Python module and the checked Fibonacci of
/// the Node.js module agree wherever the latter is defined.
pub proof fn lemma_fibonacci_versions_agree(n: nat)
    requires
        fib(n + 1) <= i64::MAX,
    ensures
        fib(n) % u64_modulus() == fib(n),
{
    lemma_fib_monotone(n, n + 1);
    vstd::arithmetic::div_mod::lemma_small_mod(fib(n), u64_modulus());
}

/// The range sum has the closed form n(n - 1) / 2.
pub proof fn lemma_range_sum_closed_form(n: nat)
    ensures
        2 * range_sum_below(n) == n * (n - 1),
    decreases n,
{
    if n > 0 {
        let m = (n - 1) as nat;
        lemma_range_sum_closed_form(m);
        assert(range_sum_below(n) == range_sum_below(m) + m);
        assert(2 * range_sum_below(m) == m * (m - 1));
        let a = range_sum_below(n) as int;
        let b = range_sum_below(m) as int;
        let mi = m as int;
        assert(2 * a == (mi + 1) * mi) by (nonlinear_arith)
            requires
                2 * b == mi * (mi - 1),
                a == b + mi,
        ;
        assert(n * (n - 1) == (mi + 1) * mi);
    } else {
        assert(n * (n - 1) == 0) by (nonlinear_arith)
            requires
                n == 0,
        ;
    }
}

/// The square sum has the closed form (n - 1)n(2n - 1) / 6.
pub proof fn lemma_square_sum_closed_form(n: nat)
    ensures
        6 * square_sum_below(n) == (n - 1) * n * (2 * n - 1),
    decreases n,
{
    if n > 0 {
        let m = (n - 1) as nat;
        lemma_square_sum_closed_form(m);
        assert(square_sum_below(n) == square_sum_below(m) + m * m);
        let a = square_sum_below(n) as int;
        let b = square_sum_below(m) as int;
        let mi = m as int;
        assert(6 * b == (mi - 1) * mi * (2 * mi - 1));
        assert(6 * a == mi * (mi + 1) * (2 * mi + 1)) by (nonlinear_arith)
            requires
                6 * b == (mi - 1) * mi * (2 * mi - 1),
                a == b + mi * mi,
        ;
        assert((n - 1) * n * (2 * n - 1) == mi * (mi + 1) * (2 * mi + 1));
    } else {
        assert((n - 1) * n * (2 * n - 1) == 0) by (nonlinear_arith)
            requires
                n == 0,
        ;
    }
}

// ---------------------------------------------------------------------------
// Whether results fit: the conditions of the operations above, decided
// without overflow.
// ---------------------------------------------------------------------------

/// Whether the sum of the squares of `0..n` fits in a `u64`.
pub fn square_sum_fits_u64(n: u64) -> (b: bool)
    ensures
        b == (square_sum_below(n as nat) <= u64::MAX),
{
    proof {
        lemma_square_sum_closed_form(n as nat);
    }
    if n == 0 {
        return true;
    }
    if n > 0x400_0000_0000 {
        assert((n - 1) * n * (2 * n - 1) > 6 * u64::MAX) by (nonlinear_arith)
            requires
                n > 0x400_0000_0000,
        ;
        return false;
    }
    let m = n as u128;
    assert((m - 1) * m <= 0x10_0000_0000_0000_0000_0000) by (nonlinear_arith)
        requires
            1 <= m <= 0x400_0000_0000,
    ;
    assert((m - 1) * m * (2 * m - 1) <= 0x8000_0000_0000_0000_0000_0000_0000_0000) by (nonlinear_arith)
        requires
            1 <= m <= 0x400_0000_0000,
    ;
    let p = (m - 1) * m * (2 * m - 1);
    p / 6 <= 0xffff_ffff_ffff_ffff
}

/// Whether the sum of `0..n` fits in a `u64`.
pub fn range_sum_fits_u64(n: u64) -> (b: bool)
    ensures
        b == (range_sum_below(n as nat) <= u64::MAX),
{
    proof {
        lemma_range_sum_closed_form(n as nat);
    }
    if n == 0 {
        return true;
    }
    let m = n as u128;
    assert((m - 1) * m < 0x1_0000_0000_0000_0000_0000_0000_0000_0000) by (nonlinear_arith)
        requires
            1 <= m <= u64::MAX,
    ;
    let p = (m - 1) * m;
    assert(p == n * (n - 1)) by (nonlinear_arith)
        requires
            p == (m - 1) * m,
            m == n,
    ;
    p / 2 <= 0xffff_ffff_ffff_ffff
}

/// Whether the sum of the squares of the numbers fits in an `i64`.
pub fn square_sum_fits_i64(data: &[i64]) -> (b: bool)
    ensures
        b == (square_sum_of(data@) <= i64::MAX),
{
    let mut total: i128 = 0;
    let mut i: usize = 0;
    while i < data.len()
        invariant
            0 <= i <= data@.len(),
            total == square_sum_of(data@.take(i as int)),
            0 <= total <= i64::MAX,
        decreases data@.len() - i,
    {
        assert(data@.take(i + 1).drop_last() =~= data@.take(i as int));
        assert(data@.take(i + 1).last() == data@[i as int]);
        let x = data[i] as i128;
        assert(x * x <= 0x4000_0000_0000_0000_0000_0000_0000_0000) by (nonlinear_arith)
            requires
                -0x8000_0000_0000_0000 <= x <= 0x7fff_ffff_ffff_ffff,
        ;
        assert(x * x >= 0) by (nonlinear_arith);
        total = total + x * x;
        if total > 0x7fff_ffff_ffff_ffff {
            proof {
                lemma_square_sum_prefix(data@, i + 1);
            }
            return false;
        }
        i += 1;
    }
    assert(data@.take(data@.len() as int) =~= data@);
    true
}

} // verus!
