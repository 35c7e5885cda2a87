//! The native fast operations offered to Node.js code.

use vstd::prelude::*;
use crate::fast_ops::range_sum_below;
use crate::fast_ops::square_sum_below;
use crate::fast_ops::square_sum_of;
use crate::fast_ops::fib;
use crate::fast_ops::concat_all;
use crate::text::string_views;
use crate::fast_ops::word_counts;
use crate::fast_ops::count_views;
use crate::fast_ops::lemma_word_counts_bounded;
use crate::parallel::par_square_sum_below_i64;
use crate::parallel::par_chunked_square_sum;
use crate::parallel::logical_cpus;

verus! {

/// Sum of the squares of `0..n` (0 when `n <= 0`), computed on all cores.
pub fn sum_of_squares(n: i64) -> (r: i64)
    requires
        n <= 0 || square_sum_below(n as nat) <= i64::MAX,
    ensures
        r == (if n <= 0 { 0 } else { square_sum_below(n as nat) as int }),
{
    par_square_sum_below_i64(n)
}

proof fn lemma_range_sum_grows(a: nat, b: nat)
    requires
        a <= b,
    ensures
        range_sum_below(a) <= range_sum_below(b),
    decreases b,
{
    if a < b {
        lemma_range_sum_grows(a, (b - 1) as nat);
    }
}

/// Sum of `0..n` (0 when `n <= 0`).
pub fn fast_range_sum(n: i64) -> (r: i64)
    requires
        n <= 0 || range_sum_below(n as nat) <= i64::MAX,
    ensures
        r == (if n <= 0 { 0 } else { range_sum_below(n as nat) as int }),
{
    let mut total: i64 = 0;
    let mut i: i64 = 0;
    while i < n
        invariant
            0 <= i,
            n > 0 ==> i <= n,
            n <= 0 ==> i == 0,
            total == range_sum_below(i as nat),
            n <= 0 || range_sum_below(n as nat) <= i64::MAX,
        decreases n - i,
    {
        proof {
            lemma_range_sum_grows((i + 1) as nat, n as nat);
        }
        total = total + i;
        i += 1;
    }
    if n > 0 {
        assert(i == n);
        assert(total == range_sum_below(n as nat));
    } else {
        assert(i == 0);
        assert(total == 0);
    }
    total
}

proof fn lemma_fib_grows(a: nat, b: nat)
    requires
        a <= b,
    ensures
        fib(a) <= fib(b),
    decreases b,
{
    if a < b {
        lemma_fib_grows(a, (b - 1) as nat);
        if b >= 2 {
            assert(fib(b) == fib((b - 2) as nat) + fib((b - 1) as nat));
        }
    }
}

/// The `n`-th Fibonacci number. The loop also computes the next one, which
/// must fit in an `i64`.
pub fn fibonacci(n: u32) -> (r: i64)
    requires
        fib((n + 1) as nat) <= i64::MAX,
    ensures
        r == fib(n as nat),
{
    let mut a: i64 = 0;
    let mut b: i64 = 1;
    let mut i: u32 = 0;
    while i < n
        invariant
            i <= n,
            a == fib(i as nat),
            b == fib((i + 1) as nat),
            fib((n + 1) as nat) <= i64::MAX,
        decreases n - i,
    {
        proof {
            assert(fib((i + 2) as nat) == fib(i as nat) + fib((i + 1) as nat));
            lemma_fib_grows((i + 2) as nat, (n + 1) as nat);
        }
        let t = a;
        a = b;
        b = t + b;
        i += 1;
    }
    a
}

/// Concatenates the parts into one string.
pub fn fast_string_join(parts: Vec<String>) -> (r: String)
    ensures
        r@ == concat_all(string_views(parts@)),
{
    crate::fast_ops::fast_string_join(parts)
}

/// The views of counted words with signed counts.
pub open spec fn signed_count_views(v: Seq<(String, i64)>) -> Seq<(Seq<char>, nat)> {
    v.map_values(|p: (String, i64)| (p.0@, p.1 as nat))
}

/// Counts how often each word occurs, listing words in order of first
/// occurrence.
pub fn fast_word_count(words: Vec<String>) -> (r: Vec<(String, i64)>)
    requires
        words@.len() <= i64::MAX,
    ensures
        signed_count_views(r@) == word_counts(string_views(words@)),
{
    let n = words.len();
    let ghost ws = string_views(words@);
    let counted = crate::fast_ops::fast_word_count(words);
    proof {
        lemma_word_counts_bounded(ws);
        assert forall|q: int| 0 <= q < counted@.len() implies #[trigger] counted@[q].1 <= n by {
            assert(ws.len() == n);
            assert(count_views(counted@).len() == counted@.len());
            assert(count_views(counted@)[q] == word_counts(ws)[q]);
            assert(count_views(counted@)[q].1 == counted@[q].1 as nat);
        }
    }
    let mut r: Vec<(String, i64)> = Vec::new();
    let mut k: usize = 0;
    while k < counted.len()
        invariant
            0 <= k <= counted@.len(),
            n <= i64::MAX,
            count_views(counted@) == word_counts(ws),
            forall|q: int| 0 <= q < counted@.len() ==> #[trigger] counted@[q].1 <= n,
            signed_count_views(r@) == count_views(counted@).take(k as int),
        decreases counted@.len() - k,
    {
        let (w, c) = (&counted[k].0, counted[k].1);
        let ghost before = signed_count_views(r@);
        r.push((w.clone(), c as i64));
        assert(signed_count_views(r@) =~= before.push((w@, c as nat)));
        assert(count_views(counted@).take(k + 1) =~= count_views(counted@).take(k as int).push(
            count_views(counted@)[k as int],
        ));
        k += 1;
    }
    assert(count_views(counted@).take(counted@.len() as int) =~= count_views(counted@));
    r
}

/// The sum of the squares of the numbers, in chunks of 50 000 on all cores.
pub fn batch_sum_of_squares(numbers: Vec<i64>) -> (r: i64)
    requires
        square_sum_of(numbers@) <= i64::MAX,
    ensures
        r == square_sum_of(numbers@),
{
    par_chunked_square_sum(numbers.as_slice(), 50_000)
}

/// A processor count cut down to 32 bits, as `as u32` does.
pub open spec fn count_as_u32(c: usize) -> u32 {
    c as u32
}

/// The number of logical processors, as a `u32`.
pub fn get_worker_info() -> (r: u32)
    ensures
        exists|c: usize| c >= 1 && r == #[trigger] count_as_u32(c),
{
    let c = logical_cpus();
    assert(count_as_u32(c) == c as u32);
    c as u32
}

/// Whether the sum of the squares of `0..n` fits in an `i64` (always, for
/// `n <= 0`).
pub fn square_sum_fits_i64(n: i64) -> (b: bool)
    ensures
        b == (n <= 0 || square_sum_below(n as nat) <= i64::MAX),
{
    if n <= 0 {
        return true;
    }
    proof {
        crate::fast_ops::lemma_square_sum_closed_form(n as nat);
    }
    if n > 0x400_0000_0000 {
        assert((n - 1) * n * (2 * n - 1) > 6 * i64::MAX) by (nonlinear_arith)
            requires
                n > 0x400_0000_0000,
        ;
        return false;
    }
    let m = n as i128;
    assert((m - 1) * m <= 0x10_0000_0000_0000_0000_0000) by (nonlinear_arith)
        requires
            1 <= m <= 0x400_0000_0000,
    ;
    assert((m - 1) * m * (2 * m - 1) <= 0x8000_0000_0000_0000_0000_0000_0000_0000 - 1) by (nonlinear_arith)
        requires
            1 <= m <= 0x400_0000_0000,
    ;
    let p = (m - 1) * m * (2 * m - 1);
    p / 6 <= 0x7fff_ffff_ffff_ffff
}

/// Whether the sum of `0..n` fits in an `i64` (always, for `n <= 0`).
pub fn range_sum_fits_i64(n: i64) -> (b: bool)
    ensures
        b == (n <= 0 || range_sum_below(n as nat) <= i64::MAX),
{
    if n <= 0 {
        return true;
    }
    proof {
        crate::fast_ops::lemma_range_sum_closed_form(n as nat);
    }
    let m = n as i128;
    assert((m - 1) * m < 0x4000_0000_0000_0000_0000_0000_0000_0000) by (nonlinear_arith)
        requires
            1 <= m <= i64::MAX,
    ;
    let p = (m - 1) * m;
    assert(p == n * (n - 1)) by (nonlinear_arith)
        requires
            p == (m - 1) * m,
            m == n,
    ;
    p / 2 <= 0x7fff_ffff_ffff_ffff
}

/// Whether [`fibonacci`] can compute the `n`-th number: the one after it
/// must fit in an `i64`.
pub fn fibonacci_fits(n: u32) -> (b: bool)
    ensures
        b == (fib((n + 1) as nat) <= i64::MAX),
{
    let mut a: u128 = 0;
    let mut b: u128 = 1;
    let mut i: u32 = 0;
    while i < n
        invariant
            i <= n,
            a == fib(i as nat),
            b == fib((i + 1) as nat),
            b <= i64::MAX,
        decreases n - i,
    {
        proof {
            assert(fib((i + 2) as nat) == fib(i as nat) + fib((i + 1) as nat));
        }
        let c = a + b;
        if c > 0x7fff_ffff_ffff_ffff {
            proof {
                lemma_fib_grows((i + 2) as nat, (n + 1) as nat);
            }
            return false;
        }
        a = b;
        b = c;
        i += 1;
    }
    true
}

} // verus!
