//! Data-parallel loops run with `rayon`, and the processor counts of
//! `num_cpus`.

use vstd::prelude::*;
use rayon::iter::IntoParallelIterator;
use rayon::iter::IntoParallelRefIterator;
use rayon::iter::ParallelIterator;
use rayon::slice::ParallelSlice;
use crate::fast_ops::square_sum_below;
use crate::fast_ops::square_sum_of;
use crate::fast_ops::primes_below;
use crate::fast_ops::trial_division_overflows;
use crate::fast_ops::wrapping_square;
use crate::fast_ops::square_i64;
use crate::fast_ops::square_sum;
use crate::fast_ops::exceeds;
use crate::fast_ops::is_prime;

verus! {

/// Runs `(0..n).into_par_iter().map(wrapping_square).sum()` with rayon.
/// Claimed: the parallel sum is the sum of the squares of `0..n`. Rayon adds
/// with `+`, which fails on overflow in debug builds, so the sum must fit.
#[verifier::external_body]
pub(crate) fn par_square_sum_below(n: u64) -> (r: u64)
    requires
        square_sum_below(n as nat) <= u64::MAX,
    ensures
        r == square_sum_below(n as nat),
{
    (0..n).into_par_iter().map(|i| wrapping_square(i)).sum()
}

/// Runs `(0..n).into_par_iter().map(|i| i * i).sum()` over `i64` with
/// rayon. Claimed: the sum of the squares of `0..n` (nothing when `n <= 0`);
/// the additions fail on overflow in debug builds, so the sum must fit.
#[verifier::external_body]
pub(crate) fn par_square_sum_below_i64(n: i64) -> (r: i64)
    requires
        n <= 0 || square_sum_below(n as nat) <= i64::MAX,
    ensures
        r == (if n <= 0 { 0 } else { square_sum_below(n as nat) as int }),
{
    (0..n).into_par_iter().map(|i| square_i64(i)).sum()
}

/// Runs `(2..n).into_par_iter().filter(is_prime).count()` with rayon.
/// Claimed: the count is that of the primes below `n`.
#[verifier::external_body]
pub(crate) fn par_count_primes_below(n: u64) -> (r: usize)
    requires
        forall|x: nat| 2 <= x < n ==> !trial_division_overflows(x),
    ensures
        r == primes_below(n as nat),
{
    (2..n).into_par_iter().filter(|&x| is_prime(x)).count()
}

/// Runs `nums.into_par_iter().filter(|x| x > threshold).collect()` with
/// rayon. Claimed: the numbers above the threshold, in their order (rayon
/// collects into a vector in iteration order).
#[verifier::external_body]
pub(crate) fn par_keep_above(nums: Vec<i64>, threshold: i64) -> (r: Vec<i64>)
    ensures
        r@ == nums@.filter(|x: i64| x > threshold),
{
    nums.into_par_iter().filter(|&x| exceeds(x, threshold)).collect()
}

/// Runs `numbers.par_chunks(chunk).map(square_sum).sum()` with rayon.
/// Claimed: the sum of the squares of all numbers. Chunks of size 0 make
/// rayon panic, and the sums must fit (squares are never negative, so every
/// partial sum is at most the total).
#[verifier::external_body]
pub(crate) fn par_chunked_square_sum(numbers: &[i64], chunk: usize) -> (r: i64)
    requires
        chunk > 0,
        square_sum_of(numbers@) <= i64::MAX,
    ensures
        r == square_sum_of(numbers@),
{
    numbers.par_chunks(chunk).map(|c| square_sum(c)).sum()
}

/// Runs `data.par_iter().map(|x| x * x).sum()` with rayon. Claimed: the sum
/// of the squares of all numbers, which must fit.
#[verifier::external_body]
pub(crate) fn par_square_sum_of(data: &[i64]) -> (r: i64)
    requires
        square_sum_of(data@) <= i64::MAX,
    ensures
        r == square_sum_of(data@),
{
    data.par_iter().map(|&x| square_i64(x)).sum()
}

/// Calls `num_cpus::get`. Claimed, as its documentation says: at least 1.
/// The count depends on the machine and is otherwise left unsaid.
#[verifier::external_body]
pub(crate) fn logical_cpus() -> (r: usize)
    ensures
        r >= 1,
{
    num_cpus::get()
}

/// Calls `num_cpus::get_physical`. Claimed, as its documentation says: at
/// least 1. The count depends on the machine and is otherwise left unsaid.
#[verifier::external_body]
pub(crate) fn physical_cpus() -> (r: usize)
    ensures
        r >= 1,
{
    num_cpus::get_physical()
}

} // verus!
