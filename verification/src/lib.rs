//! Chunked summation of signed 64-bit integers.
//!
//! A sequence is cut into blocks of sixteen elements. A full block is reduced
//! through four-lane registers, a shorter one by a sequential fold, and the
//! per-block results are accumulated in block order. All additions wrap, so
//! every function is total and the chunked sum equals the sequential one on
//! every input.

use vstd::prelude::*;

pub mod arith;
pub mod blocks;
pub mod chunked;
pub mod reduce;
pub mod register;

use crate::arith::{lemma_scalar_fold_is_wrapped_total, scalar_fold, total, wrap};
use crate::blocks::{block_count, Blocks};
use crate::chunked::{block_sums, chunked_sum, lemma_chunked_sum_is_wrapped_total};
use crate::reduce::{regular_math, scalar_math, simd_math};

verus! {

/// Sums `nums` from left to right, one element at a time.
///
/// Additions wrap, so the result is the exact sum reduced to 64 bits, and the
/// exact sum itself wherever that fits.
pub fn sum_up(nums: Vec<i64>) -> (sum: i64)
    ensures
        sum == scalar_fold(nums@),
        sum == wrap(total(nums@)),
        i64::MIN <= total(nums@) <= i64::MAX ==> sum == total(nums@),
        nums@.len() == 0 ==> sum == 0,
{
    scalar_math(nums.as_slice())
}

/// Sums `nums` block by block: each full block through the register path,
/// a trailing shorter block sequentially, the per-block sums accumulated in
/// block order.
///
/// The result is that of `sum_up` on the same elements, for every input.
pub fn simd_sum_up(nums: Vec<i64>) -> (sum: i64)
    ensures
        sum == chunked_sum(nums@),
        sum == scalar_fold(nums@),
        sum == wrap(total(nums@)),
        i64::MIN <= total(nums@) <= i64::MAX ==> sum == total(nums@),
        nums@.len() == 0 ==> sum == 0,
{
    let mut cursor = Blocks::new(nums.as_slice());
    let mut acc: i64 = 0;
    loop
        invariant
            cursor.position() <= block_count(nums@.len()),
            cursor.source() == nums@,
            acc == scalar_fold(block_sums(nums@).take(cursor.position() as int)),
        ensures
            cursor.position() == block_count(nums@.len()),
        decreases block_count(nums@.len()) - cursor.position(),
    {
        let ghost k = cursor.position() as int;
        match cursor.next_block() {
            Some(block) => {
                let part = simd_math(block);
                proof {
                    let sums = block_sums(nums@);
                    assert(sums.take(k + 1).drop_last() =~= sums.take(k));
                }
                acc = regular_math(acc, part);
            },
            None => {
                break ;
            },
        }
    }
    proof {
        assert(block_sums(nums@).take(cursor.position() as int) =~= block_sums(nums@));
        lemma_chunked_sum_is_wrapped_total(nums@);
        lemma_scalar_fold_is_wrapped_total(nums@);
    }
    acc
}

} // verus!
