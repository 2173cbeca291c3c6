//! Reducing one block to a scalar: through registers where the block is full,
//! by a sequential fold where it is not.

use vstd::prelude::*;
use crate::arith::{
    lemma_scalar_fold_is_wrapped_total, lemma_total_concat, lemma_wadd_is_wrapped_sum,
    lemma_wrap_absorb, scalar_fold, total, wadd, wrap,
};
use crate::blocks::WIDTH;
use crate::register::{lanewise_sum, Register};

verus! {

/// Whether a block is reduced through registers: it is, exactly when it has
/// the full width.
pub open spec fn takes_fast_path(block: Seq<i64>) -> bool {
    block.len() == WIDTH
}

/// What the register path computes on a full block: the four quarters of the
/// block are added lane by lane as a tree, the first to the second and the
/// third to the fourth, then the two sums; the four lanes that result are
/// folded in lane order.
pub open spec fn vector_reduce(block: Seq<i64>) -> i64
    recommends
        block.len() == WIDTH,
{
    let low = lanewise_sum(block.subrange(0, 4), block.subrange(4, 8));
    let high = lanewise_sum(block.subrange(8, 12), block.subrange(12, 16));
    scalar_fold(lanewise_sum(low, high))
}

/// The scalar that a block is reduced to, by the path that the block takes.
pub open spec fn reduce(block: Seq<i64>) -> i64 {
    if takes_fast_path(block) {
        vector_reduce(block)
    } else {
        scalar_fold(block)
    }
}

/// Up to wrapping, the lanes of a lane-wise sum add up to what the lanes of
/// the two operands add up to.
pub proof fn lemma_lanewise_sum_total(a: Seq<i64>, b: Seq<i64>)
    requires
        a.len() == b.len(),
    ensures
        wrap(total(lanewise_sum(a, b))) == wrap(total(a) + total(b)),
    decreases a.len(),
{
    let sum = lanewise_sum(a, b);
    if a.len() > 0 {
        assert(sum.drop_last() =~= lanewise_sum(a.drop_last(), b.drop_last()));
        lemma_lanewise_sum_total(a.drop_last(), b.drop_last());
        lemma_wadd_is_wrapped_sum(a.last(), b.last());
        lemma_wrap_absorb(total(sum.drop_last()), a.last() + b.last());
        lemma_wrap_absorb(total(a.drop_last()) + total(b.drop_last()), a.last() + b.last());
    }
}

/// On a full block the register path computes the exact sum of the block,
/// reduced to 64 bits.
pub proof fn lemma_vector_reduce_is_wrapped_total(block: Seq<i64>)
    requires
        block.len() == WIDTH,
    ensures
        vector_reduce(block) == wrap(total(block)),
{
    let q0 = block.subrange(0, 4);
    let q1 = block.subrange(4, 8);
    let q2 = block.subrange(8, 12);
    let q3 = block.subrange(12, 16);
    let low = lanewise_sum(q0, q1);
    let high = lanewise_sum(q2, q3);
    lemma_scalar_fold_is_wrapped_total(lanewise_sum(low, high));
    lemma_lanewise_sum_total(low, high);
    lemma_lanewise_sum_total(q0, q1);
    lemma_lanewise_sum_total(q2, q3);
    lemma_wrap_absorb(total(low), total(high));
    lemma_wrap_absorb(total(q0) + total(q1), total(q2) + total(q3));
    assert(block =~= q0 + q1 + q2 + q3);
    lemma_total_concat(q0, q1);
    lemma_total_concat(q0 + q1, q2);
    lemma_total_concat(q0 + q1 + q2, q3);
}

/// The two paths agree: on a full block the register path gives what the
/// sequential fold gives.
pub proof fn lemma_vector_reduce_is_scalar_fold(block: Seq<i64>)
    requires
        block.len() == WIDTH,
    ensures
        vector_reduce(block) == scalar_fold(block),
{
    lemma_vector_reduce_is_wrapped_total(block);
    lemma_scalar_fold_is_wrapped_total(block);
}

/// Whichever path a block takes, it is reduced to its exact sum, reduced to
/// 64 bits, which is also what the sequential fold gives.
pub proof fn lemma_reduce_is_wrapped_total(block: Seq<i64>)
    ensures
        reduce(block) == wrap(total(block)),
        reduce(block) == scalar_fold(block),
{
    lemma_scalar_fold_is_wrapped_total(block);
    if takes_fast_path(block) {
        lemma_vector_reduce_is_wrapped_total(block);
    }
}

/// Adds `x` to the accumulator `a`, wrapping.
pub fn regular_math(a: i64, x: i64) -> (sum: i64)
    ensures
        sum == wrap(a + x),
        i64::MIN <= a + x <= i64::MAX ==> sum == a + x,
{
    a.wrapping_add(x)
}

/// Folds a slice from left to right with `regular_math`, starting from zero.
pub fn scalar_math(slice: &[i64]) -> (sum: i64)
    ensures
        sum == scalar_fold(slice@),
        sum == wrap(total(slice@)),
        i64::MIN <= total(slice@) <= i64::MAX ==> sum == total(slice@),
{
    let mut acc: i64 = 0;
    let mut i: usize = 0;
    while i < slice.len()
        invariant
            i <= slice@.len(),
            acc == scalar_fold(slice@.take(i as int)),
        decreases slice@.len() - i,
    {
        proof {
            let upto = slice@.take(i + 1);
            assert(upto.drop_last() =~= slice@.take(i as int));
        }
        acc = regular_math(acc, slice[i]);
        i = i + 1;
    }
    proof {
        assert(slice@.take(i as int) =~= slice@);
        lemma_scalar_fold_is_wrapped_total(slice@);
    }
    acc
}

/// Reduces one block to the sum of its elements. A block of full width goes
/// through four registers and three lane-wise additions; any other block is
/// folded sequentially.
pub fn simd_math(slice: &[i64]) -> (sum: i64)
    ensures
        sum == reduce(slice@),
        sum == wrap(total(slice@)),
        i64::MIN <= total(slice@) <= i64::MAX ==> sum == total(slice@),
{
    proof {
        lemma_reduce_is_wrapped_total(slice@);
    }
    if slice.len() == WIDTH {
        let vec1 = Register::pack(slice[0], slice[1], slice[2], slice[3]);
        let vec2 = Register::pack(slice[4], slice[5], slice[6], slice[7]);
        let vec3 = Register::pack(slice[8], slice[9], slice[10], slice[11]);
        let vec4 = Register::pack(slice[12], slice[13], slice[14], slice[15]);
        let folded = vec1.vector_add(vec2).vector_add(vec3.vector_add(vec4));
        let (r1, r2, r3, r4): (i64, i64, i64, i64) = folded.extract();
        proof {
            assert(vec1@ =~= slice@.subrange(0, 4));
            assert(vec2@ =~= slice@.subrange(4, 8));
            assert(vec3@ =~= slice@.subrange(8, 12));
            assert(vec4@ =~= slice@.subrange(12, 16));
            lemma_fold_of_four(folded@);
        }
        r1.wrapping_add(r2).wrapping_add(r3).wrapping_add(r4)
    } else {
        scalar_math(slice)
    }
}

/// The fold of four values, written out.
proof fn lemma_fold_of_four(s: Seq<i64>)
    requires
        s.len() == 4,
    ensures
        scalar_fold(s) == wadd(wadd(wadd(s[0], s[1]), s[2]), s[3]),
{
    let s3 = s.drop_last();
    let s2 = s3.drop_last();
    let s1 = s2.drop_last();
    assert(scalar_fold(s1.drop_last()) == 0);
    assert(scalar_fold(s1) == s[0]);
    assert(scalar_fold(s2) == wadd(s[0], s[1]));
    assert(scalar_fold(s3) == wadd(wadd(s[0], s[1]), s[2]));
}

} // verus!
