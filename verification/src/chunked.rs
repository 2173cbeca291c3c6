//! The chunked sum as a mathematical function, and what holds of it.

use vstd::prelude::*;
use crate::arith::{
    lemma_scalar_fold_is_wrapped_total, lemma_total_concat, lemma_wadd_is_wrapped_sum,
    lemma_wrap_absorb, lemma_wrap_in_range, scalar_fold, total, wrap,
};
use crate::blocks::{block, block_count, block_start, lemma_block_widths, WIDTH};
use crate::reduce::{lemma_reduce_is_wrapped_total, reduce, takes_fast_path};

verus! {

/// The scalars that the blocks of `s` are reduced to, in block order.
pub open spec fn block_sums(s: Seq<i64>) -> Seq<i64> {
    Seq::new(block_count(s.len()), |k: int| reduce(block(s, k)))
}

/// The chunked sum of `s`: the per-block scalars, folded in block order.
pub open spec fn chunked_sum(s: Seq<i64>) -> i64 {
    scalar_fold(block_sums(s))
}

/// Folding the scalars of the first `k` blocks gives the exact sum of the
/// elements before block `k`, reduced to 64 bits.
pub proof fn lemma_chunked_prefix(s: Seq<i64>, k: int)
    requires
        0 <= k <= block_count(s.len()),
    ensures
        scalar_fold(block_sums(s).take(k)) == wrap(total(s.take(block_start(s.len(), k)))),
    decreases k,
{
    let sums = block_sums(s);
    if k == 0 {
        lemma_wrap_in_range(0);
    } else {
        let before = s.take(block_start(s.len(), k - 1));
        lemma_chunked_prefix(s, k - 1);
        assert(sums.take(k).drop_last() =~= sums.take(k - 1));
        lemma_reduce_is_wrapped_total(block(s, k - 1));
        lemma_wadd_is_wrapped_sum(scalar_fold(sums.take(k - 1)), reduce(block(s, k - 1)));
        lemma_wrap_absorb(total(before), total(block(s, k - 1)));
        assert(before + block(s, k - 1) =~= s.take(block_start(s.len(), k)));
        lemma_total_concat(before, block(s, k - 1));
    }
}

/// The chunked sum is the exact sum reduced to 64 bits.
pub proof fn lemma_chunked_sum_is_wrapped_total(s: Seq<i64>)
    ensures
        chunked_sum(s) == wrap(total(s)),
{
    let n = block_count(s.len()) as int;
    lemma_chunked_prefix(s, n);
    assert(block_sums(s).take(n) =~= block_sums(s));
    assert(s.take(block_start(s.len(), n)) =~= s);
}

/// On every sequence the chunked sum equals the sequential left-to-right
/// fold: the register path and the fallback path cannot be told apart by
/// their results.
pub proof fn lemma_chunked_sum_is_scalar_fold(s: Seq<i64>)
    ensures
        chunked_sum(s) == scalar_fold(s),
{
    lemma_chunked_sum_is_wrapped_total(s);
    lemma_scalar_fold_is_wrapped_total(s);
}

/// Both sums of the empty sequence are zero.
pub proof fn lemma_empty_sums_to_zero(s: Seq<i64>)
    requires
        s.len() == 0,
    ensures
        chunked_sum(s) == 0,
        scalar_fold(s) == 0,
        block_count(s.len()) == 0,
{
    assert(block_sums(s).len() == 0);
}

/// Where the length is a multiple of the block width, every block takes the
/// register path, and the chunked sum still equals the sequential fold.
pub proof fn lemma_exact_multiple_takes_fast_path(s: Seq<i64>)
    requires
        s.len() % (WIDTH as nat) == 0,
    ensures
        block_count(s.len()) == s.len() / (WIDTH as nat),
        forall|k: int| 0 <= k < block_count(s.len()) ==> takes_fast_path(#[trigger] block(s, k)),
        chunked_sum(s) == scalar_fold(s),
{
    assert forall|k: int| 0 <= k < block_count(s.len()) implies takes_fast_path(
        #[trigger] block(s, k),
    ) by {
        lemma_block_widths(s, k);
    }
    lemma_chunked_sum_is_scalar_fold(s);
}

/// Where the length is not a multiple of the block width, exactly one block
/// takes the fallback path: the last one, which holds the remainder. Every
/// block before it takes the register path.
pub proof fn lemma_remainder_takes_fallback(s: Seq<i64>)
    requires
        s.len() % (WIDTH as nat) != 0,
    ensures
        block_count(s.len()) == s.len() / (WIDTH as nat) + 1,
        forall|k: int|
            0 <= k < block_count(s.len()) ==> (takes_fast_path(#[trigger] block(s, k)) <==> k
                != block_count(s.len()) - 1),
        block(s, block_count(s.len()) - 1).len() == s.len() % (WIDTH as nat),
{
    assert forall|k: int| 0 <= k < block_count(s.len()) implies (takes_fast_path(
        #[trigger] block(s, k),
    ) <==> k != block_count(s.len()) - 1) by {
        lemma_block_widths(s, k);
    }
    lemma_block_widths(s, block_count(s.len()) - 1);
}

/// The chunked sum depends on the elements alone: two sequences with the same
/// elements have the same sum, by either way of summing.
pub proof fn lemma_sums_are_functions_of_contents(a: Seq<i64>, b: Seq<i64>)
    requires
        a.len() == b.len(),
        forall|i: int| 0 <= i < a.len() ==> a[i] == b[i],
    ensures
        chunked_sum(a) == chunked_sum(b),
        scalar_fold(a) == scalar_fold(b),
{
    assert(a =~= b);
}

} // verus!
