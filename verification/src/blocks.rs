//! Cutting a sequence into consecutive blocks of fixed width.

use vstd::prelude::*;
use vstd::slice::slice_subrange;

verus! {

/// The width of a full block.
pub const WIDTH: usize = 16;

/// How many blocks a sequence of `n` elements is cut into: one per full
/// `WIDTH` elements, and one more for a remainder that is not empty.
pub open spec fn block_count(n: nat) -> nat {
    if n % (WIDTH as nat) == 0 {
        n / (WIDTH as nat)
    } else {
        n / (WIDTH as nat) + 1
    }
}

/// The index in the sequence at which block `k` starts, capped at `n`.
pub open spec fn block_start(n: nat, k: int) -> int {
    if k * WIDTH <= n {
        k * WIDTH
    } else {
        n as int
    }
}

/// Block `k` of `s`: the elements from `block_start(k)` up to `block_start(k + 1)`.
pub open spec fn block(s: Seq<i64>, k: int) -> Seq<i64>
    recommends
        0 <= k,
{
    s.subrange(block_start(s.len(), k), block_start(s.len(), k + 1))
}

/// All blocks of `s`, in order.
pub open spec fn blocks(s: Seq<i64>) -> Seq<Seq<i64>> {
    Seq::new(block_count(s.len()), |k: int| block(s, k))
}

/// The widths of the blocks: each of the first `len / WIDTH` blocks is full,
/// and where a remainder is left, one more block holds exactly the remainder.
/// No block is empty.
pub proof fn lemma_block_widths(s: Seq<i64>, k: int)
    requires
        0 <= k < block_count(s.len()),
    ensures
        k < s.len() / (WIDTH as nat) ==> block(s, k).len() == WIDTH,
        k >= s.len() / (WIDTH as nat) ==> {
            &&& k == block_count(s.len()) - 1
            &&& s.len() % (WIDTH as nat) != 0
            &&& block(s, k).len() == s.len() % (WIDTH as nat)
        },
        1 <= block(s, k).len() <= WIDTH,
{
}

/// Block `k` holds the elements of `s` from index `k * WIDTH` on, in order.
pub proof fn lemma_block_elements(s: Seq<i64>, k: int, j: int)
    requires
        0 <= k < block_count(s.len()),
        0 <= j < block(s, k).len(),
    ensures
        k * WIDTH + j < s.len(),
        block(s, k)[j] == s[k * WIDTH + j],
{
}

/// The first `k` blocks, laid end to end, are the elements of `s` before the
/// start of block `k`.
pub proof fn lemma_blocks_prefix(s: Seq<i64>, k: int)
    requires
        0 <= k <= block_count(s.len()),
    ensures
        blocks(s).take(k).flatten() == s.take(block_start(s.len(), k)),
    decreases k,
{
    if k == 0 {
        assert(blocks(s).take(0).flatten() =~= s.take(0));
    } else {
        lemma_blocks_prefix(s, k - 1);
        assert(blocks(s).take(k) =~= blocks(s).take(k - 1).push(block(s, k - 1)));
        blocks(s).take(k - 1).lemma_flatten_push(block(s, k - 1));
        assert(s.take(block_start(s.len(), k - 1)) + block(s, k - 1) =~= s.take(
            block_start(s.len(), k),
        ));
    }
}

/// The blocks partition the sequence: laid end to end in order they are the
/// sequence itself, so no element is skipped, repeated or moved.
pub proof fn lemma_blocks_cover(s: Seq<i64>)
    ensures
        blocks(s).flatten() == s,
{
    let n = block_count(s.len()) as int;
    lemma_blocks_prefix(s, n);
    assert(blocks(s).take(n) =~= blocks(s));
    assert(s.take(block_start(s.len(), n)) =~= s);
}

/// A cursor over the blocks of a slice. It hands the blocks out one by one,
/// in order, and borrows the slice without copying it.
#[derive(Clone, Copy, Debug)]
pub struct Blocks<'a> {
    nums: &'a [i64],
    next: usize,
}

impl<'a> Blocks<'a> {
    /// The sequence that is being cut.
    pub closed spec fn source(&self) -> Seq<i64> {
        self.nums@
    }

    /// The index of the block that `next_block` hands out next.
    pub closed spec fn position(&self) -> nat {
        self.next as nat
    }

    /// A cursor that stands before the first block of `nums`.
    pub fn new(nums: &'a [i64]) -> (cursor: Blocks<'a>)
        ensures
            cursor.source() == nums@,
            cursor.position() == 0,
    {
        Blocks { nums, next: 0 }
    }

    /// The number of blocks that `nums` is cut into.
    pub fn count(&self) -> (n: usize)
        ensures
            n == block_count(self.source().len()),
    {
        let len = self.nums.len();
        if len % WIDTH == 0 {
            len / WIDTH
        } else {
            len / WIDTH + 1
        }
    }

    /// Hands out the next block and steps past it, or returns `None` once
    /// every block has been handed out.
    pub fn next_block(&mut self) -> (b: Option<&'a [i64]>)
        ensures
            final(self).source() == old(self).source(),
            old(self).position() < block_count(old(self).source().len()) ==> {
                &&& b is Some
                &&& b->0@ == block(old(self).source(), old(self).position() as int)
                &&& final(self).position() == old(self).position() + 1
            },
            old(self).position() >= block_count(old(self).source().len()) ==> {
                &&& b is None
                &&& final(self).position() == old(self).position()
            },
    {
        let len = self.nums.len();
        if self.next >= self.count() {
            return None;
        }
        let start = self.next * WIDTH;
        let end = if len - start < WIDTH {
            len
        } else {
            start + WIDTH
        };
        let b = slice_subrange(self.nums, start, end);
        self.next = self.next + 1;
        Some(b)
    }
}

} // verus!
