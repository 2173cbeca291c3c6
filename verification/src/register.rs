//! A four-lane vector register of 64-bit integers.

use vstd::prelude::*;
use crate::arith::wadd;

verus! {

/// The number of 64-bit lanes in one register.
pub const LANES: usize = 4;

/// The lane-by-lane wrapping sum of two equally long sequences.
pub open spec fn lanewise_sum(a: Seq<i64>, b: Seq<i64>) -> Seq<i64>
    recommends
        a.len() == b.len(),
{
    Seq::new(a.len(), |i: int| wadd(a[i], b[i]))
}

/// Four packed 64-bit integers that are added lane by lane.
///
/// A register is made from exactly four scalars, combined with other
/// registers by `vector_add`, and read back only through `extract`.
#[derive(Clone, Copy, Debug, PartialEq, Eq)]
pub struct Register {
    l0: i64,
    l1: i64,
    l2: i64,
    l3: i64,
}

impl View for Register {
    type V = Seq<i64>;

    /// The lanes in lane order.
    closed spec fn view(&self) -> Seq<i64> {
        seq![self.l0, self.l1, self.l2, self.l3]
    }
}

impl Register {
    /// Every register holds exactly `LANES` lanes.
    pub proof fn lemma_width(self)
        ensures
            self@.len() == LANES,
    {
    }

    /// Packs four scalars; the first argument becomes lane 0.
    pub fn pack(a: i64, b: i64, c: i64, d: i64) -> (r: Register)
        ensures
            r@ == seq![a, b, c, d],
    {
        Register { l0: a, l1: b, l2: c, l3: d }
    }

    /// Adds two registers lane by lane; each lane wraps on its own.
    pub fn vector_add(self, rhs: Register) -> (r: Register)
        ensures
            r@ == lanewise_sum(self@, rhs@),
    {
        let r = Register {
            l0: self.l0.wrapping_add(rhs.l0),
            l1: self.l1.wrapping_add(rhs.l1),
            l2: self.l2.wrapping_add(rhs.l2),
            l3: self.l3.wrapping_add(rhs.l3),
        };
        assert(r@ =~= lanewise_sum(self@, rhs@));
        r
    }

    /// Reads the four lanes back as scalars, in lane order.
    pub fn extract(self) -> (lanes: (i64, i64, i64, i64))
        ensures
            lanes == (self@[0], self@[1], self@[2], self@[3]),
    {
        (self.l0, self.l1, self.l2, self.l3)
    }
}

} // verus!
