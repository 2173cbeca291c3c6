//! The arithmetic model: exact sums over the integers and their reduction to
//! sixty-four bits.

use vstd::prelude::*;
use vstd::arithmetic::div_mod::{lemma_fundamental_div_mod, lemma_mod_multiples_vanish};

verus! {

/// The number of values a 64-bit integer can take.
pub open spec fn modulus() -> int {
    0x1_0000_0000_0000_0000
}

/// The sum of the elements of `s` over the mathematical integers.
pub open spec fn total(s: Seq<i64>) -> int
    decreases s.len(),
{
    if s.len() == 0 {
        0
    } else {
        total(s.drop_last()) + s.last()
    }
}

/// The 64-bit two's-complement value congruent to `n`: the one integer in the
/// range of `i64` that differs from `n` by a multiple of `modulus()`.
pub open spec fn wrap(n: int) -> i64 {
    ((n + 0x8000_0000_0000_0000) % modulus() - 0x8000_0000_0000_0000) as i64
}

/// Wrapping addition of two 64-bit integers.
pub open spec fn wadd(a: i64, b: i64) -> i64 {
    vstd::wrapping::i64_specs::wrapping_add(a, b)
}

/// The left-to-right fold of `s` under wrapping addition, starting from zero.
pub open spec fn scalar_fold(s: Seq<i64>) -> i64
    decreases s.len(),
{
    if s.len() == 0 {
        0
    } else {
        wadd(scalar_fold(s.drop_last()), s.last())
    }
}

/// `wrap` leaves a value that already fits unchanged.
pub proof fn lemma_wrap_in_range(n: int)
    requires
        i64::MIN <= n <= i64::MAX,
    ensures
        wrap(n) == n,
{
}

/// `wrap(n)` differs from `n` by a multiple of the modulus.
pub proof fn lemma_wrap_residue(n: int) -> (q: int)
    ensures
        wrap(n) == n - q * modulus(),
{
    let shifted = n + 0x8000_0000_0000_0000;
    lemma_fundamental_div_mod(shifted, modulus());
    let q = shifted / modulus();
    assert(q * modulus() == modulus() * q) by (nonlinear_arith);
    q
}

/// Adding a multiple of the modulus does not change the wrapped value.
pub proof fn lemma_wrap_shift(n: int, k: int)
    ensures
        wrap(n + k * modulus()) == wrap(n),
{
    lemma_mod_multiples_vanish(k, n + 0x8000_0000_0000_0000, modulus());
    assert(k * modulus() == modulus() * k) by (nonlinear_arith);
}

/// Wrapping either operand before an addition does not change the wrapped sum.
pub proof fn lemma_wrap_absorb(a: int, b: int)
    ensures
        wrap(wrap(a) + b) == wrap(a + b),
        wrap(a + wrap(b)) == wrap(a + b),
        wrap(wrap(a) + wrap(b)) == wrap(a + b),
{
    let qa = lemma_wrap_residue(a);
    let qb = lemma_wrap_residue(b);
    lemma_wrap_shift(a + b, -qa);
    lemma_wrap_shift(a + b, -qb);
    lemma_wrap_shift(a + b, -qa - qb);
    assert((-qa - qb) * modulus() == -(qa * modulus()) - qb * modulus()) by (nonlinear_arith);
    assert((-qa) * modulus() == -(qa * modulus())) by (nonlinear_arith);
    assert((-qb) * modulus() == -(qb * modulus())) by (nonlinear_arith);
}

/// Wrapping addition is addition over the integers followed by `wrap`.
pub proof fn lemma_wadd_is_wrapped_sum(a: i64, b: i64)
    ensures
        wadd(a, b) == wrap(a + b),
{
}

/// The exact sum of a concatenation is the sum of the exact sums.
pub proof fn lemma_total_concat(a: Seq<i64>, b: Seq<i64>)
    ensures
        total(a + b) == total(a) + total(b),
    decreases b.len(),
{
    if b.len() == 0 {
        assert(a + b =~= a);
    } else {
        assert((a + b).drop_last() =~= a + b.drop_last());
        lemma_total_concat(a, b.drop_last());
    }
}

/// The sequential wrapping fold computes the exact sum reduced to 64 bits.
pub proof fn lemma_scalar_fold_is_wrapped_total(s: Seq<i64>)
    ensures
        scalar_fold(s) == wrap(total(s)),
    decreases s.len(),
{
    if s.len() > 0 {
        lemma_scalar_fold_is_wrapped_total(s.drop_last());
        lemma_wadd_is_wrapped_sum(scalar_fold(s.drop_last()), s.last());
        lemma_wrap_absorb(total(s.drop_last()), s.last() as int);
    }
}

} // verus!
