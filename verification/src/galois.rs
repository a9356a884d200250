//! Laws of the arithmetic in the field of 256 elements: with `^` as the
//! addition, the multiplication is that of a commutative ring.

use vstd::prelude::*;
use crate::reed_solomon::{gf_mul, times_x};

verus! {

/// The laws of `^` on bytes: it is commutative and associative, every byte
/// is its own inverse, and zero is neutral.
pub proof fn lemma_xor_laws()
    by (bit_vector)
    ensures
        forall|a: u8, b: u8| #[trigger] (a ^ b) == b ^ a,
        forall|a: u8, b: u8, c: u8| #[trigger] ((a ^ b) ^ c) == a ^ (b ^ c),
        forall|a: u8| #[trigger] (a ^ a) == 0,
        forall|a: u8| #[trigger] (a ^ 0) == a,
        forall|a: u8| #[trigger] (0 ^ a) == a,
{
}

/// Multiplying by `x` goes through sums.
pub proof fn lemma_times_x_sum(a: u8, b: u8)
    ensures
        times_x(a ^ b) == times_x(a) ^ times_x(b),
        times_x(0) == 0,
{
    assert(times_x(a ^ b) == times_x(a) ^ times_x(b)) by (bit_vector);
}

/// A byte is twice its upper seven bits and its lowest bit.
proof fn lemma_halves(b: u8)
    ensures
        b / 2 < 128,
        times_x(b / 2) ^ (b % 2) == b,
{
    assert(b / 2 < 128 && ((((b / 2) * 2) as u8) ^ (b % 2)) == b) by (bit_vector);
}

/// Zero times anything is zero.
pub proof fn lemma_mul_zero(b: u8)
    ensures
        gf_mul(0, b) == 0,
        gf_mul(b, 0) == 0,
    decreases b,
{
    lemma_xor_laws();
    if b != 0 {
        lemma_mul_zero(b / 2);
    }
}

/// One is neutral.
pub proof fn lemma_mul_one(b: u8)
    ensures
        gf_mul(1, b) == b,
        gf_mul(b, 1) == b,
    decreases b,
{
    lemma_xor_laws();
    lemma_halves(b);
    assert(gf_mul(b, 1) == times_x(gf_mul(b, 0)) ^ b);
    if b != 0 {
        lemma_mul_one(b / 2);
        assert(b % 2 == 0 || b % 2 == 1);
    }
}

/// The product goes through sums of the first factor.
pub proof fn lemma_mul_sum_left(a: u8, c: u8, b: u8)
    ensures
        gf_mul(a ^ c, b) == gf_mul(a, b) ^ gf_mul(c, b),
    decreases b,
{
    lemma_xor_laws();
    if b != 0 {
        lemma_mul_sum_left(a, c, b / 2);
        lemma_times_x_sum(gf_mul(a, b / 2), gf_mul(c, b / 2));
        let p = times_x(gf_mul(a, b / 2));
        let q = times_x(gf_mul(c, b / 2));
        if b % 2 == 1 {
            assert((p ^ q) ^ (a ^ c) == (p ^ a) ^ (q ^ c)) by (bit_vector);
        }
    }
}

/// Multiplying the first factor by `x` multiplies the product by `x`.
pub proof fn lemma_mul_times_x(a: u8, b: u8)
    ensures
        gf_mul(times_x(a), b) == times_x(gf_mul(a, b)),
    decreases b,
{
    lemma_xor_laws();
    lemma_times_x_sum(0, 0);
    if b != 0 {
        lemma_mul_times_x(a, b / 2);
        lemma_times_x_sum(times_x(gf_mul(a, b / 2)), a);
    }
}

/// The product does not depend on the order of the factors.
pub proof fn lemma_mul_commutes(a: u8, b: u8)
    ensures
        gf_mul(a, b) == gf_mul(b, a),
    decreases b,
{
    lemma_xor_laws();
    lemma_mul_zero(a);
    if b != 0 {
        let half: u8 = b / 2;
        let low: u8 = b % 2;
        lemma_mul_commutes(a, half);
        lemma_mul_times_x(half, a);
        lemma_mul_sum_left(times_x(half), low, a);
        lemma_halves(b);
        lemma_mul_one(a);
        assert(low == 0 || low == 1);
    }
}

/// The product goes through sums of the second factor.
pub proof fn lemma_mul_sum_right(a: u8, b: u8, c: u8)
    ensures
        gf_mul(a, b ^ c) == gf_mul(a, b) ^ gf_mul(a, c),
{
    lemma_mul_commutes(a, b ^ c);
    lemma_mul_commutes(a, b);
    lemma_mul_commutes(a, c);
    lemma_mul_sum_left(b, c, a);
}

/// The product of three factors does not depend on how they are grouped.
pub proof fn lemma_mul_associates(a: u8, b: u8, c: u8)
    ensures
        gf_mul(gf_mul(a, b), c) == gf_mul(a, gf_mul(b, c)),
    decreases c,
{
    lemma_xor_laws();
    lemma_mul_zero(a);
    if c != 0 {
        let inner = gf_mul(b, c / 2);
        lemma_mul_associates(a, b, c / 2);
        lemma_mul_commutes(a, times_x(inner));
        lemma_mul_times_x(inner, a);
        lemma_mul_commutes(inner, a);
        if c % 2 == 1 {
            lemma_mul_sum_right(a, times_x(inner), b);
        }
    }
}

} // verus!
