//! What makes the error-correction codewords correct: every block, read as
//! a polynomial, is a multiple of the generator polynomial, so that it
//! vanishes at the first powers of 2. A decoder finds errors by the values
//! that a damaged block takes there.

use vstd::prelude::*;
use crate::capacity::{block_count, ec_per_block, lemma_table_bounds, valid_version};
use crate::ecc::{data_block, ec_block};
use crate::ecl::ECL;
use crate::galois::{
    lemma_mul_associates,
    lemma_mul_commutes,
    lemma_mul_one,
    lemma_mul_sum_left,
    lemma_mul_sum_right,
    lemma_mul_zero,
    lemma_xor_laws,
};
use crate::reed_solomon::{generator, gf_exp, gf_mul, lemma_remainder_len, rs_remainder, rs_step};

verus! {

/// The value at `x` of the polynomial with the coefficients `s`, that of
/// the highest power first.
pub open spec fn poly_eval(s: Seq<u8>, x: u8) -> u8
    decreases s.len(),
{
    if s.len() == 0 {
        0
    } else {
        gf_mul(poly_eval(s.drop_last(), x), x) ^ s.last()
    }
}

/// The `k`-th power of `x`.
pub open spec fn gf_pow(x: u8, k: nat) -> u8
    decreases k,
{
    if k == 0 {
        1
    } else {
        gf_mul(gf_pow(x, (k - 1) as nat), x)
    }
}

/// The coefficients of the polynomial of leading coefficient 1 whose other
/// coefficients are `g`.
pub open spec fn monic(g: Seq<u8>) -> Seq<u8> {
    seq![1u8] + g
}

/// The sum of two polynomials of one length.
pub open spec fn poly_sum(s: Seq<u8>, t: Seq<u8>) -> Seq<u8> {
    Seq::new(s.len(), |k: int| s[k] ^ t[k])
}

/// The polynomial `s` multiplied by the element `c`.
pub open spec fn poly_scale(c: u8, s: Seq<u8>) -> Seq<u8> {
    Seq::new(s.len(), |k: int| gf_mul(c, s[k]))
}

proof fn lemma_eval_push(s: Seq<u8>, c: u8, x: u8)
    ensures
        poly_eval(s.push(c), x) == gf_mul(poly_eval(s, x), x) ^ c,
{
    assert(s.push(c).drop_last() == s);
}

/// The value of a sum of polynomials is the sum of their values.
pub proof fn lemma_eval_sum(s: Seq<u8>, t: Seq<u8>, x: u8)
    requires
        s.len() == t.len(),
    ensures
        poly_eval(poly_sum(s, t), x) == poly_eval(s, x) ^ poly_eval(t, x),
    decreases s.len(),
{
    lemma_xor_laws();
    if s.len() > 0 {
        let a = poly_eval(s.drop_last(), x);
        let b = poly_eval(t.drop_last(), x);
        lemma_eval_sum(s.drop_last(), t.drop_last(), x);
        assert(poly_sum(s, t).drop_last() == poly_sum(s.drop_last(), t.drop_last()));
        lemma_mul_sum_left(a, b, x);
        let p = gf_mul(a, x);
        let q = gf_mul(b, x);
        let c = s.last();
        let d = t.last();
        assert((p ^ q) ^ (c ^ d) == (p ^ c) ^ (q ^ d)) by (bit_vector);
    }
}

proof fn lemma_eval_scale(c: u8, s: Seq<u8>, x: u8)
    ensures
        poly_eval(poly_scale(c, s), x) == gf_mul(c, poly_eval(s, x)),
    decreases s.len(),
{
    lemma_mul_zero(c);
    if s.len() > 0 {
        let a = poly_eval(s.drop_last(), x);
        lemma_eval_scale(c, s.drop_last(), x);
        assert(poly_scale(c, s).drop_last() == poly_scale(c, s.drop_last()));
        lemma_mul_associates(c, a, x);
        lemma_mul_sum_right(c, gf_mul(a, x), s.last());
    }
}

proof fn lemma_eval_concat(s: Seq<u8>, t: Seq<u8>, x: u8)
    ensures
        poly_eval(s + t, x) == gf_mul(poly_eval(s, x), gf_pow(x, t.len())) ^ poly_eval(t, x),
    decreases t.len(),
{
    lemma_xor_laws();
    let a = poly_eval(s, x);
    if t.len() == 0 {
        assert(s + t == s);
        lemma_mul_one(a);
    } else {
        let front = t.drop_last();
        lemma_eval_concat(s, front, x);
        assert((s + t).drop_last() == s + front);
        let high = gf_mul(a, gf_pow(x, front.len()));
        lemma_mul_sum_left(high, poly_eval(front, x), x);
        lemma_mul_associates(a, gf_pow(x, front.len()), x);
    }
}

proof fn lemma_eval_single(c: u8, x: u8)
    ensures
        poly_eval(seq![c], x) == c,
{
    let none = Seq::<u8>::empty();
    assert(seq![c] =~= none.push(c));
    lemma_eval_push(none, c, x);
    lemma_mul_zero(x);
    assert(0u8 ^ c == c) by (bit_vector);
}

proof fn lemma_zero_poly(n: nat, x: u8)
    ensures
        poly_eval(Seq::new(n, |j: int| 0u8), x) == 0,
    decreases n,
{
    if n > 0 {
        lemma_zero_poly((n - 1) as nat, x);
        assert(Seq::new(n, |j: int| 0u8).drop_last() =~= Seq::new((n - 1) as nat, |j: int| 0u8));
        lemma_mul_zero(x);
        assert(0u8 ^ 0u8 == 0u8) by (bit_vector);
    }
}

/// The generator for one codeword more is the generator times `x - 2^n`.
proof fn lemma_generator_step(n: nat, x: u8)
    ensures
        poly_eval(monic(generator(n + 1)), x) == gf_mul(
            poly_eval(monic(generator(n)), x),
            x ^ gf_exp(n),
        ),
{
    let root = gf_exp(n);
    let c = monic(generator(n));
    let value = poly_eval(c, x);
    let raised = c.push(0);
    let lowered = seq![0u8] + c;
    assert(monic(generator(n + 1)) =~= poly_sum(raised, poly_scale(root, lowered))) by {
        lemma_mul_zero(root);
        lemma_xor_laws();
    }
    lemma_eval_sum(raised, poly_scale(root, lowered), x);
    lemma_eval_scale(root, lowered, x);
    assert(poly_eval(raised, x) == gf_mul(value, x)) by {
        lemma_eval_push(c, 0, x);
        lemma_xor_laws();
    }
    assert(poly_eval(lowered, x) == value) by {
        lemma_eval_concat(seq![0u8], c, x);
        lemma_eval_single(0, x);
        lemma_mul_zero(gf_pow(x, c.len()));
        lemma_xor_laws();
    }
    lemma_mul_commutes(root, value);
    lemma_mul_sum_right(value, x, root);
}

/// The generator polynomial for `n` codewords vanishes at the first `n`
/// powers of 2.
pub proof fn lemma_generator_roots(n: nat, i: nat)
    requires
        i < n,
    ensures
        poly_eval(monic(generator(n)), gf_exp(i)) == 0,
    decreases n,
{
    let x = gf_exp(i);
    let m = (n - 1) as nat;
    lemma_generator_step(m, x);
    if i < m {
        lemma_generator_roots(m, i);
        lemma_mul_zero(x ^ gf_exp(m));
    } else {
        assert(x ^ x == 0) by (bit_vector);
        lemma_mul_zero(poly_eval(monic(generator(m)), x));
    }
}

/// Where a polynomial of leading coefficient 1 vanishes, its other
/// coefficients have the value of the leading power.
proof fn lemma_divisor_value(g: Seq<u8>, x: u8)
    requires
        poly_eval(monic(g), x) == 0,
    ensures
        poly_eval(g, x) == gf_pow(x, g.len()),
{
    let power = gf_pow(x, g.len());
    let e = poly_eval(g, x);
    lemma_eval_concat(seq![1u8], g, x);
    lemma_eval_single(1, x);
    lemma_mul_one(power);
    assert(power ^ e == 0 ==> e == power) by (bit_vector);
}

/// The value of a polynomial without its leading coefficient.
proof fn lemma_tail_value(rem: Seq<u8>, x: u8)
    requires
        rem.len() >= 1,
    ensures
        poly_eval(rem.skip(1), x) == poly_eval(rem, x) ^ gf_mul(
            rem[0],
            gf_pow(x, (rem.len() - 1) as nat),
        ),
{
    let tail = rem.skip(1);
    let first = gf_mul(rem[0], gf_pow(x, (rem.len() - 1) as nat));
    let rest = poly_eval(tail, x);
    let whole = poly_eval(rem, x);
    assert(rem =~= seq![rem[0]] + tail);
    lemma_eval_concat(seq![rem[0]], tail, x);
    lemma_eval_single(rem[0], x);
    assert(whole == first ^ rest ==> rest == whole ^ first) by (bit_vector);
}

/// The value of the remainder after one step of the division.
proof fn lemma_step_value(rem: Seq<u8>, g: Seq<u8>, d: u8, x: u8)
    requires
        rem.len() == g.len() >= 1,
    ensures
        poly_eval(rs_step(rem, g, d), x) == gf_mul(poly_eval(rem.skip(1), x), x) ^ gf_mul(
            d ^ rem[0],
            poly_eval(g, x),
        ),
{
    let n = g.len();
    let factor = d ^ rem[0];
    let tail = rem.skip(1);
    let shifted = tail.push(0);
    let next = rs_step(rem, g, d);
    assert(next =~= poly_sum(shifted, poly_scale(factor, g))) by {
        assert forall|j: int| 0 <= j < n implies next[j] == shifted[j] ^ gf_mul(factor, g[j]) by {
            lemma_mul_commutes(g[j], factor);
        }
    }
    lemma_eval_sum(shifted, poly_scale(factor, g), x);
    lemma_eval_scale(factor, g, x);
    lemma_eval_push(tail, 0, x);
    let turned = gf_mul(poly_eval(tail, x), x);
    assert(turned ^ 0u8 == turned) by (bit_vector);
}

/// A sequence of data codewords followed by its remainder vanishes where
/// the divisor vanishes.
proof fn lemma_remainder_cancels(data: Seq<u8>, g: Seq<u8>, x: u8)
    requires
        g.len() >= 1,
        poly_eval(monic(g), x) == 0,
    ensures
        poly_eval(data + rs_remainder(data, g), x) == 0,
    decreases data.len(),
{
    let n = g.len();
    if data.len() == 0 {
        lemma_zero_poly(n, x);
        assert(data + rs_remainder(data, g) =~= Seq::new(n, |j: int| 0u8));
    } else {
        let front = data.drop_last();
        let d = data.last();
        let rem = rs_remainder(front, g);
        let next = rs_remainder(data, g);
        lemma_remainder_cancels(front, g, x);
        lemma_remainder_len(front, g);
        lemma_remainder_len(data, g);
        let a = poly_eval(front, x);
        let power = gf_pow(x, n);
        let lower = gf_pow(x, (n - 1) as nat);
        let factor = d ^ rem[0];
        let raised = gf_mul(a, power);
        let first = gf_mul(rem[0], lower);
        let top = gf_mul(a, gf_mul(power, x));
        let kept = gf_mul(rem[0], power);
        let new = gf_mul(d, power);
        lemma_divisor_value(g, x);
        // the remainder so far has the value of what was read, raised
        assert(poly_eval(rem, x) == raised) by {
            let e = poly_eval(rem, x);
            lemma_eval_concat(front, rem, x);
            assert(raised ^ e == 0 ==> e == raised) by (bit_vector);
        }
        lemma_tail_value(rem, x);
        lemma_step_value(rem, g, d, x);
        // the shifted tail
        assert(gf_mul(raised ^ first, x) == top ^ kept) by {
            lemma_mul_sum_left(raised, first, x);
            lemma_mul_associates(a, power, x);
            lemma_mul_associates(rem[0], lower, x);
            assert(gf_mul(lower, x) == power);
        }
        // the multiple of the divisor
        assert(gf_mul(factor, power) == new ^ kept) by {
            lemma_mul_sum_left(d, rem[0], power);
        }
        // what was read with the new codeword, raised
        assert(gf_mul(poly_eval(data, x), power) == top ^ new) by {
            lemma_mul_sum_left(gf_mul(a, x), d, power);
            lemma_mul_associates(a, x, power);
            lemma_mul_commutes(x, power);
        }
        lemma_eval_concat(data, next, x);
        assert((top ^ new) ^ ((top ^ kept) ^ (new ^ kept)) == 0) by (bit_vector);
    }
}

/// A block of data codewords followed by its `n` error-correction
/// codewords is a multiple of the generator polynomial: read as a
/// polynomial, it vanishes at each of the first `n` powers of 2.
pub proof fn lemma_syndromes_vanish(data: Seq<u8>, n: nat, i: nat)
    requires
        i < n,
    ensures
        poly_eval(data + rs_remainder(data, generator(n)), gf_exp(i)) == 0,
{
    lemma_generator_roots(n, i);
    lemma_remainder_cancels(data, generator(n), gf_exp(i));
}

/// Every block of a symbol, with its error-correction codewords, vanishes
/// at the first powers of 2, as many as it has error-correction codewords.
pub proof fn lemma_blocks_are_codewords(data: Seq<u8>, v: int, level: ECL, b: int, i: nat)
    requires
        valid_version(v),
        0 <= b < block_count(v, level),
        i < ec_per_block(v, level),
    ensures
        poly_eval(data_block(data, v, level, b) + ec_block(data, v, level, b), gf_exp(i)) == 0,
{
    lemma_table_bounds(v, level);
    lemma_syndromes_vanish(data_block(data, v, level, b), ec_per_block(v, level) as nat, i);
}

} // verus!
