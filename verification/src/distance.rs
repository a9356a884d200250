//! How many wrong codewords a block can bear: blocks that vanish at the
//! first `n` powers of 2 differ from each other in more than `n` places.
//! So a block of which no more than half as many codewords as it has for
//! error correction are wrong is still nearer to what it was than to any
//! other block, and a decoder can tell what it was.

use vstd::prelude::*;
use crate::capacity::{
    block_count,
    block_len,
    data_codewords,
    ec_per_block,
    lemma_codeword_budget,
    lemma_table_bounds,
    total_codewords,
    valid_version,
};
use crate::ecl::ECL;
use crate::galois::{
    lemma_mul_associates,
    lemma_mul_commutes,
    lemma_mul_one,
    lemma_mul_sum_left,
    lemma_mul_sum_right,
    lemma_mul_zero,
    lemma_xor_laws,
};
use crate::powers::{lemma_exp_sum, lemma_no_zero_divisors, lemma_powers_differ};
use crate::reed_solomon::{generator, gf_exp, gf_mul, lemma_remainder_len, rs_remainder};
use crate::syndrome::{
    gf_pow,
    lemma_eval_sum,
    lemma_syndromes_vanish,
    poly_eval,
    poly_scale,
    poly_sum,
};

verus! {

/// The sum of the elements of a sequence.
pub open spec fn xor_sum(s: Seq<u8>) -> u8
    decreases s.len(),
{
    if s.len() == 0 {
        0
    } else {
        xor_sum(s.drop_last()) ^ s.last()
    }
}

/// Number of elements of a sequence that are not zero.
pub open spec fn weight(s: Seq<u8>) -> nat
    decreases s.len(),
{
    if s.len() == 0 {
        0
    } else {
        weight(s.drop_last()) + if s.last() != 0 {
            1nat
        } else {
            0nat
        }
    }
}

/// Number of places in which two sequences of one length differ.
pub open spec fn distance(s: Seq<u8>, t: Seq<u8>) -> nat {
    weight(poly_sum(s, t))
}

/// The element that stands for place `k` of a block of `len` codewords:
/// the power of 2 that the codeword of this place is multiplied with when
/// the block is read as a polynomial.
pub open spec fn locator(len: nat, k: int) -> u8 {
    gf_exp((len - 1 - k) as nat)
}

/// What each codeword adds to the value of a block at the `j`-th power of 2.
pub open spec fn terms(e: Seq<u8>, j: nat) -> Seq<u8> {
    Seq::new(e.len(), |k: int| gf_mul(e[k], gf_pow(locator(e.len(), k), j)))
}

/// What each coefficient adds to the value of a polynomial at `x`.
pub open spec fn monomials(e: Seq<u8>, x: u8) -> Seq<u8> {
    Seq::new(e.len(), |k: int| gf_mul(e[k], gf_pow(x, (e.len() - 1 - k) as nat)))
}

/// The last place of a sequence that does not hold zero.
pub open spec fn last_nonzero(s: Seq<u8>) -> int
    decreases s.len(),
{
    if s.len() == 0 {
        -1
    } else if s.last() != 0 {
        s.len() - 1
    } else {
        last_nonzero(s.drop_last())
    }
}

proof fn lemma_sum_of_sums(s: Seq<u8>, t: Seq<u8>)
    requires
        s.len() == t.len(),
    ensures
        xor_sum(poly_sum(s, t)) == xor_sum(s) ^ xor_sum(t),
    decreases s.len(),
{
    lemma_xor_laws();
    if s.len() > 0 {
        lemma_sum_of_sums(s.drop_last(), t.drop_last());
        assert(poly_sum(s, t).drop_last() == poly_sum(s.drop_last(), t.drop_last()));
        let p = xor_sum(s.drop_last());
        let q = xor_sum(t.drop_last());
        let c = s.last();
        let d = t.last();
        assert((p ^ q) ^ (c ^ d) == (p ^ c) ^ (q ^ d)) by (bit_vector);
    }
}

proof fn lemma_sum_of_multiples(c: u8, s: Seq<u8>)
    ensures
        xor_sum(poly_scale(c, s)) == gf_mul(c, xor_sum(s)),
    decreases s.len(),
{
    lemma_mul_zero(c);
    if s.len() > 0 {
        lemma_sum_of_multiples(c, s.drop_last());
        assert(poly_scale(c, s).drop_last() == poly_scale(c, s.drop_last()));
        lemma_mul_sum_right(c, xor_sum(s.drop_last()), s.last());
    }
}

proof fn lemma_sum_of_one(s: Seq<u8>, k: int)
    requires
        0 <= k < s.len(),
        forall|i: int| 0 <= i < s.len() && i != k ==> s[i] == 0,
    ensures
        xor_sum(s) == s[k],
    decreases s.len(),
{
    lemma_xor_laws();
    if k < s.len() - 1 {
        lemma_sum_of_one(s.drop_last(), k);
    } else {
        lemma_sum_of_none(s.drop_last());
    }
}

proof fn lemma_sum_of_none(s: Seq<u8>)
    requires
        forall|i: int| 0 <= i < s.len() ==> s[i] == 0,
    ensures
        xor_sum(s) == 0,
    decreases s.len(),
{
    lemma_xor_laws();
    if s.len() > 0 {
        lemma_sum_of_none(s.drop_last());
    }
}

proof fn lemma_weight_none(s: Seq<u8>)
    requires
        weight(s) == 0,
    ensures
        forall|i: int| 0 <= i < s.len() ==> s[i] == 0,
    decreases s.len(),
{
    if s.len() > 0 {
        lemma_weight_none(s.drop_last());
        assert forall|i: int| 0 <= i < s.len() implies s[i] == 0 by {
            if i < s.len() - 1 {
                assert(s.drop_last()[i] == s[i]);
            }
        }
    }
}

proof fn lemma_last_nonzero(s: Seq<u8>)
    requires
        weight(s) > 0,
    ensures
        0 <= last_nonzero(s) < s.len(),
        s[last_nonzero(s)] != 0,
    decreases s.len(),
{
    if s.len() > 0 && s.last() == 0 {
        lemma_last_nonzero(s.drop_last());
    }
}

/// A sequence that is zero wherever another is has no more weight than it.
proof fn lemma_weight_under(s: Seq<u8>, t: Seq<u8>)
    requires
        s.len() == t.len(),
        forall|i: int| 0 <= i < s.len() && s[i] != 0 ==> t[i] != 0,
    ensures
        weight(s) <= weight(t),
    decreases s.len(),
{
    if s.len() > 0 {
        assert forall|i: int| 0 <= i < s.len() - 1 && s.drop_last()[i] != 0 implies t.drop_last()[i]
            != 0 by {
            assert(s.drop_last()[i] == s[i] && t.drop_last()[i] == t[i]);
        }
        lemma_weight_under(s.drop_last(), t.drop_last());
    }
}

/// And less weight where it is zero in a place where the other is not.
proof fn lemma_weight_less(s: Seq<u8>, t: Seq<u8>, k: int)
    requires
        s.len() == t.len(),
        forall|i: int| 0 <= i < s.len() && s[i] != 0 ==> t[i] != 0,
        0 <= k < s.len(),
        s[k] == 0,
        t[k] != 0,
    ensures
        weight(s) < weight(t),
    decreases s.len(),
{
    assert forall|i: int| 0 <= i < s.len() - 1 && s.drop_last()[i] != 0 implies t.drop_last()[i]
        != 0 by {
        assert(s.drop_last()[i] == s[i] && t.drop_last()[i] == t[i]);
    }
    if k < s.len() - 1 {
        lemma_weight_less(s.drop_last(), t.drop_last(), k);
    } else {
        lemma_weight_under(s.drop_last(), t.drop_last());
    }
}

/// Two sequences differ in no more places than each of them differs from a
/// third, taken together.
proof fn lemma_triangle(s: Seq<u8>, r: Seq<u8>, t: Seq<u8>)
    requires
        s.len() == r.len() == t.len(),
    ensures
        distance(s, t) <= distance(s, r) + distance(r, t),
    decreases s.len(),
{
    if s.len() > 0 {
        lemma_triangle(s.drop_last(), r.drop_last(), t.drop_last());
        assert(poly_sum(s, t).drop_last() == poly_sum(s.drop_last(), t.drop_last()));
        assert(poly_sum(s, r).drop_last() == poly_sum(s.drop_last(), r.drop_last()));
        assert(poly_sum(r, t).drop_last() == poly_sum(r.drop_last(), t.drop_last()));
        let a = s.last();
        let b = r.last();
        let c = t.last();
        assert(a ^ c != 0 ==> a ^ b != 0 || b ^ c != 0) by (bit_vector);
    }
}

/// The power of a power of 2.
proof fn lemma_pow_exp(a: nat, b: nat)
    ensures
        gf_pow(gf_exp(a), b) == gf_exp(a * b),
    decreases b,
{
    if b == 0 {
        assert(a * 0 == 0);
    } else {
        let c = (b - 1) as nat;
        lemma_pow_exp(a, c);
        lemma_exp_sum(a * c, a);
        assert(a * c + a == a * b) by (nonlinear_arith)
            requires
                c + 1 == b,
        ;
    }
}

/// The value of a polynomial is the sum of what its coefficients add.
proof fn lemma_eval_by_monomials(e: Seq<u8>, x: u8)
    ensures
        poly_eval(e, x) == xor_sum(monomials(e, x)),
    decreases e.len(),
{
    if e.len() > 0 {
        let front = e.drop_last();
        lemma_eval_by_monomials(front, x);
        assert(monomials(e, x).drop_last() =~= poly_scale(x, monomials(front, x))) by {
            assert forall|k: int| 0 <= k < front.len() implies monomials(e, x)[k] == gf_mul(
                x,
                monomials(front, x)[k],
            ) by {
                let low = gf_pow(x, (front.len() - 1 - k) as nat);
                assert(gf_pow(x, (e.len() - 1 - k) as nat) == gf_mul(low, x));
                lemma_mul_associates(e[k], low, x);
                lemma_mul_commutes(gf_mul(e[k], low), x);
            }
        }
        lemma_sum_of_multiples(x, monomials(front, x));
        lemma_mul_commutes(x, poly_eval(front, x));
        lemma_mul_one(e.last());
    }
}

/// The value of a block at the `j`-th power of 2 is the sum of what its
/// codewords add there.
proof fn lemma_eval_by_terms(e: Seq<u8>, j: nat)
    ensures
        poly_eval(e, gf_exp(j)) == xor_sum(terms(e, j)),
{
    lemma_eval_by_monomials(e, gf_exp(j));
    assert(monomials(e, gf_exp(j)) =~= terms(e, j)) by {
        assert forall|k: int| 0 <= k < e.len() implies monomials(e, gf_exp(j))[k] == terms(e, j)[k] by {
            let d = (e.len() - 1 - k) as nat;
            lemma_pow_exp(j, d);
            lemma_pow_exp(d, j);
            assert(j * d == d * j) by (nonlinear_arith);
        }
    }
}

/// The block that is left when every codeword is multiplied by the
/// difference of its locator and that of place `at`.
spec fn reduced(e: Seq<u8>, at: int) -> Seq<u8> {
    Seq::new(
        e.len(),
        |k: int| gf_mul(e[k], locator(e.len(), k) ^ locator(e.len(), at)),
    )
}

proof fn lemma_reduced_terms(e: Seq<u8>, at: int, j: nat)
    ensures
        terms(reduced(e, at), j) == poly_sum(
            terms(e, j + 1),
            poly_scale(locator(e.len(), at), terms(e, j)),
        ),
{
    let len = e.len();
    let pivot = locator(len, at);
    assert forall|k: int| 0 <= k < len implies terms(reduced(e, at), j)[k] == terms(e, j + 1)[k]
        ^ gf_mul(pivot, terms(e, j)[k]) by {
        let x = locator(len, k);
        let p = gf_pow(x, j);
        // e[k] * (x + pivot) * p == e[k] * (p * x) + pivot * (e[k] * p)
        lemma_mul_sum_right(e[k], x, pivot);
        lemma_mul_sum_left(gf_mul(e[k], x), gf_mul(e[k], pivot), p);
        lemma_mul_associates(e[k], x, p);
        lemma_mul_commutes(x, p);
        lemma_mul_associates(e[k], pivot, p);
        lemma_mul_commutes(e[k], gf_mul(pivot, p));
        lemma_mul_associates(pivot, p, e[k]);
        lemma_mul_commutes(p, e[k]);
    }
    assert(terms(reduced(e, at), j) =~= poly_sum(
        terms(e, j + 1),
        poly_scale(pivot, terms(e, j)),
    ));
}

/// A block of at most 255 codewords that has no more than `n` codewords
/// other than zero, and whose sums vanish at the first `n` powers of 2, is
/// zero throughout.
proof fn lemma_light_and_vanishing(e: Seq<u8>, n: nat)
    requires
        e.len() <= 255,
        weight(e) <= n,
        forall|j: nat| j < n ==> xor_sum(#[trigger] terms(e, j)) == 0,
    ensures
        weight(e) == 0,
    decreases n,
{
    if weight(e) > 0 {
        let len = e.len();
        lemma_last_nonzero(e);
        let at = last_nonzero(e);
        let pivot = locator(len, at);
        let rest = reduced(e, at);
        lemma_xor_laws();
        assert forall|i: int| 0 <= i < len && rest[i] != 0 implies e[i] != 0 by {
            lemma_mul_zero(locator(len, i) ^ pivot);
        }
        assert(rest[at] == 0) by {
            lemma_mul_zero(e[at]);
        }
        lemma_weight_less(rest, e, at);
        let fewer = (n - 1) as nat;
        assert forall|j: nat| j < fewer implies xor_sum(#[trigger] terms(rest, j)) == 0 by {
            lemma_reduced_terms(e, at, j);
            lemma_sum_of_sums(terms(e, j + 1), poly_scale(pivot, terms(e, j)));
            lemma_sum_of_multiples(pivot, terms(e, j));
            assert(xor_sum(terms(e, j)) == 0);
            assert(xor_sum(terms(e, j + 1)) == 0);
            lemma_mul_zero(pivot);
        }
        lemma_light_and_vanishing(rest, fewer);
        lemma_weight_none(rest);
        assert forall|i: int| 0 <= i < len && i != at implies e[i] == 0 by {
            let x = locator(len, i);
            assert(rest[i] == 0);
            lemma_no_zero_divisors(e[i], x ^ pivot);
            lemma_powers_differ((len - 1 - i) as nat, (len - 1 - at) as nat);
            assert(x ^ pivot == 0 ==> x == pivot) by (bit_vector);
        }
        assert(terms(e, 0) =~= e) by {
            assert forall|i: int| 0 <= i < len implies terms(e, 0)[i] == e[i] by {
                lemma_mul_one(e[i]);
            }
        }
        lemma_sum_of_one(e, at);
        assert(xor_sum(terms(e, 0)) == 0);
    }
}

/// Blocks that vanish at the first `n` powers of 2 lie far apart: a block
/// of at most 255 codewords that vanishes there and has no more than `n`
/// codewords other than zero is zero throughout.
pub proof fn lemma_distance(e: Seq<u8>, n: nat)
    requires
        e.len() <= 255,
        weight(e) <= n,
        forall|j: nat| j < n ==> poly_eval(e, #[trigger] gf_exp(j)) == 0,
    ensures
        forall|k: int| 0 <= k < e.len() ==> e[k] == 0,
{
    assert forall|j: nat| j < n implies xor_sum(#[trigger] terms(e, j)) == 0 by {
        lemma_eval_by_terms(e, j);
        assert(poly_eval(e, gf_exp(j)) == 0);
    }
    lemma_light_and_vanishing(e, n);
    lemma_weight_none(e);
}

/// No word is near two blocks: where two blocks of at most 255 codewords
/// vanish at the first `n` powers of 2, and a word differs from each of
/// them in no more than `n / 2` places, the two are one block.
pub proof fn lemma_nearest_is_unique(first: Seq<u8>, second: Seq<u8>, word: Seq<u8>, n: nat)
    requires
        first.len() == second.len() == word.len() <= 255,
        forall|j: nat| j < n ==> poly_eval(first, #[trigger] gf_exp(j)) == 0,
        forall|j: nat| j < n ==> poly_eval(second, #[trigger] gf_exp(j)) == 0,
        2 * distance(word, first) <= n,
        2 * distance(word, second) <= n,
    ensures
        first == second,
{
    let e = poly_sum(first, second);
    lemma_xor_laws();
    lemma_triangle(first, word, second);
    assert(poly_sum(first, word) =~= poly_sum(word, first));
    assert forall|j: nat| j < n implies poly_eval(e, #[trigger] gf_exp(j)) == 0 by {
        lemma_eval_sum(first, second, gf_exp(j));
    }
    lemma_distance(e, n);
    assert forall|k: int| 0 <= k < first.len() implies first[k] == second[k] by {
        let a = first[k];
        let b = second[k];
        assert(e[k] == 0);
        assert(a ^ b == 0 ==> a == b) by (bit_vector);
    }
    assert(first =~= second);
}

/// Up to half as many wrong codewords as a block has for error correction
/// can be mended: a word that differs in no more than `n / 2` places from
/// the block of some data with its `n` error-correction codewords differs
/// in more places from the block of any other data. So the data can be
/// told from the word.
pub proof fn lemma_data_recoverable(data: Seq<u8>, other: Seq<u8>, word: Seq<u8>, n: nat)
    requires
        data.len() == other.len(),
        word.len() == data.len() + n <= 255,
        n >= 1,
        2 * distance(word, data + rs_remainder(data, generator(n))) <= n,
        2 * distance(word, other + rs_remainder(other, generator(n))) <= n,
    ensures
        data == other,
{
    let first = data + rs_remainder(data, generator(n));
    let second = other + rs_remainder(other, generator(n));
    lemma_remainder_len(data, generator(n));
    lemma_remainder_len(other, generator(n));
    assert forall|j: nat| j < n implies poly_eval(first, #[trigger] gf_exp(j)) == 0 by {
        lemma_syndromes_vanish(data, n, j);
    }
    assert forall|j: nat| j < n implies poly_eval(second, #[trigger] gf_exp(j)) == 0 by {
        lemma_syndromes_vanish(other, n, j);
    }
    lemma_nearest_is_unique(first, second, word, n);
    assert(data =~= first.subrange(0, data.len() as int));
    assert(other =~= second.subrange(0, other.len() as int));
}

/// Every block of every symbol, with its error-correction codewords, is
/// short enough for its places to have locators of their own.
pub proof fn lemma_block_fits_field(v: int, level: ECL, b: int)
    requires
        valid_version(v),
        0 <= b < block_count(v, level),
    ensures
        block_len(v, level, b) + ec_per_block(v, level) <= 255,
{
    lemma_short_blocks(v, level);
}

proof fn lemma_short_blocks(v: int, level: ECL)
    requires
        valid_version(v),
    ensures
        data_codewords(v, level) < (255 - ec_per_block(v, level)) * block_count(v, level),
        data_codewords(v, level) / block_count(v, level) + 1 + ec_per_block(v, level) <= 255,
{
    lemma_table_bounds(v, level);
    let count = block_count(v, level);
    let total = data_codewords(v, level);
    let room = 255 - ec_per_block(v, level);
    assert(total < room * count) by {
        lemma_codeword_budget(v, level);
        lemma_blocks_short(v);
        assert(room * count == 255 * count - ec_per_block(v, level) * count) by (nonlinear_arith)
            requires
                room == 255 - ec_per_block(v, level),
        ;
    }
    assert(total / count < room) by {
        vstd::arithmetic::div_mod::lemma_fundamental_div_mod(total, count);
        vstd::arithmetic::div_mod::lemma_mod_bound(total, count);
        assert(count * (total / count) < room * count ==> total / count < room)
            by (nonlinear_arith)
            requires
                count > 0,
        ;
    }
}

/// The codewords of a symbol are fewer than 255 for each of its blocks at
/// any level.
proof fn lemma_blocks_short(v: int)
    requires
        valid_version(v),
    ensures
        total_codewords(v) < 255 * block_count(v, ECL::L),
        total_codewords(v) < 255 * block_count(v, ECL::M),
        total_codewords(v) < 255 * block_count(v, ECL::Q),
        total_codewords(v) < 255 * block_count(v, ECL::H),
{
}

/// Every block of a symbol bears wrong codewords up to half the number of
/// its error-correction codewords: a word that differs in no more places
/// from the block of some data differs in more places from the block of any
/// other data.
pub proof fn lemma_block_recoverable(
    v: int,
    level: ECL,
    b: int,
    data: Seq<u8>,
    other: Seq<u8>,
    word: Seq<u8>,
)
    requires
        valid_version(v),
        0 <= b < block_count(v, level),
        data.len() == other.len() == block_len(v, level, b),
        word.len() == data.len() + ec_per_block(v, level),
        2 * distance(word, data + rs_remainder(data, generator(ec_per_block(v, level) as nat)))
            <= ec_per_block(v, level),
        2 * distance(word, other + rs_remainder(other, generator(ec_per_block(v, level) as nat)))
            <= ec_per_block(v, level),
    ensures
        data == other,
{
    lemma_table_bounds(v, level);
    lemma_block_fits_field(v, level, b);
    lemma_data_recoverable(data, other, word, ec_per_block(v, level) as nat);
}

} // verus!
