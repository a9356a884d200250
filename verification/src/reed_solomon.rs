//! Reed-Solomon error correction over the field of 256 elements.
//!
//! A field element is a byte that stands for a polynomial over the two-element
//! field: bit `i` is the coefficient of `x^i`. Elements are added with `^` and
//! multiplied modulo `x^8 + x^4 + x^3 + x^2 + 1`. The element 2, which is `x`,
//! generates the field.

use vstd::prelude::*;
use crate::bits::{lemma_shift_right, shifted};

verus! {

/// The product of `a` and the element `x`: a shift by one place, reduced by
/// the field polynomial where it leaves the byte.
pub open spec fn times_x(a: u8) -> u8 {
    if a >= 128 {
        (((a - 128) * 2) as u8) ^ 0x1D
    } else {
        (a * 2) as u8
    }
}

/// The product of `a` and `b` in the field: `b` is taken apart as
/// `b0 + x * rest`, so that `a * b` is `a * b0 + x * (a * rest)`.
pub open spec fn gf_mul(a: u8, b: u8) -> u8
    decreases b,
{
    if b == 0 {
        0
    } else {
        let upper = times_x(gf_mul(a, b / 2));
        if b % 2 == 1 {
            upper ^ a
        } else {
            upper
        }
    }
}

/// The `i`-th power of the generating element 2.
pub open spec fn gf_exp(i: nat) -> u8
    decreases i,
{
    if i == 0 {
        1
    } else {
        times_x(gf_exp((i - 1) as nat))
    }
}

/// The generator polynomial for `n` error-correction codewords: the product
/// of `x - 2^i` for `i` from 0 to `n - 1`. It has degree `n` and leading
/// coefficient 1; the sequence holds the other coefficients, that of
/// `x^(n-1)` first.
pub open spec fn generator(n: nat) -> Seq<u8>
    decreases n,
{
    if n == 0 {
        Seq::empty()
    } else {
        let g = generator((n - 1) as nat);
        let root = gf_exp((n - 1) as nat);
        Seq::new(
            n,
            |j: int|
                (if j < n - 1 {
                    g[j]
                } else {
                    0u8
                }) ^ gf_mul(
                    root,
                    if j > 0 {
                        g[j - 1]
                    } else {
                        1u8
                    },
                ),
        )
    }
}

/// One step of the division by the generator `g`: the remainder `rem` of what
/// was read so far takes in the next codeword `byte`.
pub open spec fn rs_step(rem: Seq<u8>, g: Seq<u8>, byte: u8) -> Seq<u8> {
    let factor = byte ^ rem[0];
    Seq::new(
        rem.len(),
        |j: int|
            (if j + 1 < rem.len() {
                rem[j + 1]
            } else {
                0u8
            }) ^ gf_mul(g[j], factor),
    )
}

/// The remainder of `data`, read as a polynomial with its first codeword as
/// the highest coefficient and multiplied by `x^n`, when divided by the
/// generator `g` of degree `n`.
pub open spec fn rs_remainder(data: Seq<u8>, g: Seq<u8>) -> Seq<u8>
    decreases data.len(),
{
    if data.len() == 0 {
        Seq::new(g.len(), |j: int| 0u8)
    } else {
        rs_step(rs_remainder(data.drop_last(), g), g, data.last())
    }
}

/// The remainder has as many codewords as the generator's degree.
pub proof fn lemma_remainder_len(data: Seq<u8>, g: Seq<u8>)
    ensures
        rs_remainder(data, g).len() == g.len(),
    decreases data.len(),
{
    if data.len() > 0 {
        lemma_remainder_len(data.drop_last(), g);
    }
}

/// Multiplies `a` by the element `x`.
pub fn mul_x(a: u8) -> (product: u8)
    ensures
        product == times_x(a),
{
    if a >= 128 {
        ((a - 128) * 2) ^ 0x1D
    } else {
        a * 2
    }
}

/// Multiplies two field elements.
pub fn multiply(a: u8, b: u8) -> (product: u8)
    ensures
        product == gf_mul(a, b),
{
    let mut z: u8 = 0;
    let mut i: u32 = 8;
    proof {
        lemma_shift_right(b as u32, 8);
        assert((b as u32) >> 8u32 == 0) by (bit_vector)
            requires
                b < 256,
        ;
    }
    while i > 0
        invariant
            i <= 8,
            0 <= shifted(b as int, i as nat) < 256,
            z == gf_mul(a, shifted(b as int, i as nat) as u8),
        decreases i,
    {
        i = i - 1;
        let wide: u32 = b as u32;
        let low: u32 = (wide >> i) & 1;
        proof {
            lemma_shift_right(wide, i);
            lemma_shift_right(wide, (i + 1) as u32);
            let x: u32 = wide >> i;
            let y: u32 = wide >> ((i + 1) as u32);
            assert(x & 1 == x % 2) by (bit_vector);
            assert(x / 2 == y && x < 256) by (bit_vector)
                requires
                    x == wide >> i,
                    y == wide >> ((i + 1) as u32),
                    i < 8,
                    wide < 256,
            ;
        }
        z = mul_x(z);
        if low == 1 {
            z = z ^ a;
        }
    }
    z
}

/// Computes the generator polynomial for `n` error-correction codewords.
pub fn generator_polynomial(n: usize) -> (g: Vec<u8>)
    ensures
        g@ == generator(n as nat),
        g.len() == n,
{
    let mut g: Vec<u8> = Vec::new();
    let mut root: u8 = 1;
    let mut k: usize = 0;
    while k < n
        invariant
            k <= n,
            g@ == generator(k as nat),
            root == gf_exp(k as nat),
        decreases n - k,
    {
        let mut next: Vec<u8> = Vec::with_capacity(k + 1);
        let mut j: usize = 0;
        while j <= k
            invariant
                j <= k + 1,
                k < n,
                g@ == generator(k as nat),
                g.len() == k,
                root == gf_exp(k as nat),
                next@ == generator((k + 1) as nat).subrange(0, j as int),
            decreases k + 1 - j,
        {
            let keep: u8 = if j < k {
                g[j]
            } else {
                0
            };
            let carry: u8 = if j > 0 {
                g[j - 1]
            } else {
                1
            };
            next.push(keep ^ multiply(root, carry));
            j = j + 1;
            assert(next@ == generator((k + 1) as nat).subrange(0, j as int));
        }
        assert(generator((k + 1) as nat).subrange(0, k + 1) == generator((k + 1) as nat));
        g = next;
        root = mul_x(root);
        k = k + 1;
    }
    g
}

/// Computes the error-correction codewords of one block: the remainder of
/// `data` divided by the generator `g`.
pub fn remainder(data: &Vec<u8>, g: &Vec<u8>) -> (rem: Vec<u8>)
    requires
        g.len() >= 1,
    ensures
        rem@ == rs_remainder(data@, g@),
        rem.len() == g.len(),
{
    let n: usize = g.len();
    let mut rem: Vec<u8> = Vec::with_capacity(n);
    let mut j: usize = 0;
    while j < n
        invariant
            j <= n == g.len(),
            rem@ == Seq::new(j as nat, |j: int| 0u8),
        decreases n - j,
    {
        rem.push(0);
        j = j + 1;
        assert(rem@ == Seq::new(j as nat, |j: int| 0u8));
    }
    assert(data@.subrange(0, 0) == Seq::<u8>::empty());
    let mut i: usize = 0;
    while i < data.len()
        invariant
            i <= data.len(),
            1 <= n == g.len(),
            rem@ == rs_remainder(data@.subrange(0, i as int), g@),
            rem.len() == n,
        decreases data.len() - i,
    {
        let ghost before = rem@;
        let factor: u8 = data[i] ^ rem[0];
        let mut j: usize = 0;
        while j < n
            invariant
                j <= n == g.len() == rem.len(),
                n >= 1,
                before.len() == n,
                i < data.len(),
                factor == data[i as int] ^ before[0],
                forall|k: int| 0 <= k < j ==> rem[k] == rs_step(before, g@, data[i as int])[k],
                forall|k: int| j <= k < n ==> rem[k] == before[k],
            decreases n - j,
        {
            let carry: u8 = if j + 1 < n {
                rem[j + 1]
            } else {
                0
            };
            rem[j] = carry ^ multiply(g[j], factor);
            j = j + 1;
        }
        proof {
            let taken = data@.subrange(0, i + 1);
            assert(taken.drop_last() == data@.subrange(0, i as int));
            assert(taken.last() == data[i as int]);
            assert(rem@ == rs_step(before, g@, data[i as int]));
        }
        i = i + 1;
    }
    assert(data@.subrange(0, data.len() as int) == data@);
    rem
}

} // verus!
