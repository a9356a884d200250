//! Bit sequences: how numbers are written out as bits, most significant bit
//! first, and how bits are gathered into codewords.

use vstd::prelude::*;

verus! {

/// `value` with its `j` lowest bits dropped.
pub open spec fn shifted(value: int, j: nat) -> int
    decreases j,
{
    if j == 0 {
        value
    } else {
        shifted(value / 2, (j - 1) as nat)
    }
}

/// The lowest `width` bits of `value`, most significant first.
pub open spec fn bits_of(value: int, width: nat) -> Seq<bool> {
    Seq::new(width, |i: int| shifted(value, (width - 1 - i) as nat) % 2 == 1)
}

/// The number that `bits` spell, most significant bit first.
pub open spec fn bits_value(bits: Seq<bool>) -> int
    decreases bits.len(),
{
    if bits.len() == 0 {
        0
    } else {
        2 * bits_value(bits.drop_last()) + if bits.last() {
            1int
        } else {
            0int
        }
    }
}

/// The codewords that `bits` spell, eight bits to a codeword; bits beyond the
/// last full codeword are left out.
pub open spec fn pack(bits: Seq<bool>) -> Seq<u8> {
    Seq::new(bits.len() / 8, |k: int| bits_value(bits.subrange(8 * k, 8 * k + 8)) as u8)
}

/// The bits of `codewords`, eight for each, most significant first.
pub open spec fn unpack(codewords: Seq<u8>) -> Seq<bool> {
    Seq::new(
        8 * codewords.len(),
        |i: int| shifted(codewords[i / 8] as int, (7 - i % 8) as nat) % 2 == 1,
    )
}

/// `n` bits, all of them zero.
pub open spec fn zeros(n: nat) -> Seq<bool> {
    Seq::new(n, |i: int| false)
}

/// Shifting a number right by `j` bits drops its `j` lowest bits.
pub proof fn lemma_shift_right(value: u32, j: u32)
    requires
        j < 32,
    ensures
        (value >> j) as int == shifted(value as int, j as nat),
    decreases j,
{
    if j == 0 {
        assert(value >> 0u32 == value) by (bit_vector);
    } else {
        let half: u32 = value / 2;
        let k: u32 = (j - 1) as u32;
        lemma_shift_right(half, k);
        assert((value / 2) >> k == value >> j) by (bit_vector)
            requires
                1 <= j < 32,
                k == (j - 1) as u32,
        ;
    }
}

/// A number of `n` bits is below two to the `n`.
pub proof fn lemma_bits_value_bound(bits: Seq<bool>)
    requires
        bits.len() <= 8,
    ensures
        0 <= bits_value(bits) < 256,
        bits.len() <= 7 ==> bits_value(bits) < 128,
        bits.len() <= 6 ==> bits_value(bits) < 64,
        bits.len() <= 5 ==> bits_value(bits) < 32,
        bits.len() <= 4 ==> bits_value(bits) < 16,
        bits.len() <= 3 ==> bits_value(bits) < 8,
        bits.len() <= 2 ==> bits_value(bits) < 4,
        bits.len() <= 1 ==> bits_value(bits) < 2,
        bits.len() == 0 ==> bits_value(bits) == 0,
    decreases bits.len(),
{
    if bits.len() > 0 {
        lemma_bits_value_bound(bits.drop_last());
    }
}

/// The number that bits spell has these bits.
proof fn lemma_bits_of_value(bits: Seq<bool>, j: int)
    requires
        0 <= j < bits.len(),
    ensures
        (shifted(bits_value(bits), (bits.len() - 1 - j) as nat) % 2 == 1) == bits[j],
    decreases bits.len(),
{
    if j < bits.len() - 1 {
        lemma_bits_of_value(bits.drop_last(), j);
    }
}

/// Gathering bits into codewords loses nothing: the bits of the codewords
/// are the bits that were gathered, as far as they fill whole codewords.
pub proof fn lemma_unpack_pack(bits: Seq<bool>)
    requires
        bits.len() % 8 == 0,
    ensures
        unpack(pack(bits)) == bits,
{
    assert forall|i: int| 0 <= i < bits.len() implies unpack(pack(bits))[i] == bits[i] by {
        let k = i / 8;
        let group = bits.subrange(8 * k, 8 * k + 8);
        lemma_bits_value_bound(group);
        lemma_bits_of_value(group, i % 8);
    }
    assert(unpack(pack(bits)) =~= bits);
}

/// Appends the lowest `width` bits of `value` to `out`, most significant first.
pub fn push_bits(out: &mut Vec<bool>, value: u32, width: u32)
    requires
        width <= 32,
    ensures
        final(out)@ == old(out)@ + bits_of(value as int, width as nat),
{
    let mut i: u32 = width;
    while i > 0
        invariant
            i <= width <= 32,
            out@ == old(out)@ + bits_of(value as int, width as nat).subrange(0, width - i),
        decreases i,
    {
        i = i - 1;
        let low: u32 = (value >> i) & 1;
        proof {
            lemma_shift_right(value, i);
            let x: u32 = value >> i;
            assert(x & 1 == x % 2) by (bit_vector);
        }
        out.push(low == 1);
        assert(out@ == old(out)@ + bits_of(value as int, width as nat).subrange(0, width - i));
    }
    assert(bits_of(value as int, width as nat).subrange(0, width as int) == bits_of(
        value as int,
        width as nat,
    ));
}

/// Appends `n` zero bits to `out`.
pub fn push_zeros(out: &mut Vec<bool>, n: usize)
    ensures
        final(out)@ == old(out)@ + zeros(n as nat),
{
    let mut i: usize = 0;
    while i < n
        invariant
            i <= n,
            out@ == old(out)@ + zeros(i as nat),
        decreases n - i,
    {
        out.push(false);
        i = i + 1;
        assert(out@ == old(out)@ + zeros(i as nat));
    }
}

/// Gathers `bits` into codewords, eight bits to a codeword.
pub fn pack_bits(bits: &Vec<bool>) -> (codewords: Vec<u8>)
    ensures
        codewords@ == pack(bits@),
        codewords.len() == bits.len() / 8,
{
    let count: usize = bits.len() / 8;
    let mut codewords: Vec<u8> = Vec::with_capacity(count);
    let mut k: usize = 0;
    while k < count
        invariant
            k <= count,
            count == bits.len() / 8,
            codewords@ == pack(bits@).subrange(0, k as int),
        decreases count - k,
    {
        let ghost group = bits@.subrange(8 * k, 8 * k + 8);
        let mut acc: u8 = 0;
        let mut i: usize = 0;
        while i < 8
            invariant
                i <= 8,
                k < count,
                count == bits.len() / 8,
                group == bits@.subrange(8 * k, 8 * k + 8),
                acc == bits_value(group.subrange(0, i as int)),
            decreases 8 - i,
        {
            let bit: bool = bits[8 * k + i];
            proof {
                let step = group.subrange(0, i + 1);
                assert(step.drop_last() == group.subrange(0, i as int));
                assert(step.last() == bit);
                lemma_bits_value_bound(group.subrange(0, i as int));
                lemma_bits_value_bound(step);
            }
            acc = acc * 2 + if bit {
                1
            } else {
                0
            };
            i = i + 1;
        }
        assert(group.subrange(0, 8) == group);
        codewords.push(acc);
        k = k + 1;
        assert(codewords@ == pack(bits@).subrange(0, k as int));
    }
    assert(pack(bits@).subrange(0, count as int) == pack(bits@));
    codewords
}

/// Writes `codewords` out as bits, eight for each, most significant first.
pub fn unpack_bits(codewords: &Vec<u8>) -> (bits: Vec<bool>)
    requires
        codewords.len() <= usize::MAX / 8,
    ensures
        bits@ == unpack(codewords@),
        bits.len() == 8 * codewords.len(),
{
    let mut bits: Vec<bool> = Vec::with_capacity(codewords.len() * 8);
    let mut k: usize = 0;
    while k < codewords.len()
        invariant
            k <= codewords.len() <= usize::MAX / 8,
            bits@ == unpack(codewords@).subrange(0, 8 * k),
        decreases codewords.len() - k,
    {
        let ghost before = bits@;
        push_bits(&mut bits, codewords[k] as u32, 8);
        k = k + 1;
        assert(bits@ == unpack(codewords@).subrange(0, 8 * k)) by {
            assert(bits@.len() == 8 * k);
            assert forall|i: int| 0 <= i < 8 * k implies bits@[i] == unpack(codewords@)[i] by {
                if i >= 8 * (k - 1) {
                    assert(i / 8 == k - 1);
                    assert(bits@[i] == bits_of(codewords[k - 1] as int, 8)[i - 8 * (k - 1)]);
                } else {
                    assert(bits@[i] == before[i]);
                }
            }
        }
    }
    assert(unpack(codewords@).subrange(0, 8 * codewords.len()) == unpack(codewords@));
    bits
}

} // verus!
