//! Format and version information: the two short words that tell a scanner
//! the level and mask of a symbol and, from version 7 on, its version. Each
//! is a few data bits followed by the check bits of a BCH code.

use vstd::prelude::*;
use crate::bits::{lemma_shift_right, shifted};
use crate::ecl::ECL;
use crate::mask::{mask_index, Mask};
use crate::version::Version;

verus! {

/// Generator polynomial of the code that protects the format information:
/// `x^10 + x^8 + x^5 + x^4 + x^2 + x + 1`.
pub const FORMAT_GENERATOR: u32 = 0x537;

/// The pattern that is laid over the format information so that it is never
/// all zero.
pub const FORMAT_MASK: u32 = 0x5412;

/// Generator polynomial of the code that protects the version information:
/// `x^12 + x^11 + x^10 + x^9 + x^8 + x^5 + x^2 + 1`.
pub const VERSION_GENERATOR: u32 = 0x1F25;

/// One step of a polynomial division over the two-element field: the
/// remainder is multiplied by `x`, and the generator is taken off where the
/// product reaches its degree. `top` is the highest power below the degree.
pub open spec fn bch_step(rem: u32, generator: u32, top: u32) -> u32 {
    if rem >= top {
        ((rem * 2) as u32) ^ generator
    } else {
        (rem * 2) as u32
    }
}

/// The remainder after `steps` steps of the division, begun with `data`.
pub open spec fn bch_remainder(data: u32, generator: u32, top: u32, steps: nat) -> u32
    decreases steps,
{
    if steps == 0 {
        data
    } else {
        bch_step(bch_remainder(data, generator, top, (steps - 1) as nat), generator, top)
    }
}

/// The five data bits of the format information: two for the level, three
/// for the mask.
pub open spec fn format_data(level: ECL, mask: Mask) -> int {
    level.spec_format_bits() * 8 + mask_index(mask)
}

/// The fifteen bits of the format information of a symbol.
pub open spec fn format_word(level: ECL, mask: Mask) -> u32 {
    let data = format_data(level, mask) as u32;
    ((data * 1024 + bch_remainder(data, FORMAT_GENERATOR, 512, 10)) as u32) ^ FORMAT_MASK
}

/// The eighteen bits of the version information of a symbol of version `v`.
pub open spec fn version_word(v: int) -> u32 {
    (v * 4096 + bch_remainder(v as u32, VERSION_GENERATOR, 2048, 12)) as u32
}

/// Bit `i` of `word`, counted from the least significant.
pub open spec fn word_bit(word: u32, i: int) -> bool {
    shifted(word as int, i as nat) % 2 == 1
}

proof fn lemma_step_bound(rem: u32, generator: u32, top: u32)
    requires
        top == 512 && generator == 0x537 || top == 2048 && generator == 0x1F25,
        rem < 2 * top,
    ensures
        bch_step(rem, generator, top) < 2 * top,
{
    if rem >= top {
        let twice: u32 = (rem * 2) as u32;
        if top == 512 {
            assert(twice ^ 0x537 < 1024) by (bit_vector)
                requires
                    1024 <= twice < 2048,
            ;
        } else {
            assert(twice ^ 0x1F25 < 4096) by (bit_vector)
                requires
                    4096 <= twice < 8192,
            ;
        }
    }
}

proof fn lemma_remainder_bound(data: u32, generator: u32, top: u32, steps: nat)
    requires
        top == 512 && generator == 0x537 || top == 2048 && generator == 0x1F25,
        data < 2 * top,
    ensures
        bch_remainder(data, generator, top, steps) < 2 * top,
    decreases steps,
{
    if steps > 0 {
        lemma_remainder_bound(data, generator, top, (steps - 1) as nat);
        lemma_step_bound(bch_remainder(data, generator, top, (steps - 1) as nat), generator, top);
    }
}

/// The format information carries level and mask in its five highest
/// bits, under the pattern that is laid over it.
pub proof fn lemma_format_carries(level: ECL, mask: Mask)
    ensures
        (format_word(level, mask) ^ FORMAT_MASK) / 1024 == format_data(level, mask),
        format_word(level, mask) < 32768,
{
    let data = format_data(level, mask) as u32;
    let rem = bch_remainder(data, FORMAT_GENERATOR, 512, 10);
    lemma_remainder_bound(data, FORMAT_GENERATOR, 512, 10);
    let plain: u32 = (data * 1024 + rem) as u32;
    assert(((plain ^ 0x5412) ^ 0x5412) == plain && (plain ^ 0x5412) < 32768) by (bit_vector)
        requires
            plain < 32768,
    ;
}

/// The version information carries the number of the version in its six
/// highest bits.
pub proof fn lemma_version_carries(v: int)
    requires
        1 <= v <= 40,
    ensures
        version_word(v) / 4096 == v,
        version_word(v) < 262144,
{
    lemma_remainder_bound(v as u32, VERSION_GENERATOR, 2048, 12);
}

fn divide(data: u32, generator: u32, top: u32, steps: u32) -> (rem: u32)
    requires
        top == 512 && generator == 0x537 || top == 2048 && generator == 0x1F25,
        data < 2 * top,
    ensures
        rem == bch_remainder(data, generator, top, steps as nat),
        rem < 2 * top,
{
    let mut rem: u32 = data;
    let mut k: u32 = 0;
    while k < steps
        invariant
            k <= steps,
            top == 512 && generator == 0x537 || top == 2048 && generator == 0x1F25,
            rem == bch_remainder(data, generator, top, k as nat),
            rem < 2 * top,
        decreases steps - k,
    {
        proof {
            lemma_step_bound(rem, generator, top);
        }
        rem = if rem >= top {
            (rem * 2) ^ generator
        } else {
            rem * 2
        };
        k = k + 1;
    }
    rem
}

/// Computes the fifteen bits of the format information.
pub fn format_bits(level: ECL, mask: Mask) -> (word: u32)
    ensures
        word == format_word(level, mask),
{
    let data: u32 = (level.format_bits() as u32) * 8 + mask.index() as u32;
    let rem: u32 = divide(data, FORMAT_GENERATOR, 512, 10);
    (data * 1024 + rem) ^ FORMAT_MASK
}

/// Computes the eighteen bits of the version information.
pub fn version_bits(version: Version) -> (word: u32)
    ensures
        word == version_word(version.spec_number()),
{
    let data: u32 = version.number() as u32;
    let rem: u32 = divide(data, VERSION_GENERATOR, 2048, 12);
    data * 4096 + rem
}

/// Reads bit `i` of `word`, counted from the least significant.
pub fn bit_at(word: u32, i: u8) -> (bit: bool)
    requires
        i < 32,
    ensures
        bit == word_bit(word, i as int),
{
    let low: u32 = (word >> (i as u32)) & 1;
    proof {
        lemma_shift_right(word, i as u32);
        let x: u32 = word >> (i as u32);
        assert(x & 1 == x % 2) by (bit_vector);
    }
    low == 1
}

} // verus!
