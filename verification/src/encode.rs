//! The bit encoder: packs mode indicator, character count and payload into a
//! bit stream and pads it to the number of data codewords of the symbol.

use vstd::prelude::*;
use crate::bits::{bits_of, pack, pack_bits, push_bits, push_zeros, zeros};
use crate::capacity::{data_codewords, data_codewords_of, lemma_table_bounds, valid_version};
use crate::ecl::ECL;
use crate::mode::{
    alphanumeric_index,
    alphanumeric_value,
    all_alphanumeric,
    all_digits,
    count_bits,
    fits,
    mode_accepts,
    mode_indicator,
    payload_len,
    segment_len,
    Mode,
};
use crate::version::Version;

verus! {

/// The value of a decimal digit.
pub open spec fn digit(byte: u8) -> int {
    byte - 0x30
}

/// The value of a character of the alphanumeric alphabet.
pub open spec fn letter(byte: u8) -> int {
    alphanumeric_value(byte)->0
}

/// Digits in groups of three, each group written as a number of ten bits; a
/// last group of two digits takes seven bits and a single digit four.
pub open spec fn numeric_payload(input: Seq<u8>) -> Seq<bool>
    decreases input.len(),
{
    if input.len() == 0 {
        Seq::empty()
    } else if input.len() == 1 {
        bits_of(digit(input[0]), 4)
    } else if input.len() == 2 {
        bits_of(10 * digit(input[0]) + digit(input[1]), 7)
    } else {
        bits_of(100 * digit(input[0]) + 10 * digit(input[1]) + digit(input[2]), 10)
            + numeric_payload(input.skip(3))
    }
}

/// Characters in pairs, each pair written as a number of eleven bits; a last
/// single character takes six bits.
pub open spec fn alphanumeric_payload(input: Seq<u8>) -> Seq<bool>
    decreases input.len(),
{
    if input.len() == 0 {
        Seq::empty()
    } else if input.len() == 1 {
        bits_of(letter(input[0]), 6)
    } else {
        bits_of(45 * letter(input[0]) + letter(input[1]), 11) + alphanumeric_payload(
            input.skip(2),
        )
    }
}

/// Every byte as it is, eight bits each.
pub open spec fn byte_payload(input: Seq<u8>) -> Seq<bool>
    decreases input.len(),
{
    if input.len() == 0 {
        Seq::empty()
    } else {
        bits_of(input[0] as int, 8) + byte_payload(input.skip(1))
    }
}

/// The payload of `input` in the given mode.
pub open spec fn payload(mode: Mode, input: Seq<u8>) -> Seq<bool> {
    match mode {
        Mode::Numeric => numeric_payload(input),
        Mode::Alphanumeric => alphanumeric_payload(input),
        Mode::Byte => byte_payload(input),
    }
}

/// The segment that carries `input`: mode indicator, character count, payload.
pub open spec fn segment(mode: Mode, v: int, input: Seq<u8>) -> Seq<bool> {
    bits_of(mode_indicator(mode), 4) + bits_of(input.len() as int, count_bits(mode, v) as nat)
        + payload(mode, input)
}

/// `bits` followed by the terminator: four zero bits, or fewer where less
/// room is left.
pub open spec fn terminated(bits: Seq<bool>, capacity: int) -> Seq<bool> {
    let room = capacity - bits.len();
    bits + zeros(
        if room >= 4 {
            4nat
        } else if room >= 0 {
            room as nat
        } else {
            0nat
        },
    )
}

/// `bits` followed by zero bits up to the next codeword boundary.
pub open spec fn aligned(bits: Seq<bool>) -> Seq<bool> {
    bits + zeros(((8 - bits.len() % 8) % 8) as nat)
}

/// The `k`-th pad codeword: `0xEC` and `0x11` in turn.
pub open spec fn pad_codeword(k: int) -> int {
    if k % 2 == 0 {
        0xEC
    } else {
        0x11
    }
}

/// The bits of the first `count` pad codewords.
pub open spec fn padding(count: nat) -> Seq<bool>
    decreases count,
{
    if count == 0 {
        Seq::empty()
    } else {
        padding((count - 1) as nat) + bits_of(pad_codeword(count - 1), 8)
    }
}

/// The whole bit stream of the data codewords: the segment, the terminator,
/// zero bits to the codeword boundary, and pad codewords to the capacity of
/// the symbol.
pub open spec fn encoded_bits(mode: Mode, v: int, level: ECL, input: Seq<u8>) -> Seq<bool> {
    let capacity = 8 * data_codewords(v, level);
    let body = aligned(terminated(segment(mode, v, input), capacity));
    body + padding(((capacity - body.len()) / 8) as nat)
}

/// The data codewords of the symbol.
pub open spec fn encoded_codewords(mode: Mode, v: int, level: ECL, input: Seq<u8>) -> Seq<u8> {
    pack(encoded_bits(mode, v, level, input))
}

/// The numeric payload takes the number of bits that the capacity check
/// counts for it.
pub proof fn lemma_numeric_len(input: Seq<u8>)
    ensures
        numeric_payload(input).len() == payload_len(Mode::Numeric, input.len() as int),
    decreases input.len(),
{
    if input.len() >= 3 {
        lemma_numeric_len(input.skip(3));
    }
}

/// The alphanumeric payload takes the number of bits that the capacity check
/// counts for it.
pub proof fn lemma_alphanumeric_len(input: Seq<u8>)
    ensures
        alphanumeric_payload(input).len() == payload_len(Mode::Alphanumeric, input.len() as int),
    decreases input.len(),
{
    if input.len() >= 2 {
        lemma_alphanumeric_len(input.skip(2));
    }
}

/// The byte payload takes eight bits for each byte.
pub proof fn lemma_byte_len(input: Seq<u8>)
    ensures
        byte_payload(input).len() == payload_len(Mode::Byte, input.len() as int),
    decreases input.len(),
{
    if input.len() >= 1 {
        lemma_byte_len(input.skip(1));
    }
}

/// A segment takes the number of bits that the capacity check counts for it.
pub proof fn lemma_segment_len(mode: Mode, v: int, input: Seq<u8>)
    requires
        valid_version(v),
    ensures
        segment(mode, v, input).len() == segment_len(mode, v, input.len() as int),
{
    lemma_numeric_len(input);
    lemma_alphanumeric_len(input);
    lemma_byte_len(input);
}

/// Pad codewords take eight bits each.
pub proof fn lemma_padding_len(count: nat)
    ensures
        padding(count).len() == 8 * count,
    decreases count,
{
    if count > 0 {
        lemma_padding_len((count - 1) as nat);
    }
}

/// Terminator, alignment and pad codewords fill what the segment leaves of
/// `count` codewords, whatever the segment's length `used`.
proof fn lemma_fill(count: int, used: int)
    requires
        0 <= used <= 8 * count,
    ensures
        ({
            let room = 8 * count - used;
            let ended = used + if room >= 4 {
                4
            } else {
                room
            };
            let body = ended + (8 - ended % 8) % 8;
            &&& body % 8 == 0
            &&& body <= 8 * count
            &&& body + 8 * ((8 * count - body) / 8) == 8 * count
        }),
{
}

/// For every input that fits, the bit stream fills the data codewords of the
/// symbol exactly: its length is eight times their number.
pub proof fn lemma_encoded_len(mode: Mode, v: int, level: ECL, input: Seq<u8>)
    requires
        valid_version(v),
        fits(mode, level, input.len() as int, v),
    ensures
        encoded_bits(mode, v, level, input).len() == 8 * data_codewords(v, level),
        encoded_bits(mode, v, level, input).len() % 8 == 0,
        encoded_codewords(mode, v, level, input).len() == data_codewords(v, level),
{
    lemma_segment_len(mode, v, input);
    let count = data_codewords(v, level);
    let part = segment(mode, v, input);
    let body = aligned(terminated(part, 8 * count));
    lemma_fill(count, part.len() as int);
    lemma_padding_len(((8 * count - body.len()) / 8) as nat);
}

fn push_numeric(out: &mut Vec<bool>, input: &[u8])
    requires
        all_digits(input@),
    ensures
        final(out)@ == old(out)@ + numeric_payload(input@),
{
    let mut i: usize = 0;
    let len: usize = input.len();
    assert(input@.skip(0) == input@);
    while len - i >= 3
        invariant
            i <= len == input.len(),
            all_digits(input@),
            out@ + numeric_payload(input@.skip(i as int)) == old(out)@ + numeric_payload(input@),
        decreases len - i,
    {
        let a: u32 = (input[i] - 0x30) as u32;
        let b: u32 = (input[i + 1] - 0x30) as u32;
        let c: u32 = (input[i + 2] - 0x30) as u32;
        let ghost before = out@;
        let ghost rest = input@.skip(i as int);
        push_bits(out, 100 * a + 10 * b + c, 10);
        proof {
            assert(rest.skip(3) == input@.skip(i + 3));
            assert(numeric_payload(rest) == bits_of(100 * a + 10 * b + c, 10) + numeric_payload(
                rest.skip(3),
            ));
            assert(out@ + numeric_payload(rest.skip(3)) == before + numeric_payload(rest));
        }
        i = i + 3;
    }
    let ghost rest = input@.skip(i as int);
    let ghost before = out@;
    if len - i == 2 {
        let a: u32 = (input[i] - 0x30) as u32;
        let b: u32 = (input[i + 1] - 0x30) as u32;
        push_bits(out, 10 * a + b, 7);
    } else if len - i == 1 {
        let a: u32 = (input[i] - 0x30) as u32;
        push_bits(out, a, 4);
    }
    assert(out@ == before + numeric_payload(rest));
}

fn push_alphanumeric(out: &mut Vec<bool>, input: &[u8])
    requires
        all_alphanumeric(input@),
    ensures
        final(out)@ == old(out)@ + alphanumeric_payload(input@),
{
    let mut i: usize = 0;
    let len: usize = input.len();
    assert(input@.skip(0) == input@);
    while len - i >= 2
        invariant
            i <= len == input.len(),
            all_alphanumeric(input@),
            out@ + alphanumeric_payload(input@.skip(i as int)) == old(out)@
                + alphanumeric_payload(input@),
        decreases len - i,
    {
        let a: u32 = match alphanumeric_index(input[i]) {
            Some(x) => x as u32,
            None => 0,
        };
        let b: u32 = match alphanumeric_index(input[i + 1]) {
            Some(x) => x as u32,
            None => 0,
        };
        let ghost before = out@;
        let ghost rest = input@.skip(i as int);
        push_bits(out, 45 * a + b, 11);
        proof {
            assert(rest.skip(2) == input@.skip(i + 2));
            assert(alphanumeric_payload(rest) == bits_of(45 * a + b, 11) + alphanumeric_payload(
                rest.skip(2),
            ));
            assert(out@ + alphanumeric_payload(rest.skip(2)) == before + alphanumeric_payload(
                rest,
            ));
        }
        i = i + 2;
    }
    let ghost rest = input@.skip(i as int);
    let ghost before = out@;
    if len - i == 1 {
        let a: u32 = match alphanumeric_index(input[i]) {
            Some(x) => x as u32,
            None => 0,
        };
        push_bits(out, a, 6);
    }
    assert(out@ == before + alphanumeric_payload(rest));
}

fn push_bytes(out: &mut Vec<bool>, input: &[u8])
    ensures
        final(out)@ == old(out)@ + byte_payload(input@),
{
    let mut i: usize = 0;
    let len: usize = input.len();
    assert(input@.skip(0) == input@);
    while i < len
        invariant
            i <= len == input.len(),
            out@ + byte_payload(input@.skip(i as int)) == old(out)@ + byte_payload(input@),
        decreases len - i,
    {
        let ghost before = out@;
        let ghost rest = input@.skip(i as int);
        push_bits(out, input[i] as u32, 8);
        proof {
            assert(rest.skip(1) == input@.skip(i + 1));
            assert(byte_payload(rest) == bits_of(input[i as int] as int, 8) + byte_payload(
                rest.skip(1),
            ));
            assert(out@ + byte_payload(rest.skip(1)) == before + byte_payload(rest));
        }
        i = i + 1;
    }
    assert(out@ + Seq::<bool>::empty() == out@);
}

/// Writes `input` out as the bit stream of the data codewords of a symbol of
/// the given version and level: segment, terminator, zero bits to the
/// codeword boundary, pad codewords.
pub fn encode_bits(input: &[u8], level: ECL, mode: Mode, version: Version) -> (bits: Vec<bool>)
    requires
        mode_accepts(mode, input@),
        fits(mode, level, input.len() as int, version.spec_number()),
    ensures
        bits@ == encoded_bits(mode, version.spec_number(), level, input@),
        bits.len() == 8 * data_codewords(version.spec_number(), level),
        bits.len() % 8 == 0,
{
    let ghost v = version.spec_number();
    let capacity: usize = 8 * data_codewords_of(version, level);
    proof {
        lemma_segment_len(mode, v, input@);
        lemma_encoded_len(mode, v, level, input@);
        lemma_table_bounds(v, level);
    }
    let mut bits: Vec<bool> = Vec::with_capacity(capacity);
    push_bits(&mut bits, mode.indicator(), 4);
    assert(bits@ == bits_of(mode_indicator(mode), 4));
    push_bits(&mut bits, input.len() as u32, mode.count_bits(version));
    match mode {
        Mode::Numeric => push_numeric(&mut bits, input),
        Mode::Alphanumeric => push_alphanumeric(&mut bits, input),
        Mode::Byte => push_bytes(&mut bits, input),
    }
    assert(bits@ == segment(mode, v, input@));
    let room: usize = capacity - bits.len();
    push_zeros(
        &mut bits,
        if room >= 4 {
            4
        } else {
            room
        },
    );
    assert(bits@ == terminated(segment(mode, v, input@), capacity as int));
    let gap: usize = (8 - bits.len() % 8) % 8;
    push_zeros(&mut bits, gap);
    let ghost body = bits@;
    assert(body == aligned(terminated(segment(mode, v, input@), capacity as int)));
    let count: usize = (capacity - bits.len()) / 8;
    let mut k: usize = 0;
    while k < count
        invariant
            k <= count,
            bits@ == body + padding(k as nat),
        decreases count - k,
    {
        push_bits(
            &mut bits,
            if k % 2 == 0 {
                0xEC
            } else {
                0x11
            },
            8,
        );
        k = k + 1;
        assert(bits@ == body + padding(k as nat));
    }
    bits
}

/// Encodes `input` as the data codewords of a symbol of the given version and
/// level.
pub fn encode(input: &[u8], level: ECL, mode: Mode, version: Version) -> (codewords: Vec<u8>)
    requires
        mode_accepts(mode, input@),
        fits(mode, level, input.len() as int, version.spec_number()),
    ensures
        codewords@ == encoded_codewords(mode, version.spec_number(), level, input@),
        codewords.len() == data_codewords(version.spec_number(), level),
{
    let bits = encode_bits(input, level, mode, version);
    pack_bits(&bits)
}

} // verus!
