//! Encoding modes: which inputs each mode can carry, how many bits it takes,
//! and which mode is the most compact for an input.

use vstd::prelude::*;
use crate::capacity::{data_codewords, data_codewords_of, lemma_table_bounds, valid_version};
use crate::ecl::ECL;
use crate::version::Version;

verus! {

/// How the input is written into the symbol.
#[derive(Copy, Clone, Debug, PartialEq, Eq, Structural)]
pub enum Mode {
    /// Decimal digits, three to ten bits.
    Numeric,
    /// Digits, upper-case letters, space and `$%*+-./:`, two to eleven bits.
    Alphanumeric,
    /// Any bytes, eight bits each.
    Byte,
}

/// Whether `byte` is an ASCII decimal digit.
pub open spec fn is_digit(byte: u8) -> bool {
    0x30 <= byte <= 0x39
}

/// The value of `byte` in the alphanumeric mode's alphabet of 45 characters,
/// if it belongs to that alphabet.
pub open spec fn alphanumeric_value(byte: u8) -> Option<int> {
    if 0x30 <= byte <= 0x39 {
        Some(byte - 0x30)
    } else if 0x41 <= byte <= 0x5a {
        Some(byte - 0x41 + 10)
    } else if byte == 0x20 {
        Some(36)
    } else if byte == 0x24 {
        Some(37)
    } else if byte == 0x25 {
        Some(38)
    } else if byte == 0x2a {
        Some(39)
    } else if byte == 0x2b {
        Some(40)
    } else if byte == 0x2d {
        Some(41)
    } else if byte == 0x2e {
        Some(42)
    } else if byte == 0x2f {
        Some(43)
    } else if byte == 0x3a {
        Some(44)
    } else {
        None
    }
}

/// Whether every byte of `input` is a decimal digit.
pub open spec fn all_digits(input: Seq<u8>) -> bool {
    forall|i: int| 0 <= i < input.len() ==> is_digit(#[trigger] input[i])
}

/// Whether every byte of `input` belongs to the alphanumeric alphabet.
pub open spec fn all_alphanumeric(input: Seq<u8>) -> bool {
    forall|i: int| 0 <= i < input.len() ==> alphanumeric_value(#[trigger] input[i]) is Some
}

/// Whether `mode` can carry `input` without loss.
pub open spec fn mode_accepts(mode: Mode, input: Seq<u8>) -> bool {
    match mode {
        Mode::Numeric => all_digits(input),
        Mode::Alphanumeric => all_alphanumeric(input),
        Mode::Byte => true,
    }
}

/// The most compact mode that can carry `input`.
pub open spec fn best_mode(input: Seq<u8>) -> Mode {
    if all_digits(input) {
        Mode::Numeric
    } else if all_alphanumeric(input) {
        Mode::Alphanumeric
    } else {
        Mode::Byte
    }
}

/// The four-bit indicator that opens a segment of the given mode.
pub open spec fn mode_indicator(mode: Mode) -> int {
    match mode {
        Mode::Numeric => 1,
        Mode::Alphanumeric => 2,
        Mode::Byte => 4,
    }
}

/// Width in bits of the character count of a segment, which grows with the
/// version in three steps.
pub open spec fn count_bits(mode: Mode, v: int) -> int {
    match mode {
        Mode::Numeric => if v <= 9 {
            10
        } else if v <= 26 {
            12
        } else {
            14
        },
        Mode::Alphanumeric => if v <= 9 {
            9
        } else if v <= 26 {
            11
        } else {
            13
        },
        Mode::Byte => if v <= 9 {
            8
        } else {
            16
        },
    }
}

/// Bits that `len` characters take in the given mode, without the header.
pub open spec fn payload_len(mode: Mode, len: int) -> int {
    match mode {
        Mode::Numeric => 10 * (len / 3) + if len % 3 == 1 {
            4int
        } else if len % 3 == 2 {
            7int
        } else {
            0int
        },
        Mode::Alphanumeric => 11 * (len / 2) + 6 * (len % 2),
        Mode::Byte => 8 * len,
    }
}

/// Bits that a segment of `len` characters takes in a symbol of version `v`:
/// mode indicator, character count and payload.
pub open spec fn segment_len(mode: Mode, v: int, len: int) -> int {
    4 + count_bits(mode, v) + payload_len(mode, len)
}

/// Whether a symbol of version `v` at `level` has room for `len` characters in
/// the given mode.
pub open spec fn fits(mode: Mode, level: ECL, len: int, v: int) -> bool {
    segment_len(mode, v, len) <= 8 * data_codewords(v, level)
}

/// Whether no version from 1 to 40 has room for the input.
pub open spec fn too_large(mode: Mode, level: ECL, len: int) -> bool {
    forall|v: int| valid_version(v) ==> !fits(mode, level, len, v)
}

/// Whether `v` is the smallest version with room for the input.
pub open spec fn smallest_fit(mode: Mode, level: ECL, len: int, v: int) -> bool {
    &&& valid_version(v)
    &&& fits(mode, level, len, v)
    &&& forall|w: int| 1 <= w < v ==> !fits(mode, level, len, w)
}

/// The smallest version from `from` on with room for the input, or 41 if
/// there is none.
pub open spec fn first_fit(mode: Mode, level: ECL, len: int, from: int) -> int
    decreases 41 - from,
{
    if from > 40 {
        41
    } else if fits(mode, level, len, from) {
        from
    } else {
        first_fit(mode, level, len, from + 1)
    }
}

/// The search from version 1 finds the smallest version with room for the
/// input, and finds none only where the input is too large for every version.
pub proof fn lemma_first_fit(mode: Mode, level: ECL, len: int)
    ensures
        1 <= first_fit(mode, level, len, 1) <= 41,
        first_fit(mode, level, len, 1) <= 40 ==> smallest_fit(
            mode,
            level,
            len,
            first_fit(mode, level, len, 1),
        ),
        first_fit(mode, level, len, 1) == 41 <==> too_large(mode, level, len),
{
    lemma_first_fit_from(mode, level, len, 1);
}

proof fn lemma_first_fit_from(mode: Mode, level: ECL, len: int, from: int)
    requires
        1 <= from <= 41,
    ensures
        from <= first_fit(mode, level, len, from) <= 41,
        first_fit(mode, level, len, from) <= 40 ==> fits(
            mode,
            level,
            len,
            first_fit(mode, level, len, from),
        ),
        forall|w: int| from <= w < first_fit(mode, level, len, from) ==> !fits(mode, level, len, w),
    decreases 41 - from,
{
    if from <= 40 && !fits(mode, level, len, from) {
        lemma_first_fit_from(mode, level, len, from + 1);
    }
}

/// Room grows with the version: what fits into a symbol fits into every
/// larger one at the same level. So a version has room for the input if and
/// only if it is at least the smallest version with room for it.
pub proof fn lemma_room_grows(mode: Mode, level: ECL, len: int, v: int, w: int)
    requires
        valid_version(v),
        valid_version(w),
        v <= w,
        fits(mode, level, len, v),
    ensures
        fits(mode, level, len, w),
    decreases w - v,
{
    if v < w {
        lemma_room_grows(mode, level, len, v, w - 1);
        assert(data_codewords(w, level) > data_codewords(w - 1, level));
        assert(count_bits(mode, w) <= count_bits(mode, w - 1) + 8);
    }
}

impl Mode {
    /// The four-bit indicator that opens a segment of this mode.
    pub fn indicator(self) -> (bits: u32)
        ensures
            bits == mode_indicator(self),
    {
        match self {
            Mode::Numeric => 1,
            Mode::Alphanumeric => 2,
            Mode::Byte => 4,
        }
    }

    /// Width in bits of the character count in a symbol of the given version.
    pub fn count_bits(self, version: Version) -> (bits: u32)
        ensures
            bits == count_bits(self, version.spec_number()),
            8 <= bits <= 16,
    {
        let v: u8 = version.number();
        match self {
            Mode::Numeric => if v <= 9 {
                10
            } else if v <= 26 {
                12
            } else {
                14
            },
            Mode::Alphanumeric => if v <= 9 {
                9
            } else if v <= 26 {
                11
            } else {
                13
            },
            Mode::Byte => if v <= 9 {
                8
            } else {
                16
            },
        }
    }
}

/// Whether `byte` is an ASCII decimal digit.
pub fn byte_is_digit(byte: u8) -> (digit: bool)
    ensures
        digit == is_digit(byte),
{
    0x30 <= byte && byte <= 0x39
}

/// The value of `byte` in the alphanumeric alphabet, if it belongs to it.
pub fn alphanumeric_index(byte: u8) -> (value: Option<u8>)
    ensures
        value is Some <==> alphanumeric_value(byte) is Some,
        value matches Some(x) ==> x == alphanumeric_value(byte)->0 && x < 45,
{
    if 0x30 <= byte && byte <= 0x39 {
        Some(byte - 0x30)
    } else if 0x41 <= byte && byte <= 0x5a {
        Some(byte - 0x41 + 10)
    } else if byte == 0x20 {
        Some(36)
    } else if byte == 0x24 {
        Some(37)
    } else if byte == 0x25 {
        Some(38)
    } else if byte == 0x2a {
        Some(39)
    } else if byte == 0x2b {
        Some(40)
    } else if byte == 0x2d {
        Some(41)
    } else if byte == 0x2e {
        Some(42)
    } else if byte == 0x2f {
        Some(43)
    } else if byte == 0x3a {
        Some(44)
    } else {
        None
    }
}

/// Picks the most compact mode that can carry `input`: numeric if every byte
/// is a digit, else alphanumeric if every byte belongs to that alphabet, else
/// byte mode.
pub fn best_encoding(input: &[u8]) -> (mode: Mode)
    ensures
        mode == best_mode(input@),
        mode_accepts(mode, input@),
{
    let mut digits: bool = true;
    let mut alphanumeric: bool = true;
    let mut i: usize = 0;
    while i < input.len()
        invariant
            i <= input.len(),
            digits == all_digits(input@.subrange(0, i as int)),
            alphanumeric == all_alphanumeric(input@.subrange(0, i as int)),
        decreases input.len() - i,
    {
        let byte: u8 = input[i];
        let ghost before = input@.subrange(0, i as int);
        let ghost after = input@.subrange(0, i + 1);
        proof {
            assert(after[i as int] == byte);
            assert forall|j: int| 0 <= j < i implies before[j] == after[j] by {}
            if all_digits(after) {
                assert forall|j: int| 0 <= j < before.len() implies is_digit(
                    #[trigger] before[j],
                ) by {
                    assert(before[j] == after[j]);
                }
            }
            if all_alphanumeric(after) {
                assert forall|j: int| 0 <= j < before.len() implies alphanumeric_value(
                    #[trigger] before[j],
                ) is Some by {
                    assert(before[j] == after[j]);
                }
            }
            if all_digits(before) && is_digit(byte) {
                assert forall|j: int| 0 <= j < after.len() implies is_digit(
                    #[trigger] after[j],
                ) by {
                    if j < i {
                        assert(before[j] == after[j]);
                    }
                }
            }
            if all_alphanumeric(before) && alphanumeric_value(byte) is Some {
                assert forall|j: int| 0 <= j < after.len() implies alphanumeric_value(
                    #[trigger] after[j],
                ) is Some by {
                    if j < i {
                        assert(before[j] == after[j]);
                    }
                }
            }
        }
        if !byte_is_digit(byte) {
            digits = false;
        }
        if alphanumeric_index(byte).is_none() {
            alphanumeric = false;
        }
        i = i + 1;
    }
    assert(input@.subrange(0, input.len() as int) == input@);
    if digits {
        Mode::Numeric
    } else if alphanumeric {
        Mode::Alphanumeric
    } else {
        Mode::Byte
    }
}

/// Whether a symbol of the given version and level has room for `len`
/// characters in the given mode.
pub fn has_room(mode: Mode, level: ECL, len: usize, version: Version) -> (room: bool)
    ensures
        room == fits(mode, level, len as int, version.spec_number()),
{
    proof {
        lemma_table_bounds(version.spec_number(), level);
    }
    if len > 8000 {
        return false;
    }
    let payload: usize = match mode {
        Mode::Numeric => 10 * (len / 3) + if len % 3 == 1 {
            4
        } else if len % 3 == 2 {
            7
        } else {
            0
        },
        Mode::Alphanumeric => 11 * (len / 2) + 6 * (len % 2),
        Mode::Byte => 8 * len,
    };
    let header: usize = 4 + mode.count_bits(version) as usize;
    header + payload <= 8 * data_codewords_of(version, level)
}

impl Version {
    /// Finds the smallest version with room for `len` characters in the given
    /// mode at the given level, or `None` if not even version 40 has room.
    pub fn get(mode: Mode, level: ECL, len: usize) -> (version: Option<Version>)
        ensures
            version matches Some(found) ==> found.spec_number() == first_fit(
                mode,
                level,
                len as int,
                1,
            ) && smallest_fit(mode, level, len as int, found.spec_number()),
            version is None <==> too_large(mode, level, len as int),
            version is None <==> first_fit(mode, level, len as int, 1) == 41,
    {
        let mut n: u8 = 1;
        while n <= 40
            invariant
                1 <= n <= 41,
                forall|w: int| 1 <= w < n ==> !fits(mode, level, len as int, w),
            decreases 41 - n,
        {
            match Version::from_number(n) {
                Some(candidate) => {
                    if has_room(mode, level, len, candidate) {
                        proof {
                            lemma_first_fit(mode, level, len as int);
                            assert(valid_version(n as int) && fits(mode, level, len as int, n as int));
                        }
                        return Some(candidate);
                    }
                },
                None => {},
            }
            n = n + 1;
        }
        proof {
            lemma_first_fit(mode, level, len as int);
        }
        None
    }
}

} // verus!
