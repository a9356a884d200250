//! Capacity tables: how many codewords a symbol of each version holds, how
//! they divide into data and error correction, and how many bits the
//! character count takes in each mode.
//!
//! Every table is indexed by the version number; entry 0 is unused.

use vstd::prelude::*;
use crate::ecl::ECL;
use crate::version::Version;

verus! {

/// Codewords of a symbol, data and error correction together.
pub const TOTAL_CODEWORDS: [u16; 41] = [
    0, 26, 44, 70, 100, 134, 172, 196, 242, 292,
    346, 404, 466, 532, 581, 655, 733, 815, 901, 991,
    1085, 1156, 1258, 1364, 1474, 1588, 1706, 1828, 1921, 2051,
    2185, 2323, 2465, 2611, 2761, 2876, 3034, 3196, 3362, 3532,
    3706,
];

/// Data codewords at the low level.
pub const DATA_CODEWORDS_L: [u16; 41] = [
    0, 19, 34, 55, 80, 108, 136, 156, 194, 232,
    274, 324, 370, 428, 461, 523, 589, 647, 721, 795,
    861, 932, 1006, 1094, 1174, 1276, 1370, 1468, 1531, 1631,
    1735, 1843, 1955, 2071, 2191, 2306, 2434, 2566, 2702, 2812,
    2956,
];

/// Data codewords at the medium level.
pub const DATA_CODEWORDS_M: [u16; 41] = [
    0, 16, 28, 44, 64, 86, 108, 124, 154, 182,
    216, 254, 290, 334, 365, 415, 453, 507, 563, 627,
    669, 714, 782, 860, 914, 1000, 1062, 1128, 1193, 1267,
    1373, 1455, 1541, 1631, 1725, 1812, 1914, 1992, 2102, 2216,
    2334,
];

/// Data codewords at the quartile level.
pub const DATA_CODEWORDS_Q: [u16; 41] = [
    0, 13, 22, 34, 48, 62, 76, 88, 110, 132,
    154, 180, 206, 244, 261, 295, 325, 367, 397, 445,
    485, 512, 568, 614, 664, 718, 754, 808, 871, 911,
    985, 1033, 1115, 1171, 1231, 1286, 1354, 1426, 1502, 1582,
    1666,
];

/// Data codewords at the high level.
pub const DATA_CODEWORDS_H: [u16; 41] = [
    0, 9, 16, 26, 36, 46, 60, 66, 86, 100,
    122, 140, 158, 180, 197, 223, 253, 283, 313, 341,
    385, 406, 442, 464, 514, 538, 596, 628, 661, 701,
    745, 793, 845, 901, 961, 986, 1054, 1096, 1142, 1222,
    1276,
];

/// Error-correction codewords of each block at the low level.
pub const EC_PER_BLOCK_L: [u8; 41] = [
    0, 7, 10, 15, 20, 26, 18, 20, 24, 30,
    18, 20, 24, 26, 30, 22, 24, 28, 30, 28,
    28, 28, 28, 30, 30, 26, 28, 30, 30, 30,
    30, 30, 30, 30, 30, 30, 30, 30, 30, 30,
    30,
];

/// Error-correction codewords of each block at the medium level.
pub const EC_PER_BLOCK_M: [u8; 41] = [
    0, 10, 16, 26, 18, 24, 16, 18, 22, 22,
    26, 30, 22, 22, 24, 24, 28, 28, 26, 26,
    26, 26, 28, 28, 28, 28, 28, 28, 28, 28,
    28, 28, 28, 28, 28, 28, 28, 28, 28, 28,
    28,
];

/// Error-correction codewords of each block at the quartile level.
pub const EC_PER_BLOCK_Q: [u8; 41] = [
    0, 13, 22, 18, 26, 18, 24, 18, 22, 20,
    24, 28, 26, 24, 20, 30, 24, 28, 28, 26,
    30, 28, 30, 30, 30, 30, 28, 30, 30, 30,
    30, 30, 30, 30, 30, 30, 30, 30, 30, 30,
    30,
];

/// Error-correction codewords of each block at the high level.
pub const EC_PER_BLOCK_H: [u8; 41] = [
    0, 17, 28, 22, 16, 22, 28, 26, 26, 24,
    28, 24, 28, 22, 24, 24, 30, 28, 28, 26,
    28, 30, 24, 30, 30, 30, 30, 30, 30, 30,
    30, 30, 30, 30, 30, 30, 30, 30, 30, 30,
    30,
];

/// Error-correction blocks at the low level.
pub const BLOCKS_L: [u8; 41] = [
    0, 1, 1, 1, 1, 1, 2, 2, 2, 2,
    4, 4, 4, 4, 4, 6, 6, 6, 6, 7,
    8, 8, 9, 9, 10, 12, 12, 12, 13, 14,
    15, 16, 17, 18, 19, 19, 20, 21, 22, 24,
    25,
];

/// Error-correction blocks at the medium level.
pub const BLOCKS_M: [u8; 41] = [
    0, 1, 1, 1, 2, 2, 4, 4, 4, 5,
    5, 5, 8, 9, 9, 10, 10, 11, 13, 14,
    16, 17, 17, 18, 20, 21, 23, 25, 26, 28,
    29, 31, 33, 35, 37, 38, 40, 43, 45, 47,
    49,
];

/// Error-correction blocks at the quartile level.
pub const BLOCKS_Q: [u8; 41] = [
    0, 1, 1, 2, 2, 4, 4, 6, 6, 8,
    8, 8, 10, 12, 16, 12, 17, 16, 18, 21,
    20, 23, 23, 25, 27, 29, 34, 34, 35, 38,
    40, 43, 45, 48, 51, 53, 56, 59, 62, 65,
    68,
];

/// Error-correction blocks at the high level.
pub const BLOCKS_H: [u8; 41] = [
    0, 1, 1, 2, 4, 4, 4, 5, 6, 8,
    8, 11, 11, 16, 16, 18, 16, 19, 21, 25,
    25, 25, 34, 30, 32, 35, 37, 40, 42, 45,
    48, 51, 54, 57, 60, 63, 66, 70, 74, 77,
    81,
];

/// Modules of the data area that are left over after the last codeword.
pub const REMAINDER_BITS: [u8; 41] = [
    0, 0, 7, 7, 7, 7, 7, 0, 0, 0,
    0, 0, 0, 0, 3, 3, 3, 3, 3, 3,
    3, 4, 4, 4, 4, 4, 4, 4, 3, 3,
    3, 3, 3, 3, 3, 0, 0, 0, 0, 0,
    0,
];

/// Whether `v` is the number of a version.
pub open spec fn valid_version(v: int) -> bool {
    1 <= v <= 40
}

/// Codewords of a symbol of version `v`, data and error correction together.
pub open spec fn total_codewords(v: int) -> int {
    TOTAL_CODEWORDS[v] as int
}

/// Data codewords of a symbol of version `v` at `level`.
pub open spec fn data_codewords(v: int, level: ECL) -> int {
    match level {
        ECL::L => DATA_CODEWORDS_L[v] as int,
        ECL::M => DATA_CODEWORDS_M[v] as int,
        ECL::Q => DATA_CODEWORDS_Q[v] as int,
        ECL::H => DATA_CODEWORDS_H[v] as int,
    }
}

/// Error-correction codewords of each block of a symbol of version `v` at `level`.
pub open spec fn ec_per_block(v: int, level: ECL) -> int {
    match level {
        ECL::L => EC_PER_BLOCK_L[v] as int,
        ECL::M => EC_PER_BLOCK_M[v] as int,
        ECL::Q => EC_PER_BLOCK_Q[v] as int,
        ECL::H => EC_PER_BLOCK_H[v] as int,
    }
}

/// Error-correction blocks of a symbol of version `v` at `level`.
pub open spec fn block_count(v: int, level: ECL) -> int {
    match level {
        ECL::L => BLOCKS_L[v] as int,
        ECL::M => BLOCKS_M[v] as int,
        ECL::Q => BLOCKS_Q[v] as int,
        ECL::H => BLOCKS_H[v] as int,
    }
}

/// Modules of the data area of version `v` that no codeword fills.
pub open spec fn remainder_bits(v: int) -> int {
    REMAINDER_BITS[v] as int
}

/// Data codewords of the shorter blocks: the blocks of the first group.
pub open spec fn short_block_len(v: int, level: ECL) -> int {
    data_codewords(v, level) / block_count(v, level)
}

/// Number of blocks in the second group, which hold one data codeword more
/// than those of the first.
pub open spec fn long_block_count(v: int, level: ECL) -> int {
    data_codewords(v, level) % block_count(v, level)
}

/// Number of blocks in the first group.
pub open spec fn short_block_count(v: int, level: ECL) -> int {
    block_count(v, level) - long_block_count(v, level)
}

/// Data codewords of block `b`, counting blocks from 0 in table order.
pub open spec fn block_len(v: int, level: ECL, b: int) -> int {
    if b < short_block_count(v, level) {
        short_block_len(v, level)
    } else {
        short_block_len(v, level) + 1
    }
}

/// Position in the data codeword sequence at which block `b` begins.
pub open spec fn block_start(v: int, level: ECL, b: int) -> int {
    if b <= short_block_count(v, level) {
        b * short_block_len(v, level)
    } else {
        b * short_block_len(v, level) + (b - short_block_count(v, level))
    }
}

/// Codewords of a symbol of the given version, data and error correction together.
pub fn total_codewords_of(version: Version) -> (n: usize)
    ensures
        n == total_codewords(version.spec_number()),
        26 <= n <= 3706,
{
    TOTAL_CODEWORDS[version.number() as usize] as usize
}

/// Data codewords of a symbol of the given version and level.
pub fn data_codewords_of(version: Version, level: ECL) -> (n: usize)
    ensures
        n == data_codewords(version.spec_number(), level),
        9 <= n <= 2956,
{
    let v: usize = version.number() as usize;
    match level {
        ECL::L => DATA_CODEWORDS_L[v] as usize,
        ECL::M => DATA_CODEWORDS_M[v] as usize,
        ECL::Q => DATA_CODEWORDS_Q[v] as usize,
        ECL::H => DATA_CODEWORDS_H[v] as usize,
    }
}

/// Error-correction codewords of each block of a symbol of the given version and level.
pub fn ec_per_block_of(version: Version, level: ECL) -> (n: usize)
    ensures
        n == ec_per_block(version.spec_number(), level),
        7 <= n <= 30,
{
    let v: usize = version.number() as usize;
    match level {
        ECL::L => EC_PER_BLOCK_L[v] as usize,
        ECL::M => EC_PER_BLOCK_M[v] as usize,
        ECL::Q => EC_PER_BLOCK_Q[v] as usize,
        ECL::H => EC_PER_BLOCK_H[v] as usize,
    }
}

/// Error-correction blocks of a symbol of the given version and level.
pub fn block_count_of(version: Version, level: ECL) -> (n: usize)
    ensures
        n == block_count(version.spec_number(), level),
        1 <= n <= 81,
{
    let v: usize = version.number() as usize;
    match level {
        ECL::L => BLOCKS_L[v] as usize,
        ECL::M => BLOCKS_M[v] as usize,
        ECL::Q => BLOCKS_Q[v] as usize,
        ECL::H => BLOCKS_H[v] as usize,
    }
}

/// Modules of the data area of the given version that no codeword fills.
pub fn remainder_bits_of(version: Version) -> (n: usize)
    ensures
        n == remainder_bits(version.spec_number()),
        n <= 7,
{
    REMAINDER_BITS[version.number() as usize] as usize
}

/// The ranges in which the table entries of every version lie.
pub proof fn lemma_table_bounds(v: int, level: ECL)
    requires
        valid_version(v),
    ensures
        26 <= total_codewords(v) <= 3706,
        9 <= data_codewords(v, level) <= 2956,
        7 <= ec_per_block(v, level) <= 30,
        1 <= block_count(v, level) <= 81,
        block_count(v, level) <= data_codewords(v, level),
        0 <= remainder_bits(v) <= 7,
{
}

/// The codewords of a symbol are its data codewords and the error-correction
/// codewords of all its blocks, and nothing else.
pub proof fn lemma_codeword_budget(v: int, level: ECL)
    requires
        valid_version(v),
    ensures
        total_codewords(v) == data_codewords(v, level) + ec_per_block(v, level) * block_count(
            v,
            level,
        ),
{
    lemma_budget_low(v);
    lemma_budget_medium(v);
    lemma_budget_quartile(v);
    lemma_budget_high(v);
}

proof fn lemma_budget_low(v: int)
    requires
        valid_version(v),
    ensures
        TOTAL_CODEWORDS[v] == DATA_CODEWORDS_L[v] + EC_PER_BLOCK_L[v] * BLOCKS_L[v],
{
    if v == 1 {
        assert(EC_PER_BLOCK_L[1] * BLOCKS_L[1] == 7 * 1);
    } else if v == 2 {
        assert(EC_PER_BLOCK_L[2] * BLOCKS_L[2] == 10 * 1);
    } else if v == 3 {
        assert(EC_PER_BLOCK_L[3] * BLOCKS_L[3] == 15 * 1);
    } else if v == 4 {
        assert(EC_PER_BLOCK_L[4] * BLOCKS_L[4] == 20 * 1);
    } else if v == 5 {
        assert(EC_PER_BLOCK_L[5] * BLOCKS_L[5] == 26 * 1);
    } else if v == 6 {
        assert(EC_PER_BLOCK_L[6] * BLOCKS_L[6] == 18 * 2);
    } else if v == 7 {
        assert(EC_PER_BLOCK_L[7] * BLOCKS_L[7] == 20 * 2);
    } else if v == 8 {
        assert(EC_PER_BLOCK_L[8] * BLOCKS_L[8] == 24 * 2);
    } else if v == 9 {
        assert(EC_PER_BLOCK_L[9] * BLOCKS_L[9] == 30 * 2);
    } else if v == 10 {
        assert(EC_PER_BLOCK_L[10] * BLOCKS_L[10] == 18 * 4);
    } else if v == 11 {
        assert(EC_PER_BLOCK_L[11] * BLOCKS_L[11] == 20 * 4);
    } else if v == 12 {
        assert(EC_PER_BLOCK_L[12] * BLOCKS_L[12] == 24 * 4);
    } else if v == 13 {
        assert(EC_PER_BLOCK_L[13] * BLOCKS_L[13] == 26 * 4);
    } else if v == 14 {
        assert(EC_PER_BLOCK_L[14] * BLOCKS_L[14] == 30 * 4);
    } else if v == 15 {
        assert(EC_PER_BLOCK_L[15] * BLOCKS_L[15] == 22 * 6);
    } else if v == 16 {
        assert(EC_PER_BLOCK_L[16] * BLOCKS_L[16] == 24 * 6);
    } else if v == 17 {
        assert(EC_PER_BLOCK_L[17] * BLOCKS_L[17] == 28 * 6);
    } else if v == 18 {
        assert(EC_PER_BLOCK_L[18] * BLOCKS_L[18] == 30 * 6);
    } else if v == 19 {
        assert(EC_PER_BLOCK_L[19] * BLOCKS_L[19] == 28 * 7);
    } else if v == 20 {
        assert(EC_PER_BLOCK_L[20] * BLOCKS_L[20] == 28 * 8);
    } else if v == 21 {
        assert(EC_PER_BLOCK_L[21] * BLOCKS_L[21] == 28 * 8);
    } else if v == 22 {
        assert(EC_PER_BLOCK_L[22] * BLOCKS_L[22] == 28 * 9);
    } else if v == 23 {
        assert(EC_PER_BLOCK_L[23] * BLOCKS_L[23] == 30 * 9);
    } else if v == 24 {
        assert(EC_PER_BLOCK_L[24] * BLOCKS_L[24] == 30 * 10);
    } else if v == 25 {
        assert(EC_PER_BLOCK_L[25] * BLOCKS_L[25] == 26 * 12);
    } else if v == 26 {
        assert(EC_PER_BLOCK_L[26] * BLOCKS_L[26] == 28 * 12);
    } else if v == 27 {
        assert(EC_PER_BLOCK_L[27] * BLOCKS_L[27] == 30 * 12);
    } else if v == 28 {
        assert(EC_PER_BLOCK_L[28] * BLOCKS_L[28] == 30 * 13);
    } else if v == 29 {
        assert(EC_PER_BLOCK_L[29] * BLOCKS_L[29] == 30 * 14);
    } else if v == 30 {
        assert(EC_PER_BLOCK_L[30] * BLOCKS_L[30] == 30 * 15);
    } else if v == 31 {
        assert(EC_PER_BLOCK_L[31] * BLOCKS_L[31] == 30 * 16);
    } else if v == 32 {
        assert(EC_PER_BLOCK_L[32] * BLOCKS_L[32] == 30 * 17);
    } else if v == 33 {
        assert(EC_PER_BLOCK_L[33] * BLOCKS_L[33] == 30 * 18);
    } else if v == 34 {
        assert(EC_PER_BLOCK_L[34] * BLOCKS_L[34] == 30 * 19);
    } else if v == 35 {
        assert(EC_PER_BLOCK_L[35] * BLOCKS_L[35] == 30 * 19);
    } else if v == 36 {
        assert(EC_PER_BLOCK_L[36] * BLOCKS_L[36] == 30 * 20);
    } else if v == 37 {
        assert(EC_PER_BLOCK_L[37] * BLOCKS_L[37] == 30 * 21);
    } else if v == 38 {
        assert(EC_PER_BLOCK_L[38] * BLOCKS_L[38] == 30 * 22);
    } else if v == 39 {
        assert(EC_PER_BLOCK_L[39] * BLOCKS_L[39] == 30 * 24);
    } else if v == 40 {
        assert(EC_PER_BLOCK_L[40] * BLOCKS_L[40] == 30 * 25);
    }
}

proof fn lemma_budget_medium(v: int)
    requires
        valid_version(v),
    ensures
        TOTAL_CODEWORDS[v] == DATA_CODEWORDS_M[v] + EC_PER_BLOCK_M[v] * BLOCKS_M[v],
{
    if v == 1 {
        assert(EC_PER_BLOCK_M[1] * BLOCKS_M[1] == 10 * 1);
    } else if v == 2 {
        assert(EC_PER_BLOCK_M[2] * BLOCKS_M[2] == 16 * 1);
    } else if v == 3 {
        assert(EC_PER_BLOCK_M[3] * BLOCKS_M[3] == 26 * 1);
    } else if v == 4 {
        assert(EC_PER_BLOCK_M[4] * BLOCKS_M[4] == 18 * 2);
    } else if v == 5 {
        assert(EC_PER_BLOCK_M[5] * BLOCKS_M[5] == 24 * 2);
    } else if v == 6 {
        assert(EC_PER_BLOCK_M[6] * BLOCKS_M[6] == 16 * 4);
    } else if v == 7 {
        assert(EC_PER_BLOCK_M[7] * BLOCKS_M[7] == 18 * 4);
    } else if v == 8 {
        assert(EC_PER_BLOCK_M[8] * BLOCKS_M[8] == 22 * 4);
    } else if v == 9 {
        assert(EC_PER_BLOCK_M[9] * BLOCKS_M[9] == 22 * 5);
    } else if v == 10 {
        assert(EC_PER_BLOCK_M[10] * BLOCKS_M[10] == 26 * 5);
    } else if v == 11 {
        assert(EC_PER_BLOCK_M[11] * BLOCKS_M[11] == 30 * 5);
    } else if v == 12 {
        assert(EC_PER_BLOCK_M[12] * BLOCKS_M[12] == 22 * 8);
    } else if v == 13 {
        assert(EC_PER_BLOCK_M[13] * BLOCKS_M[13] == 22 * 9);
    } else if v == 14 {
        assert(EC_PER_BLOCK_M[14] * BLOCKS_M[14] == 24 * 9);
    } else if v == 15 {
        assert(EC_PER_BLOCK_M[15] * BLOCKS_M[15] == 24 * 10);
    } else if v == 16 {
        assert(EC_PER_BLOCK_M[16] * BLOCKS_M[16] == 28 * 10);
    } else if v == 17 {
        assert(EC_PER_BLOCK_M[17] * BLOCKS_M[17] == 28 * 11);
    } else if v == 18 {
        assert(EC_PER_BLOCK_M[18] * BLOCKS_M[18] == 26 * 13);
    } else if v == 19 {
        assert(EC_PER_BLOCK_M[19] * BLOCKS_M[19] == 26 * 14);
    } else if v == 20 {
        assert(EC_PER_BLOCK_M[20] * BLOCKS_M[20] == 26 * 16);
    } else if v == 21 {
        assert(EC_PER_BLOCK_M[21] * BLOCKS_M[21] == 26 * 17);
    } else if v == 22 {
        assert(EC_PER_BLOCK_M[22] * BLOCKS_M[22] == 28 * 17);
    } else if v == 23 {
        assert(EC_PER_BLOCK_M[23] * BLOCKS_M[23] == 28 * 18);
    } else if v == 24 {
        assert(EC_PER_BLOCK_M[24] * BLOCKS_M[24] == 28 * 20);
    } else if v == 25 {
        assert(EC_PER_BLOCK_M[25] * BLOCKS_M[25] == 28 * 21);
    } else if v == 26 {
        assert(EC_PER_BLOCK_M[26] * BLOCKS_M[26] == 28 * 23);
    } else if v == 27 {
        assert(EC_PER_BLOCK_M[27] * BLOCKS_M[27] == 28 * 25);
    } else if v == 28 {
        assert(EC_PER_BLOCK_M[28] * BLOCKS_M[28] == 28 * 26);
    } else if v == 29 {
        assert(EC_PER_BLOCK_M[29] * BLOCKS_M[29] == 28 * 28);
    } else if v == 30 {
        assert(EC_PER_BLOCK_M[30] * BLOCKS_M[30] == 28 * 29);
    } else if v == 31 {
        assert(EC_PER_BLOCK_M[31] * BLOCKS_M[31] == 28 * 31);
    } else if v == 32 {
        assert(EC_PER_BLOCK_M[32] * BLOCKS_M[32] == 28 * 33);
    } else if v == 33 {
        assert(EC_PER_BLOCK_M[33] * BLOCKS_M[33] == 28 * 35);
    } else if v == 34 {
        assert(EC_PER_BLOCK_M[34] * BLOCKS_M[34] == 28 * 37);
    } else if v == 35 {
        assert(EC_PER_BLOCK_M[35] * BLOCKS_M[35] == 28 * 38);
    } else if v == 36 {
        assert(EC_PER_BLOCK_M[36] * BLOCKS_M[36] == 28 * 40);
    } else if v == 37 {
        assert(EC_PER_BLOCK_M[37] * BLOCKS_M[37] == 28 * 43);
    } else if v == 38 {
        assert(EC_PER_BLOCK_M[38] * BLOCKS_M[38] == 28 * 45);
    } else if v == 39 {
        assert(EC_PER_BLOCK_M[39] * BLOCKS_M[39] == 28 * 47);
    } else if v == 40 {
        assert(EC_PER_BLOCK_M[40] * BLOCKS_M[40] == 28 * 49);
    }
}

proof fn lemma_budget_quartile(v: int)
    requires
        valid_version(v),
    ensures
        TOTAL_CODEWORDS[v] == DATA_CODEWORDS_Q[v] + EC_PER_BLOCK_Q[v] * BLOCKS_Q[v],
{
    if v == 1 {
        assert(EC_PER_BLOCK_Q[1] * BLOCKS_Q[1] == 13 * 1);
    } else if v == 2 {
        assert(EC_PER_BLOCK_Q[2] * BLOCKS_Q[2] == 22 * 1);
    } else if v == 3 {
        assert(EC_PER_BLOCK_Q[3] * BLOCKS_Q[3] == 18 * 2);
    } else if v == 4 {
        assert(EC_PER_BLOCK_Q[4] * BLOCKS_Q[4] == 26 * 2);
    } else if v == 5 {
        assert(EC_PER_BLOCK_Q[5] * BLOCKS_Q[5] == 18 * 4);
    } else if v == 6 {
        assert(EC_PER_BLOCK_Q[6] * BLOCKS_Q[6] == 24 * 4);
    } else if v == 7 {
        assert(EC_PER_BLOCK_Q[7] * BLOCKS_Q[7] == 18 * 6);
    } else if v == 8 {
        assert(EC_PER_BLOCK_Q[8] * BLOCKS_Q[8] == 22 * 6);
    } else if v == 9 {
        assert(EC_PER_BLOCK_Q[9] * BLOCKS_Q[9] == 20 * 8);
    } else if v == 10 {
        assert(EC_PER_BLOCK_Q[10] * BLOCKS_Q[10] == 24 * 8);
    } else if v == 11 {
        assert(EC_PER_BLOCK_Q[11] * BLOCKS_Q[11] == 28 * 8);
    } else if v == 12 {
        assert(EC_PER_BLOCK_Q[12] * BLOCKS_Q[12] == 26 * 10);
    } else if v == 13 {
        assert(EC_PER_BLOCK_Q[13] * BLOCKS_Q[13] == 24 * 12);
    } else if v == 14 {
        assert(EC_PER_BLOCK_Q[14] * BLOCKS_Q[14] == 20 * 16);
    } else if v == 15 {
        assert(EC_PER_BLOCK_Q[15] * BLOCKS_Q[15] == 30 * 12);
    } else if v == 16 {
        assert(EC_PER_BLOCK_Q[16] * BLOCKS_Q[16] == 24 * 17);
    } else if v == 17 {
        assert(EC_PER_BLOCK_Q[17] * BLOCKS_Q[17] == 28 * 16);
    } else if v == 18 {
        assert(EC_PER_BLOCK_Q[18] * BLOCKS_Q[18] == 28 * 18);
    } else if v == 19 {
        assert(EC_PER_BLOCK_Q[19] * BLOCKS_Q[19] == 26 * 21);
    } else if v == 20 {
        assert(EC_PER_BLOCK_Q[20] * BLOCKS_Q[20] == 30 * 20);
    } else if v == 21 {
        assert(EC_PER_BLOCK_Q[21] * BLOCKS_Q[21] == 28 * 23);
    } else if v == 22 {
        assert(EC_PER_BLOCK_Q[22] * BLOCKS_Q[22] == 30 * 23);
    } else if v == 23 {
        assert(EC_PER_BLOCK_Q[23] * BLOCKS_Q[23] == 30 * 25);
    } else if v == 24 {
        assert(EC_PER_BLOCK_Q[24] * BLOCKS_Q[24] == 30 * 27);
    } else if v == 25 {
        assert(EC_PER_BLOCK_Q[25] * BLOCKS_Q[25] == 30 * 29);
    } else if v == 26 {
        assert(EC_PER_BLOCK_Q[26] * BLOCKS_Q[26] == 28 * 34);
    } else if v == 27 {
        assert(EC_PER_BLOCK_Q[27] * BLOCKS_Q[27] == 30 * 34);
    } else if v == 28 {
        assert(EC_PER_BLOCK_Q[28] * BLOCKS_Q[28] == 30 * 35);
    } else if v == 29 {
        assert(EC_PER_BLOCK_Q[29] * BLOCKS_Q[29] == 30 * 38);
    } else if v == 30 {
        assert(EC_PER_BLOCK_Q[30] * BLOCKS_Q[30] == 30 * 40);
    } else if v == 31 {
        assert(EC_PER_BLOCK_Q[31] * BLOCKS_Q[31] == 30 * 43);
    } else if v == 32 {
        assert(EC_PER_BLOCK_Q[32] * BLOCKS_Q[32] == 30 * 45);
    } else if v == 33 {
        assert(EC_PER_BLOCK_Q[33] * BLOCKS_Q[33] == 30 * 48);
    } else if v == 34 {
        assert(EC_PER_BLOCK_Q[34] * BLOCKS_Q[34] == 30 * 51);
    } else if v == 35 {
        assert(EC_PER_BLOCK_Q[35] * BLOCKS_Q[35] == 30 * 53);
    } else if v == 36 {
        assert(EC_PER_BLOCK_Q[36] * BLOCKS_Q[36] == 30 * 56);
    } else if v == 37 {
        assert(EC_PER_BLOCK_Q[37] * BLOCKS_Q[37] == 30 * 59);
    } else if v == 38 {
        assert(EC_PER_BLOCK_Q[38] * BLOCKS_Q[38] == 30 * 62);
    } else if v == 39 {
        assert(EC_PER_BLOCK_Q[39] * BLOCKS_Q[39] == 30 * 65);
    } else if v == 40 {
        assert(EC_PER_BLOCK_Q[40] * BLOCKS_Q[40] == 30 * 68);
    }
}

proof fn lemma_budget_high(v: int)
    requires
        valid_version(v),
    ensures
        TOTAL_CODEWORDS[v] == DATA_CODEWORDS_H[v] + EC_PER_BLOCK_H[v] * BLOCKS_H[v],
{
    if v == 1 {
        assert(EC_PER_BLOCK_H[1] * BLOCKS_H[1] == 17 * 1);
    } else if v == 2 {
        assert(EC_PER_BLOCK_H[2] * BLOCKS_H[2] == 28 * 1);
    } else if v == 3 {
        assert(EC_PER_BLOCK_H[3] * BLOCKS_H[3] == 22 * 2);
    } else if v == 4 {
        assert(EC_PER_BLOCK_H[4] * BLOCKS_H[4] == 16 * 4);
    } else if v == 5 {
        assert(EC_PER_BLOCK_H[5] * BLOCKS_H[5] == 22 * 4);
    } else if v == 6 {
        assert(EC_PER_BLOCK_H[6] * BLOCKS_H[6] == 28 * 4);
    } else if v == 7 {
        assert(EC_PER_BLOCK_H[7] * BLOCKS_H[7] == 26 * 5);
    } else if v == 8 {
        assert(EC_PER_BLOCK_H[8] * BLOCKS_H[8] == 26 * 6);
    } else if v == 9 {
        assert(EC_PER_BLOCK_H[9] * BLOCKS_H[9] == 24 * 8);
    } else if v == 10 {
        assert(EC_PER_BLOCK_H[10] * BLOCKS_H[10] == 28 * 8);
    } else if v == 11 {
        assert(EC_PER_BLOCK_H[11] * BLOCKS_H[11] == 24 * 11);
    } else if v == 12 {
        assert(EC_PER_BLOCK_H[12] * BLOCKS_H[12] == 28 * 11);
    } else if v == 13 {
        assert(EC_PER_BLOCK_H[13] * BLOCKS_H[13] == 22 * 16);
    } else if v == 14 {
        assert(EC_PER_BLOCK_H[14] * BLOCKS_H[14] == 24 * 16);
    } else if v == 15 {
        assert(EC_PER_BLOCK_H[15] * BLOCKS_H[15] == 24 * 18);
    } else if v == 16 {
        assert(EC_PER_BLOCK_H[16] * BLOCKS_H[16] == 30 * 16);
    } else if v == 17 {
        assert(EC_PER_BLOCK_H[17] * BLOCKS_H[17] == 28 * 19);
    } else if v == 18 {
        assert(EC_PER_BLOCK_H[18] * BLOCKS_H[18] == 28 * 21);
    } else if v == 19 {
        assert(EC_PER_BLOCK_H[19] * BLOCKS_H[19] == 26 * 25);
    } else if v == 20 {
        assert(EC_PER_BLOCK_H[20] * BLOCKS_H[20] == 28 * 25);
    } else if v == 21 {
        assert(EC_PER_BLOCK_H[21] * BLOCKS_H[21] == 30 * 25);
    } else if v == 22 {
        assert(EC_PER_BLOCK_H[22] * BLOCKS_H[22] == 24 * 34);
    } else if v == 23 {
        assert(EC_PER_BLOCK_H[23] * BLOCKS_H[23] == 30 * 30);
    } else if v == 24 {
        assert(EC_PER_BLOCK_H[24] * BLOCKS_H[24] == 30 * 32);
    } else if v == 25 {
        assert(EC_PER_BLOCK_H[25] * BLOCKS_H[25] == 30 * 35);
    } else if v == 26 {
        assert(EC_PER_BLOCK_H[26] * BLOCKS_H[26] == 30 * 37);
    } else if v == 27 {
        assert(EC_PER_BLOCK_H[27] * BLOCKS_H[27] == 30 * 40);
    } else if v == 28 {
        assert(EC_PER_BLOCK_H[28] * BLOCKS_H[28] == 30 * 42);
    } else if v == 29 {
        assert(EC_PER_BLOCK_H[29] * BLOCKS_H[29] == 30 * 45);
    } else if v == 30 {
        assert(EC_PER_BLOCK_H[30] * BLOCKS_H[30] == 30 * 48);
    } else if v == 31 {
        assert(EC_PER_BLOCK_H[31] * BLOCKS_H[31] == 30 * 51);
    } else if v == 32 {
        assert(EC_PER_BLOCK_H[32] * BLOCKS_H[32] == 30 * 54);
    } else if v == 33 {
        assert(EC_PER_BLOCK_H[33] * BLOCKS_H[33] == 30 * 57);
    } else if v == 34 {
        assert(EC_PER_BLOCK_H[34] * BLOCKS_H[34] == 30 * 60);
    } else if v == 35 {
        assert(EC_PER_BLOCK_H[35] * BLOCKS_H[35] == 30 * 63);
    } else if v == 36 {
        assert(EC_PER_BLOCK_H[36] * BLOCKS_H[36] == 30 * 66);
    } else if v == 37 {
        assert(EC_PER_BLOCK_H[37] * BLOCKS_H[37] == 30 * 70);
    } else if v == 38 {
        assert(EC_PER_BLOCK_H[38] * BLOCKS_H[38] == 30 * 74);
    } else if v == 39 {
        assert(EC_PER_BLOCK_H[39] * BLOCKS_H[39] == 30 * 77);
    } else if v == 40 {
        assert(EC_PER_BLOCK_H[40] * BLOCKS_H[40] == 30 * 81);
    }
}

} // verus!
