//! The error-correction coder: splits the data codewords into blocks, gives
//! each block its Reed-Solomon codewords, and interleaves the blocks into the
//! final codeword sequence.

use vstd::prelude::*;
use crate::capacity::{
    block_count,
    block_count_of,
    block_len,
    block_start,
    data_codewords,
    data_codewords_of,
    ec_per_block,
    ec_per_block_of,
    lemma_codeword_budget,
    lemma_table_bounds,
    long_block_count,
    short_block_count,
    short_block_len,
    total_codewords,
    total_codewords_of,
    valid_version,
};
use crate::ecl::ECL;
use crate::reed_solomon::{
    generator,
    generator_polynomial,
    lemma_remainder_len,
    remainder,
    rs_remainder,
};
use crate::version::Version;

verus! {

/// The data codewords of block `b`.
pub open spec fn data_block(data: Seq<u8>, v: int, level: ECL, b: int) -> Seq<u8> {
    data.subrange(block_start(v, level, b), block_start(v, level, b) + block_len(v, level, b))
}

/// The error-correction codewords of block `b`: the Reed-Solomon remainder of
/// that block's data codewords alone.
pub open spec fn ec_block(data: Seq<u8>, v: int, level: ECL, b: int) -> Seq<u8> {
    rs_remainder(data_block(data, v, level, b), generator(ec_per_block(v, level) as nat))
}

/// The data blocks in table order.
pub open spec fn data_blocks(data: Seq<u8>, v: int, level: ECL) -> Seq<Seq<u8>> {
    Seq::new(block_count(v, level) as nat, |b: int| data_block(data, v, level, b))
}

/// The error-correction blocks in table order.
pub open spec fn ec_blocks(data: Seq<u8>, v: int, level: ECL) -> Seq<Seq<u8>> {
    Seq::new(block_count(v, level) as nat, |b: int| ec_block(data, v, level, b))
}

/// The codewords taken so far when the blocks are read column by column: all
/// codewords at positions below `i`, and those at position `i` of the first
/// `b` blocks. A block that has no codeword at a position is passed over.
pub open spec fn interleave_upto(blocks: Seq<Seq<u8>>, i: int, b: int) -> Seq<u8>
    decreases i, b,
{
    if b > 0 {
        let before = interleave_upto(blocks, i, b - 1);
        if 0 <= i < blocks[b - 1].len() {
            before.push(blocks[b - 1][i])
        } else {
            before
        }
    } else if i > 0 {
        interleave_upto(blocks, i - 1, blocks.len() as int)
    } else {
        Seq::empty()
    }
}

/// The blocks read column by column, one codeword from each block in turn,
/// for blocks of at most `width` codewords.
pub open spec fn interleave(blocks: Seq<Seq<u8>>, width: int) -> Seq<u8> {
    interleave_upto(blocks, width, 0)
}

/// The final codeword sequence: the data blocks interleaved, then the
/// error-correction blocks interleaved.
pub open spec fn final_codewords(data: Seq<u8>, v: int, level: ECL) -> Seq<u8> {
    interleave(data_blocks(data, v, level), short_block_len(v, level) + 1) + interleave(
        ec_blocks(data, v, level),
        ec_per_block(v, level),
    )
}

/// The blocks lie end to end in the data codeword sequence and cover it.
pub proof fn lemma_blocks_cover(v: int, level: ECL, b: int)
    requires
        valid_version(v),
        0 <= b < block_count(v, level),
    ensures
        0 <= block_start(v, level, b),
        1 <= block_len(v, level, b),
        block_start(v, level, b) + block_len(v, level, b) == block_start(v, level, b + 1),
        block_start(v, level, b + 1) <= data_codewords(v, level),
        block_start(v, level, 0) == 0,
        block_start(v, level, block_count(v, level)) == data_codewords(v, level),
{
    lemma_table_bounds(v, level);
    let count = block_count(v, level);
    let total = data_codewords(v, level);
    let short = short_block_len(v, level);
    let long = long_block_count(v, level);
    assert(total == count * short + long) by {
        vstd::arithmetic::div_mod::lemma_fundamental_div_mod(total, count);
    }
    assert(0 <= long < count) by {
        vstd::arithmetic::div_mod::lemma_mod_bound(total, count);
    }
    assert(short >= 1) by {
        vstd::arithmetic::div_mod::lemma_div_non_zero(total, count);
    }
    assert((b + 1) * short == b * short + short) by (nonlinear_arith);
    assert(b * short >= 0) by (nonlinear_arith)
        requires
            b >= 0,
            short >= 0,
    ;
    assert((b + 1) * short <= count * short) by (nonlinear_arith)
        requires
            b + 1 <= count,
            short >= 0,
    ;
}

/// How many codewords have been taken when blocks of which the first `shorts`
/// hold `short` codewords and the others one more are read column by column.
proof fn lemma_interleave_len(blocks: Seq<Seq<u8>>, short: int, shorts: int, i: int, b: int)
    requires
        0 <= short,
        0 <= shorts <= blocks.len(),
        forall|k: int| 0 <= k < shorts ==> (#[trigger] blocks[k]).len() == short,
        forall|k: int| shorts <= k < blocks.len() ==> (#[trigger] blocks[k]).len() == short + 1,
        0 <= i <= short + 1,
        0 <= b <= blocks.len(),
    ensures
        i < short ==> interleave_upto(blocks, i, b).len() == i * blocks.len() + b,
        i == short ==> interleave_upto(blocks, i, b).len() == i * blocks.len() + if b
            > shorts {
            b - shorts
        } else {
            0
        },
        i == short + 1 ==> interleave_upto(blocks, i, b).len() == short * blocks.len() + (
        blocks.len() - shorts),
    decreases i, b,
{
    let count = blocks.len() as int;
    if b > 0 {
        lemma_interleave_len(blocks, short, shorts, i, b - 1);
    } else if i > 0 {
        lemma_interleave_len(blocks, short, shorts, i - 1, count);
        assert((i - 1) * count + count == i * count) by (nonlinear_arith);
    } else {
        assert(0 * count == 0);
    }
}

/// What was taken from the blocks at some point stays at the head of what
/// is taken later.
proof fn lemma_interleave_extends(blocks: Seq<Seq<u8>>, i: int, b: int, j: int, c: int, k: int)
    requires
        0 <= i,
        0 <= b <= blocks.len(),
        0 <= j,
        0 <= c <= blocks.len(),
        i < j || (i == j && b <= c),
        0 <= k < interleave_upto(blocks, i, b).len(),
    ensures
        k < interleave_upto(blocks, j, c).len(),
        interleave_upto(blocks, j, c)[k] == interleave_upto(blocks, i, b)[k],
    decreases j, c,
{
    if i == j && b == c {
    } else if c > 0 {
        lemma_interleave_extends(blocks, i, b, j, c - 1, k);
    } else {
        if i == j - 1 && b == blocks.len() {
        } else {
            lemma_interleave_extends(blocks, i, b, j - 1, blocks.len() as int, k);
        }
    }
}

/// Where the codewords of the blocks stand after interleaving: codeword `i`
/// of block `b` follows codeword `i` of the block before, and codeword
/// `i + 1` of the first block follows codeword `i` of the last. Only the
/// longer blocks have a last codeword, and these stand at the end.
pub proof fn lemma_interleave_at(blocks: Seq<Seq<u8>>, short: int, shorts: int, i: int, b: int)
    requires
        0 <= short,
        0 <= shorts <= blocks.len(),
        forall|k: int| 0 <= k < shorts ==> (#[trigger] blocks[k]).len() == short,
        forall|k: int| shorts <= k < blocks.len() ==> (#[trigger] blocks[k]).len() == short + 1,
        0 <= b < blocks.len(),
        0 <= i < blocks[b].len(),
    ensures
        ({
            let all = interleave(blocks, short + 1);
            let at = if i < short {
                i * blocks.len() + b
            } else {
                short * blocks.len() + (b - shorts)
            };
            0 <= at < all.len() && all[at] == blocks[b][i]
        }),
{
    let count = blocks.len() as int;
    lemma_interleave_len(blocks, short, shorts, i, b);
    lemma_interleave_len(blocks, short, shorts, i, b + 1);
    let at = interleave_upto(blocks, i, b).len() as int;
    assert(interleave_upto(blocks, i, b + 1) == interleave_upto(blocks, i, b).push(blocks[b][i]));
    lemma_interleave_extends(blocks, i, b + 1, short + 1, 0, at);
    assert(i * count >= 0) by (nonlinear_arith)
        requires
            i >= 0,
            count >= 0,
    ;
}

/// The final codeword sequence has exactly the codewords of the symbol.
pub proof fn lemma_final_len(data: Seq<u8>, v: int, level: ECL)
    requires
        valid_version(v),
        data.len() == data_codewords(v, level),
    ensures
        final_codewords(data, v, level).len() == total_codewords(v),
{
    lemma_table_bounds(v, level);
    lemma_codeword_budget(v, level);
    let count = block_count(v, level);
    let short = short_block_len(v, level);
    let shorts = short_block_count(v, level);
    let width = ec_per_block(v, level);
    let blocks = data_blocks(data, v, level);
    let checks = ec_blocks(data, v, level);
    assert(data_codewords(v, level) == count * short + long_block_count(v, level)) by {
        vstd::arithmetic::div_mod::lemma_fundamental_div_mod(data_codewords(v, level), count);
    }
    assert(0 <= long_block_count(v, level) < count) by {
        vstd::arithmetic::div_mod::lemma_mod_bound(data_codewords(v, level), count);
    }
    assert(short >= 1) by {
        vstd::arithmetic::div_mod::lemma_div_non_zero(data_codewords(v, level), count);
    }
    assert forall|k: int| 0 <= k < count implies (#[trigger] blocks[k]).len() == block_len(
        v,
        level,
        k,
    ) by {
        lemma_blocks_cover(v, level, k);
    }
    lemma_interleave_len(blocks, short, shorts, short + 1, 0);
    assert forall|k: int| 0 <= k < count implies (#[trigger] checks[k]).len() == width by {
        lemma_remainder_len(data_block(data, v, level, k), generator(width as nat));
    }
    lemma_interleave_len(checks, width, count, width, 0);
    assert(short * count == count * short) by (nonlinear_arith);
    assert(width * count == ec_per_block(v, level) * block_count(v, level));
}

/// The codewords of the blocks as sequences.
pub open spec fn blocks_view(blocks: Vec<Vec<u8>>) -> Seq<Seq<u8>> {
    Seq::new(blocks.len() as nat, |b: int| blocks[b]@)
}

/// Reads `blocks` column by column: one codeword from each block in turn,
/// passing over blocks that have come to their end.
pub fn interleave_blocks(blocks: &Vec<Vec<u8>>, width: usize, out: &mut Vec<u8>)
    ensures
        final(out)@ == old(out)@ + interleave(blocks_view(*blocks), width as int),
{
    let ghost view = blocks_view(*blocks);
    let mut i: usize = 0;
    assert(out@ == old(out)@ + interleave_upto(view, 0, 0));
    while i < width
        invariant
            i <= width,
            view == blocks_view(*blocks),
            out@ == old(out)@ + interleave_upto(view, i as int, 0),
        decreases width - i,
    {
        let mut b: usize = 0;
        while b < blocks.len()
            invariant
                b <= blocks.len(),
                i < width,
                view == blocks_view(*blocks),
                out@ == old(out)@ + interleave_upto(view, i as int, b as int),
            decreases blocks.len() - b,
        {
            let ghost before = out@;
            if i < blocks[b].len() {
                out.push(blocks[b][i]);
            }
            b = b + 1;
            assert(out@ == old(out)@ + interleave_upto(view, i as int, b as int));
        }
        i = i + 1;
    }
}

/// Copies the codewords of `data` from `start` to `end`.
fn copy_range(data: &Vec<u8>, start: usize, end: usize) -> (part: Vec<u8>)
    requires
        start <= end <= data.len(),
    ensures
        part@ == data@.subrange(start as int, end as int),
{
    let mut part: Vec<u8> = Vec::with_capacity(end - start);
    let mut i: usize = start;
    while i < end
        invariant
            start <= i <= end <= data.len(),
            part@ == data@.subrange(start as int, i as int),
        decreases end - i,
    {
        part.push(data[i]);
        i = i + 1;
        assert(part@ == data@.subrange(start as int, i as int));
    }
    part
}

/// Turns the data codewords of a symbol into its final codeword sequence:
/// the data is split into the blocks of the version and level, every block
/// gets its error-correction codewords, and data blocks and error-correction
/// blocks are interleaved.
pub fn add_error_correction(data: &Vec<u8>, level: ECL, version: Version) -> (codewords: Vec<u8>)
    requires
        data.len() == data_codewords(version.spec_number(), level),
    ensures
        codewords@ == final_codewords(data@, version.spec_number(), level),
        codewords.len() == total_codewords(version.spec_number()),
{
    let ghost v = version.spec_number();
    let total: usize = data_codewords_of(version, level);
    let count: usize = block_count_of(version, level);
    let width: usize = ec_per_block_of(version, level);
    let short: usize = total / count;
    let shorts: usize = count - total % count;
    let g = generator_polynomial(width);
    let mut blocks: Vec<Vec<u8>> = Vec::with_capacity(count);
    let mut checks: Vec<Vec<u8>> = Vec::with_capacity(count);
    let mut start: usize = 0;
    let mut b: usize = 0;
    proof {
        lemma_table_bounds(v, level);
        lemma_blocks_cover(v, level, 0);
    }
    while b < count
        invariant
            b <= count == block_count(v, level),
            valid_version(v),
            v == version.spec_number(),
            data.len() == data_codewords(v, level) == total,
            short == short_block_len(v, level),
            shorts == short_block_count(v, level),
            width == ec_per_block(v, level) >= 1,
            g@ == generator(width as nat),
            start == block_start(v, level, b as int),
            start <= total,
            blocks.len() == b,
            checks.len() == b,
            forall|k: int| 0 <= k < b ==> (#[trigger] blocks[k])@ == data_block(data@, v, level, k),
            forall|k: int| 0 <= k < b ==> (#[trigger] checks[k])@ == ec_block(data@, v, level, k),
        decreases count - b,
    {
        proof {
            lemma_blocks_cover(v, level, b as int);
        }
        let len: usize = if b < shorts {
            short
        } else {
            short + 1
        };
        let block = copy_range(data, start, start + len);
        let check = remainder(&block, &g);
        blocks.push(block);
        checks.push(check);
        start = start + len;
        b = b + 1;
    }
    assert(blocks_view(blocks) == data_blocks(data@, v, level));
    assert(blocks_view(checks) == ec_blocks(data@, v, level));
    let mut codewords: Vec<u8> = Vec::with_capacity(total_codewords_of(version));
    interleave_blocks(&blocks, short + 1, &mut codewords);
    interleave_blocks(&checks, width, &mut codewords);
    proof {
        lemma_final_len(data@, v, level);
    }
    codewords
}

} // verus!
