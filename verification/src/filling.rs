//! The order of the filling: every data cell takes another bit, and every
//! bit up to the number of data cells has its cell.

use vstd::prelude::*;
use crate::capacity::valid_version;
use crate::layout::{
    data_before,
    data_cell_count,
    data_index,
    half_of,
    is_data_cell,
    lemma_zigzag_cell,
    lemma_zigzag_covers,
    pair_column,
    pair_of,
    pair_row,
    side,
    step_of,
};
use crate::module::Module;
use crate::placement::{bit_or_zero, placed, placed_cell};

verus! {

/// Whether the filling comes to half `h` of step `t` in pair `p` no later
/// than to half `i` of step `u` in pair `q`.
pub open spec fn no_later(p: int, t: int, h: int, q: int, u: int, i: int) -> bool {
    p < q || (p == q && (t < u || (t == u && h <= i)))
}

/// The filling never counts backwards.
proof fn lemma_before_grows(v: int, p: int, t: int, h: int, q: int, u: int, i: int)
    requires
        0 <= p,
        0 <= t,
        0 <= h,
        0 <= q,
        0 <= u,
        0 <= i,
        t <= side(v),
        h <= 2,
        t == side(v) ==> h == 0,
        no_later(p, t, h, q, u, i),
    ensures
        data_before(v, p, t, h) <= data_before(v, q, u, i),
    decreases q, u, i,
{
    if p == q && t == u && h == i {
    } else if i > 0 {
        lemma_before_grows(v, p, t, h, q, u, i - 1);
    } else if u > 0 {
        if p == q && t == u - 1 && h == 2 {
        } else if p == q && t == u {
        } else {
            lemma_before_grows(v, p, t, h, q, u - 1, 2);
        }
    } else if q > 0 {
        if p == q {
        } else if p == q - 1 && t == side(v) && h == 0 {
        } else {
            lemma_before_grows(v, p, t, h, q - 1, side(v), 0);
        }
    }
}

/// The filling gives every data cell a place in the bit sequence that is
/// its own, below the number of data cells.
pub proof fn lemma_data_index_in_range(v: int, r: int, c: int)
    requires
        valid_version(v),
        0 <= r < side(v),
        0 <= c < side(v),
        is_data_cell(v, r, c),
    ensures
        0 <= data_index(v, r, c) < data_cell_count(v),
{
    let n = side(v);
    lemma_zigzag_covers(n, r, c);
    let p = pair_of(n, c);
    let t = step_of(n, r, c);
    let h = half_of(c);
    lemma_before_grows(v, 0, 0, 0, p, t, h);
    assert(data_before(v, p, t, h + 1) == data_before(v, p, t, h) + 1);
    lemma_before_grows(v, p, t, h + 1, (n - 1) / 2, 0, 0);
}

/// Two data cells that take the same bit are one cell.
pub proof fn lemma_data_index_unique(v: int, r: int, c: int, s: int, d: int)
    requires
        valid_version(v),
        0 <= r < side(v),
        0 <= c < side(v),
        0 <= s < side(v),
        0 <= d < side(v),
        is_data_cell(v, r, c),
        is_data_cell(v, s, d),
        data_index(v, r, c) == data_index(v, s, d),
    ensures
        r == s,
        c == d,
{
    let n = side(v);
    lemma_zigzag_covers(n, r, c);
    lemma_zigzag_covers(n, s, d);
    let p = pair_of(n, c);
    let t = step_of(n, r, c);
    let h = half_of(c);
    let q = pair_of(n, d);
    let u = step_of(n, s, d);
    let i = half_of(d);
    assert(data_before(v, p, t, h + 1) == data_before(v, p, t, h) + 1);
    assert(data_before(v, q, u, i + 1) == data_before(v, q, u, i) + 1);
    if p == q && t == u && h == i {
    } else if no_later(p, t, h, q, u, i) {
        lemma_before_grows(v, p, t, h + 1, q, u, i);
    } else {
        lemma_before_grows(v, q, u, i + 1, p, t, h);
    }
}

/// The data cell that takes bit `k`, looked for among the cells that the
/// filling has passed when it comes to half `h` of step `t` in pair `p`.
pub open spec fn cell_of_bit(v: int, k: int, p: int, t: int, h: int) -> (int, int)
    decreases p, t, h,
{
    let n = side(v);
    if h > 0 {
        let r = pair_row(n, p, t);
        let c = pair_column(n, p, h - 1);
        if is_data_cell(v, r, c) && data_before(v, p, t, h - 1) == k {
            (r, c)
        } else {
            cell_of_bit(v, k, p, t, h - 1)
        }
    } else if t > 0 {
        cell_of_bit(v, k, p, t - 1, 2)
    } else if p > 0 {
        cell_of_bit(v, k, p - 1, n, 0)
    } else {
        (0, 0)
    }
}

/// The data cell that takes bit `k`.
pub open spec fn bit_cell(v: int, k: int) -> (int, int) {
    cell_of_bit(v, k, (side(v) - 1) / 2, 0, 0)
}

proof fn lemma_cell_of_bit(v: int, k: int, p: int, t: int, h: int)
    requires
        valid_version(v),
        0 <= p <= (side(v) - 1) / 2,
        0 <= t <= side(v),
        0 <= h <= 2,
        p == (side(v) - 1) / 2 ==> t == 0 && h == 0,
        t == side(v) ==> h == 0,
        0 <= k < data_before(v, p, t, h),
    ensures
        ({
            let (r, c) = cell_of_bit(v, k, p, t, h);
            &&& 0 <= r < side(v)
            &&& 0 <= c < side(v)
            &&& is_data_cell(v, r, c)
            &&& data_index(v, r, c) == k
        }),
    decreases p, t, h,
{
    let n = side(v);
    if h > 0 {
        lemma_zigzag_cell(n, p, t, h - 1);
        let r = pair_row(n, p, t);
        let c = pair_column(n, p, h - 1);
        if is_data_cell(v, r, c) && data_before(v, p, t, h - 1) == k {
        } else {
            lemma_cell_of_bit(v, k, p, t, h - 1);
        }
    } else if t > 0 {
        lemma_cell_of_bit(v, k, p, t - 1, 2);
    } else if p > 0 {
        lemma_cell_of_bit(v, k, p - 1, n, 0);
    }
}

/// Every bit up to the number of data cells has its cell: a data cell of
/// the symbol that takes this bit.
pub proof fn lemma_bit_has_cell(v: int, k: int)
    requires
        valid_version(v),
        0 <= k < data_cell_count(v),
    ensures
        ({
            let (r, c) = bit_cell(v, k);
            &&& 0 <= r < side(v)
            &&& 0 <= c < side(v)
            &&& is_data_cell(v, r, c)
            &&& data_index(v, r, c) == k
        }),
{
    lemma_cell_of_bit(v, k, (side(v) - 1) / 2, 0, 0);
}

/// After placement every bit is found in the matrix, in the data module
/// of its cell.
pub proof fn lemma_placed_holds_bits(v: int, bits: Seq<bool>, k: int)
    requires
        valid_version(v),
        0 <= k < bits.len(),
        k < data_cell_count(v),
    ensures
        ({
            let (r, c) = bit_cell(v, k);
            placed(v, bits)[r][c] == (Module { dark: bits[k], fixed: false })
        }),
{
    lemma_bit_has_cell(v, k);
    let (r, c) = bit_cell(v, k);
    assert(placed(v, bits)[r][c] == placed_cell(v, bits, r, c));
    assert(bit_or_zero(bits, k) == bits[k]);
}

} // verus!
