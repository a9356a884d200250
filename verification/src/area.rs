//! The size of the data area: a proof that the cells which take data bits
//! are exactly as many as the bits of the codewords of the symbol, with the
//! few left over that every version has by its table.

use vstd::prelude::*;
use crate::capacity::{remainder_bits, total_codewords, valid_version};
use crate::ecl::ECL;
use crate::mask::Mask;
use crate::module::Module;
use crate::placement::{lemma_symbol_cells, symbol, symbol_cell};
use crate::layout::{
    alignment_centre,
    alignment_count,
    alignment_hit,
    data_before,
    data_cell_count,
    is_data_cell,
    pair_column,
    pair_row,
    side,
};

verus! {

/// Number of integers from `lo` up to and without `hi` of which `f` holds.
pub open spec fn count(f: spec_fn(int) -> bool, lo: int, hi: int) -> int
    decreases hi - lo,
{
    if hi <= lo {
        0
    } else {
        count(f, lo, hi - 1) + if f(hi - 1) {
            1int
        } else {
            0int
        }
    }
}

/// Sum of `g` over the integers from `lo` up to and without `hi`.
pub open spec fn sum(g: spec_fn(int) -> int, lo: int, hi: int) -> int
    decreases hi - lo,
{
    if hi <= lo {
        0
    } else {
        sum(g, lo, hi - 1) + g(hi - 1)
    }
}

proof fn lemma_count_split(f: spec_fn(int) -> bool, lo: int, mid: int, hi: int)
    requires
        lo <= mid <= hi,
    ensures
        count(f, lo, hi) == count(f, lo, mid) + count(f, mid, hi),
    decreases hi - mid,
{
    if mid < hi {
        lemma_count_split(f, lo, mid, hi - 1);
    }
}

proof fn lemma_count_all(f: spec_fn(int) -> bool, lo: int, hi: int)
    requires
        lo <= hi,
        forall|i: int| lo <= i < hi ==> #[trigger] f(i),
    ensures
        count(f, lo, hi) == hi - lo,
    decreases hi - lo,
{
    if lo < hi {
        lemma_count_all(f, lo, hi - 1);
    }
}

proof fn lemma_count_none(f: spec_fn(int) -> bool, lo: int, hi: int)
    requires
        forall|i: int| lo <= i < hi ==> !#[trigger] f(i),
    ensures
        count(f, lo, hi) == 0,
    decreases hi - lo,
{
    if lo < hi {
        lemma_count_none(f, lo, hi - 1);
    }
}

proof fn lemma_count_same(f: spec_fn(int) -> bool, g: spec_fn(int) -> bool, lo: int, hi: int)
    requires
        forall|i: int| lo <= i < hi ==> #[trigger] f(i) == g(i),
    ensures
        count(f, lo, hi) == count(g, lo, hi),
    decreases hi - lo,
{
    if lo < hi {
        lemma_count_same(f, g, lo, hi - 1);
    }
}

proof fn lemma_sum_split(g: spec_fn(int) -> int, lo: int, mid: int, hi: int)
    requires
        lo <= mid <= hi,
    ensures
        sum(g, lo, hi) == sum(g, lo, mid) + sum(g, mid, hi),
    decreases hi - mid,
{
    if mid < hi {
        lemma_sum_split(g, lo, mid, hi - 1);
    }
}

/// Where `g` is `base` and, on the integers of which `f` holds, `extra`
/// more, its sum is that of `base` and of `extra` as often as `f` holds.
proof fn lemma_sum_by_count(
    g: spec_fn(int) -> int,
    f: spec_fn(int) -> bool,
    base: int,
    extra: int,
    lo: int,
    hi: int,
)
    requires
        lo <= hi,
        forall|i: int|
            lo <= i < hi ==> #[trigger] g(i) == base + if f(i) {
                extra
            } else {
                0
            },
    ensures
        sum(g, lo, hi) == base * (hi - lo) + extra * count(f, lo, hi),
    decreases hi - lo,
{
    if lo < hi {
        lemma_sum_by_count(g, f, base, extra, lo, hi - 1);
        assert(base * (hi - lo) == base * (hi - 1 - lo) + base) by (nonlinear_arith);
        assert(extra * (count(f, lo, hi - 1) + 1) == extra * count(f, lo, hi - 1) + extra)
            by (nonlinear_arith);
    } else {
        assert(base * 0 == 0 && extra * 0 == 0);
    }
}

/// The data cells of column `c`, as a property of the row.
pub open spec fn column(v: int, c: int) -> spec_fn(int) -> bool {
    |r: int| is_data_cell(v, r, c)
}

/// Number of data cells in column `c`.
pub open spec fn column_total(v: int, c: int) -> int {
    count(column(v, c), 0, side(v))
}

/// The number of data cells of a column, as a property of the column.
pub open spec fn column_totals(v: int) -> spec_fn(int) -> int {
    |c: int| column_total(v, c)
}

/// Within a pair of columns the filling passes the data cells of both
/// columns, from the bottom up in pairs of even number and from the top
/// down in the others.
proof fn lemma_pair_steps(v: int, p: int, t: int)
    requires
        valid_version(v),
        0 <= p,
        0 <= t <= side(v),
    ensures
        ({
            let n = side(v);
            let right = column(v, pair_column(n, p, 0));
            let left = column(v, pair_column(n, p, 1));
            data_before(v, p, t, 0) == data_before(v, p, 0, 0) + if p % 2 == 0 {
                count(right, n - t, n) + count(left, n - t, n)
            } else {
                count(right, 0, t) + count(left, 0, t)
            }
        }),
    decreases t,
{
    let n = side(v);
    let right = column(v, pair_column(n, p, 0));
    let left = column(v, pair_column(n, p, 1));
    if t > 0 {
        lemma_pair_steps(v, p, t - 1);
        assert(data_before(v, p, t, 0) == data_before(v, p, t - 1, 2));
        assert(data_before(v, p, t - 1, 2) == data_before(v, p, t - 1, 1) + if is_data_cell(
            v,
            pair_row(n, p, t - 1),
            pair_column(n, p, 1),
        ) {
            1int
        } else {
            0int
        });
        assert(data_before(v, p, t - 1, 1) == data_before(v, p, t - 1, 0) + if is_data_cell(
            v,
            pair_row(n, p, t - 1),
            pair_column(n, p, 0),
        ) {
            1int
        } else {
            0int
        });
        if p % 2 == 0 {
            lemma_count_split(right, n - t, n - t + 1, n);
            lemma_count_split(left, n - t, n - t + 1, n);
            assert(count(right, n - t, n - t + 1) == count(right, n - t, n - t) + if right(n - t) {
                1int
            } else {
                0int
            });
            assert(count(left, n - t, n - t + 1) == count(left, n - t, n - t) + if left(n - t) {
                1int
            } else {
                0int
            });
        }
    }
}

/// The filling passes the columns from the right edge to the left and
/// leaves out column 6: when `p` pairs are done, it has passed every data
/// cell of the columns to the right of those that are left.
proof fn lemma_pairs_done(v: int, p: int)
    requires
        valid_version(v),
        0 <= p <= (side(v) - 1) / 2,
    ensures
        ({
            let n = side(v);
            let g = column_totals(v);
            data_before(v, p, 0, 0) == if n - 2 * p > 6 {
                sum(g, n - 2 * p, n)
            } else {
                sum(g, n - 1 - 2 * p, 6) + sum(g, 7, n)
            }
        }),
    decreases p,
{
    let n = side(v);
    let g = column_totals(v);
    if p > 0 {
        let q = p - 1;
        lemma_pairs_done(v, q);
        lemma_pair_steps(v, q, n);
        assert(data_before(v, p, 0, 0) == data_before(v, q, n, 0));
        let right = pair_column(n, q, 0);
        let left = pair_column(n, q, 1);
        assert(left == right - 1);
        assert(sum(g, left, right + 1) == g(left) + g(right)) by {
            assert(sum(g, left, right + 1) == sum(g, left, right) + g(right));
            assert(sum(g, left, right) == sum(g, left, left) + g(left));
        }
        assert(g(right) == count(column(v, right), 0, n));
        assert(g(left) == count(column(v, left), 0, n));
        if n - 2 * q > 7 {
            lemma_sum_split(g, left, right + 1, n);
        } else if n - 2 * q == 7 {
            assert(right == 5);
            assert(sum(g, 6, 6) == 0);
        } else {
            lemma_sum_split(g, left, right + 1, 6);
        }
    } else {
        assert(sum(g, n, n) == 0);
    }
}

/// The data cells are those of all columns but column 6.
pub proof fn lemma_count_by_columns(v: int)
    requires
        valid_version(v),
    ensures
        data_cell_count(v) == sum(column_totals(v), 0, 6) + sum(column_totals(v), 7, side(v)),
{
    lemma_pairs_done(v, (side(v) - 1) / 2);
}

/// What the table of alignment pattern centres holds for every version but
/// the first: the first centre lies on the timing line, the last lies as far
/// from the far edge, and neighbours are at least twelve cells apart.
proof fn lemma_centres(v: int)
    requires
        valid_version(v),
        v >= 2,
    ensures
        2 <= alignment_count(v) <= 7,
        alignment_centre(v, 0) == 6,
        alignment_centre(v, alignment_count(v) - 1) == side(v) - 7,
        forall|i: int|
            0 <= i < alignment_count(v) - 1 ==> #[trigger] alignment_centre(v, i + 1)
                - alignment_centre(v, i) >= 12,
{
}

/// Whether `x` lies within two cells of the `i`-th centre.
pub open spec fn in_band(v: int, x: int, i: int) -> bool {
    alignment_centre(v, i) - 2 <= x <= alignment_centre(v, i) + 2
}

/// The coordinates that lie within two cells of no centre.
pub open spec fn off_bands(v: int) -> spec_fn(int) -> bool {
    |x: int| alignment_hit(v, x, 0) is None
}

proof fn lemma_centres_apart(v: int, i: int, m: int)
    requires
        valid_version(v),
        v >= 2,
        0 <= i < m < alignment_count(v),
    ensures
        alignment_centre(v, m) - alignment_centre(v, i) >= 12,
    decreases m,
{
    lemma_centres(v);
    assert(alignment_centre(v, (m - 1) + 1) - alignment_centre(v, m - 1) >= 12);
    if i < m - 1 {
        lemma_centres_apart(v, i, m - 1);
    }
}

proof fn lemma_hit_from(v: int, x: int, from: int)
    requires
        valid_version(v),
        0 <= from <= alignment_count(v),
    ensures
        match alignment_hit(v, x, from) {
            Some(i) => from <= i < alignment_count(v) && in_band(v, x, i),
            None => forall|i: int| from <= i < alignment_count(v) ==> !#[trigger] in_band(v, x, i),
        },
    decreases alignment_count(v) - from,
{
    if from < alignment_count(v) {
        lemma_hit_from(v, x, from + 1);
    }
}

/// A coordinate within two cells of a centre hits that centre and no other.
proof fn lemma_hit(v: int, x: int, i: int)
    requires
        valid_version(v),
        v >= 2,
        0 <= i < alignment_count(v),
        in_band(v, x, i),
    ensures
        alignment_hit(v, x, 0) == Some(i),
{
    lemma_hit_from(v, x, 0);
    match alignment_hit(v, x, 0) {
        Some(m) => {
            if m < i {
                lemma_centres_apart(v, m, i);
            } else if i < m {
                lemma_centres_apart(v, i, m);
            }
        },
        None => {
            assert(!in_band(v, x, i));
        },
    }
}

/// A coordinate between two neighbouring centres, and more than two cells
/// from both, hits no centre.
proof fn lemma_miss(v: int, x: int, i: int)
    requires
        valid_version(v),
        v >= 2,
        0 <= i < alignment_count(v) - 1,
        alignment_centre(v, i) + 2 < x < alignment_centre(v, i + 1) - 2,
    ensures
        alignment_hit(v, x, 0) is None,
{
    lemma_hit_from(v, x, 0);
    match alignment_hit(v, x, 0) {
        Some(m) => {
            if m < i {
                lemma_centres_apart(v, m, i);
            } else if i + 1 < m {
                lemma_centres_apart(v, i + 1, m);
            }
        },
        None => {},
    }
}

/// A coordinate more than two cells before the first centre or after the
/// last hits no centre.
proof fn lemma_miss_outside(v: int, x: int)
    requires
        valid_version(v),
        v >= 2,
        x < 4 || x > side(v) - 5,
    ensures
        alignment_hit(v, x, 0) is None,
{
    lemma_centres(v);
    lemma_hit_from(v, x, 0);
    let last = alignment_count(v) - 1;
    match alignment_hit(v, x, 0) {
        Some(m) => {
            if 0 < m {
                lemma_centres_apart(v, 0, m);
            }
            if m < last {
                lemma_centres_apart(v, m, last);
            }
        },
        None => {},
    }
}

/// From the end of one band to the end of the next, all coordinates but
/// the five of the band hit no centre.
proof fn lemma_free_gap(v: int, i: int)
    requires
        valid_version(v),
        v >= 2,
        0 <= i < alignment_count(v) - 1,
    ensures
        count(off_bands(v), alignment_centre(v, i) + 3, alignment_centre(v, i + 1) + 3)
            == alignment_centre(v, i + 1) - alignment_centre(v, i) - 5,
{
    let f = off_bands(v);
    let a = alignment_centre(v, i);
    let b = alignment_centre(v, i + 1);
    lemma_centres(v);
    assert(alignment_centre(v, i + 1) - alignment_centre(v, i) >= 12);
    lemma_count_split(f, a + 3, b - 2, b + 3);
    assert forall|x: int| a + 3 <= x < b - 2 implies #[trigger] f(x) by {
        lemma_miss(v, x, i);
    }
    lemma_count_all(f, a + 3, b - 2);
    assert forall|x: int| b - 2 <= x < b + 3 implies !#[trigger] f(x) by {
        lemma_hit(v, x, i + 1);
    }
    lemma_count_none(f, b - 2, b + 3);
}

/// From the end of one band to the end of a later one, all coordinates but
/// five for each band hit no centre.
proof fn lemma_free_range(v: int, i: int, m: int)
    requires
        valid_version(v),
        v >= 2,
        0 <= i <= m < alignment_count(v),
    ensures
        count(off_bands(v), alignment_centre(v, i) + 3, alignment_centre(v, m) + 3)
            == alignment_centre(v, m) - alignment_centre(v, i) - 5 * (m - i),
    decreases m,
{
    if i < m {
        lemma_free_range(v, i, m - 1);
        lemma_free_gap(v, m - 1);
        lemma_centres_apart(v, m - 1, m);
        if i < m - 1 {
            lemma_centres_apart(v, i, m - 1);
        }
        lemma_count_split(
            off_bands(v),
            alignment_centre(v, i) + 3,
            alignment_centre(v, m - 1) + 3,
            alignment_centre(v, m) + 3,
        );
    }
}

/// How many coordinates of each stretch of a side hit no centre.
proof fn lemma_free_stretches(v: int)
    requires
        valid_version(v),
        v >= 2,
    ensures
        ({
            let f = off_bands(v);
            let n = side(v);
            let bands = alignment_count(v);
            &&& count(f, 0, 4) == 4
            &&& count(f, 4, 9) == 0
            &&& count(f, 9, n - 11) == n - 10 - 5 * bands
            &&& count(f, n - 11, n - 9) == 2
            &&& count(f, n - 9, n - 4) == 0
            &&& count(f, n - 4, n) == 4
        }),
{
    let f = off_bands(v);
    let n = side(v);
    let last = alignment_count(v) - 1;
    lemma_centres(v);
    lemma_free_range(v, 0, last);
    lemma_centres_apart(v, 0, last);
    assert forall|x: int| 0 <= x < 4 implies #[trigger] f(x) by {
        lemma_miss_outside(v, x);
    }
    lemma_count_all(f, 0, 4);
    assert forall|x: int| 4 <= x < 9 implies !#[trigger] f(x) by {
        lemma_hit(v, x, 0);
    }
    lemma_count_none(f, 4, 9);
    assert forall|x: int| n - 4 <= x < n implies #[trigger] f(x) by {
        lemma_miss_outside(v, x);
    }
    lemma_count_all(f, n - 4, n);
    assert forall|x: int| n - 9 <= x < n - 4 implies !#[trigger] f(x) by {
        lemma_hit(v, x, last);
    }
    lemma_count_none(f, n - 9, n - 4);
    assert forall|x: int| n - 11 <= x < n - 9 implies #[trigger] f(x) by {
        assert(alignment_centre(v, (last - 1) + 1) - alignment_centre(v, last - 1) >= 12);
        lemma_miss(v, x, last - 1);
    }
    lemma_count_all(f, n - 11, n - 9);
    lemma_count_split(f, 9, n - 11, n - 4);
    lemma_count_split(f, n - 11, n - 9, n - 4);
}

/// The columns to the left of the data area proper, which pass the two
/// finder patterns of the left side: they hold data between the patterns
/// only, and less where alignment patterns and the version information
/// stand.
proof fn lemma_column_left(v: int, c: int)
    requires
        valid_version(v),
        v >= 2,
        0 <= c < 9,
        c != 6,
    ensures
        column_total(v, c) == if c < 4 {
            side(v) - 20
        } else {
            side(v) - 10 - 5 * alignment_count(v)
        } + if v >= 7 && c < 6 {
            0int
        } else {
            3int
        },
{
    let n = side(v);
    let f = off_bands(v);
    let col = column(v, c);
    let last = alignment_count(v) - 1;
    lemma_centres(v);
    lemma_free_stretches(v);
    lemma_centres_apart(v, 0, last);
    lemma_count_none(col, 0, 9);
    lemma_count_none(col, n - 8, n);
    if c < 4 {
        assert forall|r: int| 9 <= r < n - 11 implies #[trigger] col(r) by {
            lemma_miss_outside(v, c);
        }
        lemma_count_all(col, 9, n - 11);
    } else {
        assert forall|r: int| 9 <= r < n - 11 implies #[trigger] col(r) == f(r) by {
            lemma_hit(v, c, 0);
            lemma_hit_from(v, r, 0);
        }
        lemma_count_same(col, f, 9, n - 11);
    }
    if v >= 7 && c < 6 {
        lemma_count_none(col, n - 11, n - 8);
    } else {
        assert forall|r: int| n - 11 <= r < n - 8 implies #[trigger] col(r) by {
            if c >= 4 {
                lemma_hit(v, c, 0);
            } else {
                lemma_miss_outside(v, c);
            }
            if r == n - 9 {
                lemma_hit(v, r, last);
            } else {
                assert(alignment_centre(v, (last - 1) + 1) - alignment_centre(v, last - 1) >= 12);
                lemma_miss(v, r, last - 1);
            }
        }
        lemma_count_all(col, n - 11, n - 8);
    }
    lemma_count_split(col, 0, 9, n);
    lemma_count_split(col, 9, n - 11, n);
    lemma_count_split(col, n - 11, n - 8, n);
}

/// The columns of the data area proper: they hold data everywhere but on
/// the timing line, or, where they pass through alignment patterns,
/// everywhere but in the patterns.
proof fn lemma_column_middle(v: int, c: int)
    requires
        valid_version(v),
        v >= 2,
        9 <= c < side(v) - 11,
    ensures
        column_total(v, c) == side(v) - 5 * alignment_count(v) + if off_bands(v)(c) {
            5 * alignment_count(v) - 1
        } else {
            0
        },
{
    let n = side(v);
    let f = off_bands(v);
    let col = column(v, c);
    let last = alignment_count(v) - 1;
    lemma_centres(v);
    lemma_free_stretches(v);
    lemma_centres_apart(v, 0, last);
    lemma_hit_from(v, c, 0);
    if f(c) {
        lemma_count_all(col, 0, 6);
        lemma_count_none(col, 6, 7);
        lemma_count_all(col, 7, n);
        lemma_count_split(col, 0, 6, n);
        lemma_count_split(col, 6, 7, n);
    } else {
        assert forall|r: int| 0 <= r < n implies #[trigger] col(r) == f(r) by {
            lemma_hit_from(v, r, 0);
            lemma_hit(v, 6, 0);
        }
        lemma_count_same(col, f, 0, n);
        lemma_count_split(f, 0, 4, n);
        lemma_count_split(f, 4, 9, n);
        lemma_count_split(f, 9, n - 11, n);
        lemma_count_split(f, n - 11, n - 9, n);
        lemma_count_split(f, n - 9, n - 4, n);
    }
}

/// The two columns that pass the version information beside the top right
/// finder pattern.
proof fn lemma_column_version(v: int, c: int)
    requires
        valid_version(v),
        v >= 2,
        side(v) - 11 <= c < side(v) - 9,
    ensures
        column_total(v, c) == side(v) - 1 - if v >= 7 {
            6int
        } else {
            0int
        },
{
    let n = side(v);
    let col = column(v, c);
    let last = alignment_count(v) - 1;
    lemma_centres(v);
    assert(alignment_centre(v, (last - 1) + 1) - alignment_centre(v, last - 1) >= 12);
    lemma_miss(v, c, last - 1);
    if v >= 7 {
        lemma_count_none(col, 0, 7);
        lemma_count_all(col, 7, n);
        lemma_count_split(col, 0, 7, n);
    } else {
        lemma_count_all(col, 0, 6);
        lemma_count_none(col, 6, 7);
        lemma_count_all(col, 7, n);
        lemma_count_split(col, 0, 6, n);
        lemma_count_split(col, 6, 7, n);
    }
}

/// The column just left of the top right finder pattern, which passes the
/// version information and the last band of alignment patterns.
proof fn lemma_column_edge(v: int)
    requires
        valid_version(v),
        v >= 2,
    ensures
        column_total(v, side(v) - 9) == side(v) - 2 - 5 * alignment_count(v) + if v >= 7 {
            0int
        } else {
            6int
        },
{
    let n = side(v);
    let c = n - 9;
    let f = off_bands(v);
    let col = column(v, c);
    let last = alignment_count(v) - 1;
    lemma_centres(v);
    lemma_free_stretches(v);
    lemma_centres_apart(v, 0, last);
    lemma_hit(v, c, last);
    if v >= 7 {
        lemma_count_none(col, 0, 6);
    } else {
        assert forall|r: int| 0 <= r < 6 implies #[trigger] col(r) by {
            if r < 4 {
                lemma_miss_outside(v, r);
            } else {
                lemma_hit(v, r, 0);
            }
        }
        lemma_count_all(col, 0, 6);
    }
    assert(!col(6)) by {
        lemma_hit(v, 6, 0);
    }
    lemma_count_none(col, 6, 7);
    assert forall|r: int| 7 <= r < 9 implies #[trigger] col(r) by {
        lemma_hit(v, r, 0);
    }
    lemma_count_all(col, 7, 9);
    assert forall|r: int| 9 <= r < n implies #[trigger] col(r) == f(r) by {
        lemma_hit_from(v, r, 0);
    }
    lemma_count_same(col, f, 9, n);
    lemma_count_split(col, 0, 6, n);
    lemma_count_split(col, 6, 7, n);
    lemma_count_split(col, 7, 9, n);
    lemma_count_split(f, 9, n - 11, n);
    lemma_count_split(f, n - 11, n - 9, n);
    lemma_count_split(f, n - 9, n - 4, n);
}

/// The columns that pass the top right finder pattern.
proof fn lemma_column_right(v: int, c: int)
    requires
        valid_version(v),
        v >= 2,
        side(v) - 8 <= c < side(v),
    ensures
        column_total(v, c) == if c < side(v) - 4 {
            side(v) - 4 - 5 * alignment_count(v)
        } else {
            side(v) - 9
        },
{
    let n = side(v);
    let f = off_bands(v);
    let col = column(v, c);
    let last = alignment_count(v) - 1;
    lemma_centres(v);
    lemma_free_stretches(v);
    lemma_centres_apart(v, 0, last);
    lemma_count_none(col, 0, 9);
    lemma_count_split(col, 0, 9, n);
    if c < n - 4 {
        lemma_hit(v, c, last);
        assert forall|r: int| 9 <= r < n implies #[trigger] col(r) == f(r) by {
            lemma_hit_from(v, r, 0);
        }
        lemma_count_same(col, f, 9, n);
        lemma_count_split(f, 9, n - 11, n);
        lemma_count_split(f, n - 11, n - 9, n);
        lemma_count_split(f, n - 9, n - 4, n);
    } else {
        lemma_miss_outside(v, c);
        lemma_count_all(col, 9, n);
    }
}

proof fn lemma_sum_same(g: spec_fn(int) -> int, value: int, lo: int, hi: int)
    requires
        lo <= hi,
        forall|i: int| lo <= i < hi ==> #[trigger] g(i) == value,
    ensures
        sum(g, lo, hi) == value * (hi - lo),
{
    let never = |i: int| false;
    lemma_sum_by_count(g, never, value, 0, lo, hi);
    assert(0 * count(never, lo, hi) == 0);
}

/// Number of cells of a symbol of version `v` that no pattern and no
/// information area takes: the square of the side, less three finder
/// patterns with their separators, two timing lines, the alignment
/// patterns, two copies of the format information with the dark module and,
/// from version 7 on, two copies of the version information.
pub open spec fn free_cells(v: int) -> int {
    let bands = alignment_count(v);
    (16 * v + 128) * v + 64 - if v >= 2 {
        (25 * bands - 10) * bands - 55
    } else {
        0
    } - if v >= 7 {
        36int
    } else {
        0int
    }
}

proof fn lemma_area_first()
    ensures
        data_cell_count(1) == free_cells(1),
{
    let g = column_totals(1);
    lemma_count_by_columns(1);
    assert forall|c: int| 0 <= c < 21 && c != 6 implies #[trigger] g(c) == if c < 9 {
        4int
    } else if c < 13 {
        20int
    } else {
        12int
    } by {
        let col = column(1, c);
        if c < 9 {
            lemma_count_none(col, 0, 9);
            lemma_count_all(col, 9, 13);
            lemma_count_none(col, 13, 21);
            lemma_count_split(col, 0, 9, 21);
            lemma_count_split(col, 9, 13, 21);
        } else if c < 13 {
            lemma_count_all(col, 0, 6);
            lemma_count_none(col, 6, 7);
            lemma_count_all(col, 7, 21);
            lemma_count_split(col, 0, 6, 21);
            lemma_count_split(col, 6, 7, 21);
        } else {
            lemma_count_none(col, 0, 9);
            lemma_count_all(col, 9, 21);
            lemma_count_split(col, 0, 9, 21);
        }
    }
    lemma_sum_same(g, 4, 0, 6);
    lemma_sum_same(g, 4, 7, 9);
    lemma_sum_same(g, 20, 9, 13);
    lemma_sum_same(g, 12, 13, 21);
    lemma_sum_split(g, 7, 9, 21);
    lemma_sum_split(g, 9, 13, 21);
}

proof fn lemma_area_later(v: int)
    requires
        valid_version(v),
        v >= 2,
    ensures
        data_cell_count(v) == free_cells(v),
{
    let n = side(v);
    let bands = alignment_count(v);
    let g = column_totals(v);
    let f = off_bands(v);
    let kept = if v >= 7 {
        0int
    } else {
        3int
    };
    lemma_centres(v);
    lemma_free_stretches(v);
    lemma_count_by_columns(v);
    assert forall|c: int| 0 <= c < 4 implies #[trigger] g(c) == n - 20 + kept by {
        lemma_column_left(v, c);
    }
    lemma_sum_same(g, n - 20 + kept, 0, 4);
    assert forall|c: int| 4 <= c < 6 implies #[trigger] g(c) == n - 10 - 5 * bands + kept by {
        lemma_column_left(v, c);
    }
    lemma_sum_same(g, n - 10 - 5 * bands + kept, 4, 6);
    assert forall|c: int| 7 <= c < 9 implies #[trigger] g(c) == n - 7 - 5 * bands by {
        lemma_column_left(v, c);
    }
    lemma_sum_same(g, n - 7 - 5 * bands, 7, 9);
    assert forall|c: int| 9 <= c < n - 11 implies #[trigger] g(c) == n - 5 * bands + if f(c) {
        5 * bands - 1
    } else {
        0
    } by {
        lemma_column_middle(v, c);
    }
    lemma_sum_by_count(g, f, n - 5 * bands, 5 * bands - 1, 9, n - 11);
    assert forall|c: int| n - 11 <= c < n - 9 implies #[trigger] g(c) == n - 7 + 2 * kept by {
        lemma_column_version(v, c);
    }
    lemma_sum_same(g, n - 7 + 2 * kept, n - 11, n - 9);
    assert(sum(g, n - 9, n - 8) == n - 2 - 5 * bands + 2 * kept) by {
        lemma_column_edge(v);
        assert(sum(g, n - 9, n - 8) == sum(g, n - 9, n - 9) + g(n - 9));
    }
    assert forall|c: int| n - 8 <= c < n - 4 implies #[trigger] g(c) == n - 4 - 5 * bands by {
        lemma_column_right(v, c);
    }
    lemma_sum_same(g, n - 4 - 5 * bands, n - 8, n - 4);
    assert forall|c: int| n - 4 <= c < n implies #[trigger] g(c) == n - 9 by {
        lemma_column_right(v, c);
    }
    lemma_sum_same(g, n - 9, n - 4, n);
    lemma_sum_split(g, 0, 4, 6);
    lemma_sum_split(g, 7, 9, n);
    lemma_sum_split(g, 9, n - 11, n);
    lemma_sum_split(g, n - 11, n - 9, n);
    lemma_sum_split(g, n - 9, n - 8, n);
    lemma_sum_split(g, n - 8, n - 4, n);
    let middle = (n - 5 * bands) * (n - 20) + (5 * bands - 1) * (n - 10 - 5 * bands);
    assert(sum(g, 9, n - 11) == middle);
    assert(middle == n * n - 21 * n + 55 * bands - 25 * (bands * bands) + 10)
        by (nonlinear_arith)
        requires
            middle == (n - 5 * bands) * (n - 20) + (5 * bands - 1) * (n - 10 - 5 * bands),
    ;
    assert(n * n == 16 * (v * v) + 136 * v + 289) by (nonlinear_arith)
        requires
            n == 4 * v + 17,
    ;
    assert((16 * v + 128) * v == 16 * (v * v) + 128 * v) by (nonlinear_arith);
    assert((25 * bands - 10) * bands == 25 * (bands * bands) - 10 * bands) by (nonlinear_arith);
    assert((n - 20 + kept) * 4 == 4 * n - 80 + 4 * kept);
    assert((n - 10 - 5 * bands + kept) * 2 == 2 * n - 20 - 10 * bands + 2 * kept);
    assert((n - 7 - 5 * bands) * 2 == 2 * n - 14 - 10 * bands);
    assert((n - 7 + 2 * kept) * 2 == 2 * n - 14 + 4 * kept);
    assert((n - 4 - 5 * bands) * 4 == 4 * n - 16 - 20 * bands);
    assert((n - 9) * 4 == 4 * n - 36);
}

/// The data cells that the filling passes are the cells that no pattern and
/// no information area takes.
pub proof fn lemma_data_cells_free(v: int)
    requires
        valid_version(v),
    ensures
        data_cell_count(v) == free_cells(v),
{
    if v == 1 {
        lemma_area_first();
    } else {
        lemma_area_later(v);
    }
}

/// The table of codewords agrees with the layout: the cells that no
/// pattern takes are eight for every codeword, and the few left over that
/// the table of remainder bits names.
pub proof fn lemma_free_cells_table(v: int)
    requires
        valid_version(v),
    ensures
        free_cells(v) == 8 * total_codewords(v) + remainder_bits(v),
{
    let bands = alignment_count(v);
    assert((16 * v + 128) * v == 16 * (v * v) + 128 * v) by (nonlinear_arith);
    assert((25 * bands - 10) * bands == 25 * (bands * bands) - 10 * bands) by (nonlinear_arith);
    if v == 1 {
        assert(v * v == 1 * 1);
    } else if v == 2 {
        assert(v * v == 2 * 2);
    } else if v == 3 {
        assert(v * v == 3 * 3);
    } else if v == 4 {
        assert(v * v == 4 * 4);
    } else if v == 5 {
        assert(v * v == 5 * 5);
    } else if v == 6 {
        assert(v * v == 6 * 6);
    } else if v == 7 {
        assert(v * v == 7 * 7);
    } else if v == 8 {
        assert(v * v == 8 * 8);
    } else if v == 9 {
        assert(v * v == 9 * 9);
    } else if v == 10 {
        assert(v * v == 10 * 10);
    } else if v == 11 {
        assert(v * v == 11 * 11);
    } else if v == 12 {
        assert(v * v == 12 * 12);
    } else if v == 13 {
        assert(v * v == 13 * 13);
    } else if v == 14 {
        assert(v * v == 14 * 14);
    } else if v == 15 {
        assert(v * v == 15 * 15);
    } else if v == 16 {
        assert(v * v == 16 * 16);
    } else if v == 17 {
        assert(v * v == 17 * 17);
    } else if v == 18 {
        assert(v * v == 18 * 18);
    } else if v == 19 {
        assert(v * v == 19 * 19);
    } else if v == 20 {
        assert(v * v == 20 * 20);
    } else if v == 21 {
        assert(v * v == 21 * 21);
    } else if v == 22 {
        assert(v * v == 22 * 22);
    } else if v == 23 {
        assert(v * v == 23 * 23);
    } else if v == 24 {
        assert(v * v == 24 * 24);
    } else if v == 25 {
        assert(v * v == 25 * 25);
    } else if v == 26 {
        assert(v * v == 26 * 26);
    } else if v == 27 {
        assert(v * v == 27 * 27);
    } else if v == 28 {
        assert(v * v == 28 * 28);
    } else if v == 29 {
        assert(v * v == 29 * 29);
    } else if v == 30 {
        assert(v * v == 30 * 30);
    } else if v == 31 {
        assert(v * v == 31 * 31);
    } else if v == 32 {
        assert(v * v == 32 * 32);
    } else if v == 33 {
        assert(v * v == 33 * 33);
    } else if v == 34 {
        assert(v * v == 34 * 34);
    } else if v == 35 {
        assert(v * v == 35 * 35);
    } else if v == 36 {
        assert(v * v == 36 * 36);
    } else if v == 37 {
        assert(v * v == 37 * 37);
    } else if v == 38 {
        assert(v * v == 38 * 38);
    } else if v == 39 {
        assert(v * v == 39 * 39);
    } else if v == 40 {
        assert(v * v == 40 * 40);
    }
    if bands == 2 {
        assert(bands * bands == 2 * 2);
    } else if bands == 3 {
        assert(bands * bands == 3 * 3);
    } else if bands == 4 {
        assert(bands * bands == 4 * 4);
    } else if bands == 5 {
        assert(bands * bands == 5 * 5);
    } else if bands == 6 {
        assert(bands * bands == 6 * 6);
    } else if bands == 7 {
        assert(bands * bands == 7 * 7);
    }
}

/// The data area holds the final codeword sequence exactly: the filling
/// passes eight data cells for every codeword of the symbol and then as many
/// as the version has remainder bits, and no other.
pub proof fn lemma_data_area(v: int)
    requires
        valid_version(v),
    ensures
        data_cell_count(v) == 8 * total_codewords(v) + remainder_bits(v),
{
    lemma_data_cells_free(v);
    lemma_free_cells_table(v);
}

proof fn lemma_sum_equal(g: spec_fn(int) -> int, h: spec_fn(int) -> int, lo: int, hi: int)
    requires
        forall|i: int| lo <= i < hi ==> #[trigger] g(i) == h(i),
    ensures
        sum(g, lo, hi) == sum(h, lo, hi),
    decreases hi - lo,
{
    if lo < hi {
        lemma_sum_equal(g, h, lo, hi - 1);
    }
}

/// The modules of column `c` of a matrix that are tagged as data, as a
/// property of the row.
pub open spec fn tagged_column(m: Seq<Seq<Module>>, c: int) -> spec_fn(int) -> bool {
    |r: int| !m[r][c].fixed
}

/// The number of modules of a column of a matrix that are tagged as data, as
/// a property of the column.
pub open spec fn tagged_columns(m: Seq<Seq<Module>>) -> spec_fn(int) -> int {
    |c: int| count(tagged_column(m, c), 0, m.len() as int)
}

/// Number of modules of a square matrix that are tagged as data.
pub open spec fn tagged_data(m: Seq<Seq<Module>>) -> int {
    sum(tagged_columns(m), 0, m.len() as int)
}

/// A matrix of version `v` whose modules are tagged as the layout says has
/// as many data modules as the filling passes data cells.
pub proof fn lemma_tagged_by_layout(m: Seq<Seq<Module>>, v: int)
    requires
        valid_version(v),
        m.len() == side(v),
        forall|r: int, c: int|
            0 <= r < side(v) && 0 <= c < side(v) ==> (#[trigger] m[r][c]).fixed == !is_data_cell(
                v,
                r,
                c,
            ),
    ensures
        tagged_data(m) == data_cell_count(v),
{
    let n = side(v);
    let g = column_totals(v);
    let h = tagged_columns(m);
    lemma_count_by_columns(v);
    assert forall|c: int| 0 <= c < n implies #[trigger] h(c) == g(c) by {
        let tagged = tagged_column(m, c);
        let col = column(v, c);
        assert forall|r: int| 0 <= r < n implies #[trigger] tagged(r) == col(r) by {
            assert(m[r][c].fixed == !is_data_cell(v, r, c));
        }
        lemma_count_same(tagged, col, 0, n);
    }
    lemma_sum_equal(h, g, 0, n);
    lemma_count_none(column(v, 6), 0, n);
    lemma_sum_split(g, 0, 6, n);
    lemma_sum_split(g, 6, 7, n);
    assert(sum(g, 6, 7) == sum(g, 6, 6) + g(6));
}

/// A finished symbol has eight modules tagged as data for every codeword,
/// and as many more as its version has remainder bits.
pub proof fn lemma_symbol_data_modules(v: int, level: ECL, mask: Mask, bits: Seq<bool>)
    requires
        valid_version(v),
    ensures
        tagged_data(symbol(v, level, mask, bits)) == 8 * total_codewords(v) + remainder_bits(v),
{
    let m = symbol(v, level, mask, bits);
    lemma_symbol_cells(v, level, mask, bits);
    assert forall|r: int, c: int| 0 <= r < side(v) && 0 <= c < side(v) implies (#[trigger] m[r][c]).fixed
        == !is_data_cell(v, r, c) by {
        assert(m[r][c] == symbol_cell(v, level, mask, bits, r, c));
    }
    lemma_tagged_by_layout(m, v);
    lemma_data_area(v);
}

} // verus!
