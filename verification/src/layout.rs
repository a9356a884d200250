//! The layout of a symbol: which cells hold finder, separator, timing and
//! alignment patterns, which are kept for the format and version information,
//! and in which order the remaining cells take the data bits.

use vstd::prelude::*;
use crate::version::Version;

verus! {

/// Centres of the alignment patterns of each version along either axis; a
/// version has as many centres as `alignment_count` says, and the other
/// entries of its row are unused.
pub const ALIGNMENT_CENTRES: [[u8; 7]; 41] = [
    [0, 0, 0, 0, 0, 0, 0],
    [0, 0, 0, 0, 0, 0, 0],
    [6, 18, 0, 0, 0, 0, 0],
    [6, 22, 0, 0, 0, 0, 0],
    [6, 26, 0, 0, 0, 0, 0],
    [6, 30, 0, 0, 0, 0, 0],
    [6, 34, 0, 0, 0, 0, 0],
    [6, 22, 38, 0, 0, 0, 0],
    [6, 24, 42, 0, 0, 0, 0],
    [6, 26, 46, 0, 0, 0, 0],
    [6, 28, 50, 0, 0, 0, 0],
    [6, 30, 54, 0, 0, 0, 0],
    [6, 32, 58, 0, 0, 0, 0],
    [6, 34, 62, 0, 0, 0, 0],
    [6, 26, 46, 66, 0, 0, 0],
    [6, 26, 48, 70, 0, 0, 0],
    [6, 26, 50, 74, 0, 0, 0],
    [6, 30, 54, 78, 0, 0, 0],
    [6, 30, 56, 82, 0, 0, 0],
    [6, 30, 58, 86, 0, 0, 0],
    [6, 34, 62, 90, 0, 0, 0],
    [6, 28, 50, 72, 94, 0, 0],
    [6, 26, 50, 74, 98, 0, 0],
    [6, 30, 54, 78, 102, 0, 0],
    [6, 28, 54, 80, 106, 0, 0],
    [6, 32, 58, 84, 110, 0, 0],
    [6, 30, 58, 86, 114, 0, 0],
    [6, 34, 62, 90, 118, 0, 0],
    [6, 26, 50, 74, 98, 122, 0],
    [6, 30, 54, 78, 102, 126, 0],
    [6, 26, 52, 78, 104, 130, 0],
    [6, 30, 56, 82, 108, 134, 0],
    [6, 34, 60, 86, 112, 138, 0],
    [6, 30, 58, 86, 114, 142, 0],
    [6, 34, 62, 90, 118, 146, 0],
    [6, 30, 54, 78, 102, 126, 150],
    [6, 24, 50, 76, 102, 128, 154],
    [6, 28, 54, 80, 106, 132, 158],
    [6, 32, 58, 84, 110, 136, 162],
    [6, 26, 54, 82, 110, 138, 166],
    [6, 30, 58, 86, 114, 142, 170],];

/// What a cell of a symbol is for.
#[derive(Copy, Clone, Debug, PartialEq, Eq, Structural)]
pub enum Cell {
    /// Part of a finder pattern, a separator, a timing or an alignment
    /// pattern, or the single dark module: a cell whose colour the version
    /// alone decides.
    Pattern(bool),
    /// Holds the bit of the format information with the given index, counted
    /// from the least significant.
    Format(u8),
    /// Holds the bit of the version information with the given index, counted
    /// from the least significant.
    VersionInfo(u8),
    /// Takes a data bit.
    Data,
}

/// Side length of a symbol of version `v`.
pub open spec fn side(v: int) -> int {
    4 * v + 17
}

/// Distance of a cell from a centre that lies `dr` rows and `dc` columns
/// away, counted in rings around the centre.
pub open spec fn ring(dr: int, dc: int) -> int {
    let a = if dr < 0 {
        -dr
    } else {
        dr
    };
    let b = if dc < 0 {
        -dc
    } else {
        dc
    };
    if a > b {
        a
    } else {
        b
    }
}

/// Whether the cell lies in one of the three corners that hold a finder
/// pattern and its separator.
pub open spec fn in_finder_corner(n: int, r: int, c: int) -> bool {
    (r < 8 && c < 8) || (r < 8 && c >= n - 8) || (r >= n - 8 && c < 8)
}

/// Colour of a cell in a finder corner: a dark centre of three by three, a
/// light ring, a dark ring, and the light separator outside.
pub open spec fn finder_dark(n: int, r: int, c: int) -> bool {
    let centre_r = if r < 8 {
        3
    } else {
        n - 4
    };
    let centre_c = if c < 8 {
        3
    } else {
        n - 4
    };
    let d = ring(r - centre_r, c - centre_c);
    d <= 3 && d != 2
}

/// Index of the format information bit that the cell holds, if it holds one.
/// The fifteen bits are laid out twice: once around the top left finder
/// pattern, once split between the other two.
pub open spec fn format_index(n: int, r: int, c: int) -> Option<int> {
    if c == 8 && 0 <= r <= 5 {
        Some(r)
    } else if c == 8 && r == 7 {
        Some(6)
    } else if c == 8 && r == 8 {
        Some(7)
    } else if r == 8 && c == 7 {
        Some(8)
    } else if r == 8 && 0 <= c <= 5 {
        Some(14 - c)
    } else if r == 8 && n - 8 <= c < n {
        Some(n - 1 - c)
    } else if c == 8 && n - 7 <= r < n {
        Some(r - (n - 15))
    } else {
        None
    }
}

/// Index of the version information bit that the cell holds, if it holds one.
/// Symbols from version 7 on carry the eighteen bits twice: in a block of six
/// by three cells beside the top right finder pattern and in its mirror
/// image beside the bottom left one.
pub open spec fn version_index(v: int, r: int, c: int) -> Option<int> {
    let n = side(v);
    if v < 7 {
        None
    } else if 0 <= r < 6 && n - 11 <= c <= n - 9 {
        Some(3 * r + (c - (n - 11)))
    } else if 0 <= c < 6 && n - 11 <= r <= n - 9 {
        Some(3 * c + (r - (n - 11)))
    } else {
        None
    }
}

/// Number of alignment pattern centres of version `v` along either axis.
pub open spec fn alignment_count(v: int) -> int {
    if v == 1 {
        0
    } else {
        v / 7 + 2
    }
}

/// The `i`-th alignment pattern centre of version `v`.
pub open spec fn alignment_centre(v: int, i: int) -> int {
    ALIGNMENT_CENTRES[v][i] as int
}

/// Index of the first centre from the `i`-th on that lies within two cells
/// of the coordinate `x`.
pub open spec fn alignment_hit(v: int, x: int, i: int) -> Option<int>
    decreases alignment_count(v) - i,
{
    if i >= alignment_count(v) {
        None
    } else if ring(x - alignment_centre(v, i), 0) <= 2 {
        Some(i)
    } else {
        alignment_hit(v, x, i + 1)
    }
}

/// Colour of a cell of an alignment pattern, if the cell belongs to one.
/// A pattern lies around every pair of centres but the three that fall into
/// the finder corners; it has a dark centre, a light ring and a dark ring.
pub open spec fn alignment_dark(v: int, r: int, c: int) -> Option<bool> {
    let last = alignment_count(v) - 1;
    match (alignment_hit(v, r, 0), alignment_hit(v, c, 0)) {
        (Some(i), Some(j)) => if (i == 0 && j == 0) || (i == 0 && j == last) || (i == last && j
            == 0) {
            None
        } else {
            Some(ring(r - alignment_centre(v, i), c - alignment_centre(v, j)) != 1)
        },
        _ => None,
    }
}

/// What the cell in row `r` and column `c` of a symbol of version `v` is for.
pub open spec fn cell_kind(v: int, r: int, c: int) -> Cell {
    let n = side(v);
    if in_finder_corner(n, r, c) {
        Cell::Pattern(finder_dark(n, r, c))
    } else if r == n - 8 && c == 8 {
        Cell::Pattern(true)
    } else if format_index(n, r, c) is Some {
        Cell::Format(format_index(n, r, c)->0 as u8)
    } else if version_index(v, r, c) is Some {
        Cell::VersionInfo(version_index(v, r, c)->0 as u8)
    } else if alignment_dark(v, r, c) is Some {
        Cell::Pattern(alignment_dark(v, r, c)->0)
    } else if r == 6 || c == 6 {
        Cell::Pattern((r + c) % 2 == 0)
    } else {
        Cell::Data
    }
}

/// Whether the cell takes a data bit.
pub open spec fn is_data_cell(v: int, r: int, c: int) -> bool {
    cell_kind(v, r, c) is Data
}

/// The data bits fill the symbol in pairs of columns, from the right edge to
/// the left, passing over the column of the vertical timing pattern. This is
/// the pair that column `c` belongs to, counted from the right.
pub open spec fn pair_of(n: int, c: int) -> int {
    if c > 6 {
        (n - 1 - c) / 2
    } else {
        (n - 2 - c) / 2
    }
}

/// Place of column `c` in its pair: 0 for the right column, which is filled
/// first, 1 for the left.
pub open spec fn half_of(c: int) -> int {
    if c > 6 {
        c % 2
    } else {
        (c + 1) % 2
    }
}

/// Number of rows that the filling has left behind in the pair of column `c`
/// when it comes to row `r`: pairs are filled upwards and downwards in turn,
/// the rightmost upwards.
pub open spec fn step_of(n: int, r: int, c: int) -> int {
    if pair_of(n, c) % 2 == 0 {
        n - 1 - r
    } else {
        r
    }
}

/// The column that is half `h` of the pair `p`.
pub open spec fn pair_column(n: int, p: int, h: int) -> int {
    if n - 1 - 2 * p > 6 {
        n - 1 - 2 * p - h
    } else {
        n - 2 - 2 * p - h
    }
}

/// The row that the filling reaches at step `t` in the pair `p`.
pub open spec fn pair_row(n: int, p: int, t: int) -> int {
    if p % 2 == 0 {
        n - 1 - t
    } else {
        t
    }
}

/// Number of data cells that the filling has passed before it comes to half
/// `h` of step `t` in the pair `p`.
pub open spec fn data_before(v: int, p: int, t: int, h: int) -> int
    decreases p, t, h,
{
    let n = side(v);
    if h > 0 {
        data_before(v, p, t, h - 1) + if is_data_cell(
            v,
            pair_row(n, p, t),
            pair_column(n, p, h - 1),
        ) {
            1int
        } else {
            0int
        }
    } else if t > 0 {
        data_before(v, p, t - 1, 2)
    } else if p > 0 {
        data_before(v, p - 1, n, 0)
    } else {
        0
    }
}

/// Position in the bit sequence of the bit that the cell takes.
pub open spec fn data_index(v: int, r: int, c: int) -> int {
    let n = side(v);
    data_before(v, pair_of(n, c), step_of(n, r, c), half_of(c))
}

/// Number of data cells of a symbol of version `v`.
pub open spec fn data_cell_count(v: int) -> int {
    data_before(v, (side(v) - 1) / 2, 0, 0)
}

/// Every column but that of the vertical timing pattern is one half of one
/// pair, and every row is one step of it.
pub proof fn lemma_zigzag_covers(n: int, r: int, c: int)
    requires
        21 <= n,
        n % 2 == 1,
        0 <= r < n,
        0 <= c < n,
        c != 6,
    ensures
        0 <= pair_of(n, c) < (n - 1) / 2,
        0 <= step_of(n, r, c) < n,
        0 <= half_of(c) < 2,
        pair_column(n, pair_of(n, c), half_of(c)) == c,
        pair_row(n, pair_of(n, c), step_of(n, r, c)) == r,
{
}

/// Every step of every pair is one cell, and no other step leads to it.
pub proof fn lemma_zigzag_cell(n: int, p: int, t: int, h: int)
    requires
        21 <= n,
        n % 2 == 1,
        0 <= p < (n - 1) / 2,
        0 <= t < n,
        0 <= h < 2,
    ensures
        0 <= pair_row(n, p, t) < n,
        0 <= pair_column(n, p, h) < n,
        pair_column(n, p, h) != 6,
        pair_of(n, pair_column(n, p, h)) == p,
        half_of(pair_column(n, p, h)) == h,
        step_of(n, pair_row(n, p, t), pair_column(n, p, h)) == t,
{
}

fn near(x: usize, centre: usize) -> (hit: bool)
    requires
        x <= 200,
        centre <= 255,
    ensures
        hit == (ring(x - centre, 0) <= 2),
{
    x + 2 >= centre && x <= centre + 2
}

fn ring_of(x: usize, a: usize, y: usize, b: usize) -> (d: usize)
    requires
        x <= 255,
        a <= 255,
        y <= 255,
        b <= 255,
    ensures
        d == ring(x - a, y - b),
{
    let dx: usize = if x >= a {
        x - a
    } else {
        a - x
    };
    let dy: usize = if y >= b {
        y - b
    } else {
        b - y
    };
    if dx > dy {
        dx
    } else {
        dy
    }
}

/// Number of alignment pattern centres of the given version along either axis.
pub fn alignment_count_of(version: Version) -> (count: usize)
    ensures
        count == alignment_count(version.spec_number()),
        count <= 7,
{
    let v: usize = version.number() as usize;
    if v == 1 {
        0
    } else {
        v / 7 + 2
    }
}

fn find_alignment(version: Version, x: usize) -> (hit: Option<usize>)
    requires
        x <= 200,
    ensures
        hit is Some <==> alignment_hit(version.spec_number(), x as int, 0) is Some,
        hit matches Some(i) ==> i == alignment_hit(version.spec_number(), x as int, 0)->0 && i
            < alignment_count(version.spec_number()),
{
    let ghost v = version.spec_number();
    let count: usize = alignment_count_of(version);
    let row: usize = version.number() as usize;
    let mut i: usize = 0;
    while i < count
        invariant
            i <= count == alignment_count(v),
            count <= 7,
            x <= 200,
            row == v == version.spec_number(),
            alignment_hit(v, x as int, 0) == alignment_hit(v, x as int, i as int),
        decreases count - i,
    {
        let centre: usize = ALIGNMENT_CENTRES[row][i] as usize;
        assert(centre == alignment_centre(v, i as int));
        if near(x, centre) {
            assert(alignment_hit(v, x as int, i as int) == Some(i as int));
            return Some(i);
        }
        assert(alignment_hit(v, x as int, i as int) == alignment_hit(v, x as int, i + 1));
        i = i + 1;
    }
    None
}

/// Says what the cell in row `r` and column `c` of a symbol of the given
/// version is for.
pub fn classify(version: Version, r: usize, c: usize) -> (cell: Cell)
    requires
        r < version.spec_size(),
        c < version.spec_size(),
    ensures
        cell == cell_kind(version.spec_number(), r as int, c as int),
{
    let n: usize = version.size();
    let v: usize = version.number() as usize;
    if (r < 8 && c < 8) || (r < 8 && c >= n - 8) || (r >= n - 8 && c < 8) {
        let centre_r: usize = if r < 8 {
            3
        } else {
            n - 4
        };
        let centre_c: usize = if c < 8 {
            3
        } else {
            n - 4
        };
        let d: usize = ring_of(r, centre_r, c, centre_c);
        return Cell::Pattern(d <= 3 && d != 2);
    }
    if r == n - 8 && c == 8 {
        return Cell::Pattern(true);
    }
    if c == 8 && r <= 5 {
        return Cell::Format(r as u8);
    }
    if c == 8 && r == 7 {
        return Cell::Format(6);
    }
    if c == 8 && r == 8 {
        return Cell::Format(7);
    }
    if r == 8 && c == 7 {
        return Cell::Format(8);
    }
    if r == 8 && c <= 5 {
        return Cell::Format((14 - c) as u8);
    }
    if r == 8 && c >= n - 8 {
        return Cell::Format((n - 1 - c) as u8);
    }
    if c == 8 && r >= n - 7 {
        return Cell::Format((r - (n - 15)) as u8);
    }
    if v >= 7 {
        if r < 6 && n - 11 <= c && c <= n - 9 {
            return Cell::VersionInfo((3 * r + (c - (n - 11))) as u8);
        }
        if c < 6 && n - 11 <= r && r <= n - 9 {
            return Cell::VersionInfo((3 * c + (r - (n - 11))) as u8);
        }
    }
    let count: usize = alignment_count_of(version);
    match find_alignment(version, r) {
        Some(i) => {
            match find_alignment(version, c) {
                Some(j) => {
                    let corner: bool = (i == 0 && j == 0) || (i == 0 && j + 1 == count) || (i + 1
                        == count && j == 0);
                    if !corner {
                        let d: usize = ring_of(
                            r,
                            ALIGNMENT_CENTRES[v][i] as usize,
                            c,
                            ALIGNMENT_CENTRES[v][j] as usize,
                        );
                        return Cell::Pattern(d != 1);
                    }
                },
                None => {},
            }
        },
        None => {},
    }
    if r == 6 || c == 6 {
        Cell::Pattern((r + c) % 2 == 0)
    } else {
        Cell::Data
    }
}

} // verus!
