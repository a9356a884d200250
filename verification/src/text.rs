//! Symbols as text, for a terminal.

use vstd::prelude::*;
use vstd::string::StringExecFns;
use crate::module::Module;

verus! {

/// Whether the matrix has a dark module in row `r` and column `c`; outside
/// the matrix everything is light.
pub open spec fn dark_at(m: Seq<Seq<Module>>, r: int, c: int) -> bool {
    0 <= r < m.len() && 0 <= c < m[r].len() && m[r][c].dark
}

/// The character that stands for two modules, one above the other. Light is
/// drawn and dark is left out, as on a dark terminal.
pub open spec fn glyph(upper_dark: bool, lower_dark: bool) -> char {
    if upper_dark {
        if lower_dark {
            ' '
        } else {
            '▄'
        }
    } else {
        if lower_dark {
            '▀'
        } else {
            '█'
        }
    }
}

/// The `count` characters for the rows `r` and `r + 1` from column 0 on.
pub open spec fn glyphs(m: Seq<Seq<Module>>, r: int, count: int) -> Seq<char> {
    Seq::new(count as nat, |c: int| glyph(dark_at(m, r, c), dark_at(m, r + 1, c)))
}

/// A line of text for the rows `r` and `r + 1` of a symbol of `n` columns:
/// two characters of margin on either side, and a line feed.
pub open spec fn text_line(m: Seq<Seq<Module>>, n: int, r: int) -> Seq<char> {
    seq!['█', '█'] + glyphs(m, r, n) + seq!['█', '█', '\n']
}

/// The first `lines` lines of text of the symbol, the upper margin
/// included. The upper margin is one line and stands for the two rows above
/// the symbol.
pub open spec fn text_upto(m: Seq<Seq<Module>>, n: int, lines: int) -> Seq<char>
    decreases lines,
{
    if lines <= 0 {
        Seq::empty()
    } else {
        text_upto(m, n, lines - 1) + text_line(m, n, 2 * lines - 4)
    }
}

/// The text of a symbol of `n` rows: a line of margin, a line for every two
/// rows, and a line of margin. Where the number of rows is odd the last row
/// shares its line with the margin.
pub open spec fn text_of(m: Seq<Seq<Module>>, n: int) -> Seq<char> {
    text_upto(m, n, 1 + (n + 1) / 2) + text_line(m, n, -2)
}

/// Whether the grid has a dark module in row `r` and column `c`.
pub fn is_dark(grid: &Vec<Vec<Module>>, r: usize, c: usize) -> (dark: bool)
    ensures
        dark == dark_at(crate::placement::matrix(*grid), r as int, c as int),
{
    r < grid.len() && c < grid[r].len() && grid[r][c].value()
}

fn push_margin_line(text: &mut String, n: usize)
    ensures
        final(text)@ == old(text)@ + text_line(Seq::empty(), n as int, -2),
{
    proof {
        reveal_strlit("██");
        reveal_strlit("██\n");
    }
    let ghost m = Seq::<Seq<Module>>::empty();
    text.append("██");
    let mut c: usize = 0;
    while c < n
        invariant
            c <= n,
            text@ == old(text)@ + seq!['█', '█'] + glyphs(m, -2, c as int),
        decreases n - c,
    {
        proof {
            reveal_strlit("█");
        }
        text.append("█");
        c = c + 1;
        assert(text@ == old(text)@ + seq!['█', '█'] + glyphs(m, -2, c as int));
    }
    text.append("██\n");
    assert(text@ == old(text)@ + text_line(m, n as int, -2));
}

fn push_line(text: &mut String, grid: &Vec<Vec<Module>>, n: usize, r: usize)
    requires
        r < n,
    ensures
        final(text)@ == old(text)@ + text_line(crate::placement::matrix(*grid), n as int, r as int),
{
    proof {
        reveal_strlit("██");
        reveal_strlit("██\n");
    }
    let ghost m = crate::placement::matrix(*grid);
    text.append("██");
    let mut c: usize = 0;
    while c < n
        invariant
            c <= n,
            r < n,
            m == crate::placement::matrix(*grid),
            text@ == old(text)@ + seq!['█', '█'] + glyphs(m, r as int, c as int),
        decreases n - c,
    {
        proof {
            reveal_strlit("█");
            reveal_strlit("▀");
            reveal_strlit("▄");
            reveal_strlit(" ");
        }
        let upper: bool = is_dark(grid, r, c);
        let lower: bool = is_dark(grid, r + 1, c);
        if upper {
            if lower {
                text.append(" ");
            } else {
                text.append("▄");
            }
        } else {
            if lower {
                text.append("▀");
            } else {
                text.append("█");
            }
        }
        c = c + 1;
        assert(text@ == old(text)@ + seq!['█', '█'] + glyphs(m, r as int, c as int));
    }
    text.append("██\n");
    assert(text@ == old(text)@ + text_line(m, n as int, r as int));
}

/// Draws the `n` rows of `grid` as text.
pub fn render(grid: &Vec<Vec<Module>>, n: usize) -> (text: String)
    ensures
        text@ == text_of(crate::placement::matrix(*grid), n as int),
{
    let ghost m = crate::placement::matrix(*grid);
    let mut text = String::new();
    push_margin_line(&mut text, n);
    assert(text_line(m, n as int, -2) =~= text_line(Seq::empty(), n as int, -2));
    assert(text@ == text_upto(m, n as int, 1)) by {
        assert(text_upto(m, n as int, 0) == Seq::<char>::empty());
    }
    let mut r: usize = 0;
    let ghost mut lines: int = 1;
    while r < n
        invariant
            r <= n,
            r % 2 == 0 || r == n,
            m == crate::placement::matrix(*grid),
            r < n ==> lines == 1 + r / 2,
            r == n ==> lines == 1 + (n + 1) / 2,
            text@ == text_upto(m, n as int, lines),
        decreases n - r,
    {
        push_line(&mut text, grid, n, r);
        proof {
            lines = lines + 1;
        }
        if n - r <= 2 {
            r = n;
        } else {
            r = r + 2;
        }
    }
    push_margin_line(&mut text, n);
    text
}

} // verus!
