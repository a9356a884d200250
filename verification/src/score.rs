//! The mask evaluator: four rules that say how hard a symbol is to scan.
//!
//! The rules look at colours only. Lower scores are better.

use vstd::prelude::*;
use crate::module::Module;
use crate::placement::is_square;
use crate::placement::matrix;

verus! {

/// Length of the run of modules of one colour that ends at position `i`.
pub open spec fn run_ending(line: Seq<bool>, i: int) -> int
    decreases i,
{
    if i <= 0 {
        1
    } else if line[i] == line[i - 1] {
        run_ending(line, i - 1) + 1
    } else {
        1
    }
}

/// What a module adds to the score of its line when it brings a run to the
/// length `len`: a run of five scores 3, and every module beyond scores 1.
pub open spec fn run_term(len: int) -> int {
    if len == 5 {
        3
    } else if len > 5 {
        1
    } else {
        0
    }
}

/// Score of the runs of five or more modules of one colour among the first
/// `upto` modules of a line.
pub open spec fn runs_penalty(line: Seq<bool>, upto: int) -> int
    decreases upto,
{
    if upto <= 0 {
        0
    } else {
        runs_penalty(line, upto - 1) + run_term(run_ending(line, upto - 1))
    }
}

/// Whether the eleven modules from position `i` on look like a cut through a
/// finder pattern: dark, light, three dark, light, dark, with four light
/// modules before or after.
pub open spec fn finder_like(line: Seq<bool>, i: int) -> bool {
    ||| (line[i] && !line[i + 1] && line[i + 2] && line[i + 3] && line[i + 4] && !line[i + 5]
        && line[i + 6] && !line[i + 7] && !line[i + 8] && !line[i + 9] && !line[i + 10])
    ||| (!line[i] && !line[i + 1] && !line[i + 2] && !line[i + 3] && line[i + 4] && !line[i
        + 5] && line[i + 6] && line[i + 7] && line[i + 8] && !line[i + 9] && line[i + 10])
}

/// Score of the finder-like stretches that begin among the first `upto`
/// positions of a line: 40 for each.
pub open spec fn finders_penalty(line: Seq<bool>, upto: int) -> int
    decreases upto,
{
    if upto <= 0 {
        0
    } else {
        finders_penalty(line, upto - 1) + if finder_like(line, upto - 1) {
            40int
        } else {
            0int
        }
    }
}

/// Score of one row or column.
pub open spec fn line_penalty(line: Seq<bool>) -> int {
    runs_penalty(line, line.len() as int) + finders_penalty(line, line.len() - 10)
}

/// The colours of row `r`.
pub open spec fn row_line(m: Seq<Seq<Module>>, r: int) -> Seq<bool> {
    Seq::new(m.len(), |c: int| m[r][c].dark)
}

/// The colours of column `c`.
pub open spec fn column_line(m: Seq<Seq<Module>>, c: int) -> Seq<bool> {
    Seq::new(m.len(), |r: int| m[r][c].dark)
}

/// Score of the first `upto` rows and the first `upto` columns.
pub open spec fn lines_penalty(m: Seq<Seq<Module>>, upto: int) -> int
    decreases upto,
{
    if upto <= 0 {
        0
    } else {
        lines_penalty(m, upto - 1) + line_penalty(row_line(m, upto - 1)) + line_penalty(
            column_line(m, upto - 1),
        )
    }
}

/// Whether the four modules of the square with its top left corner in row
/// `r` and column `c` have one colour.
pub open spec fn is_block(m: Seq<Seq<Module>>, r: int, c: int) -> bool {
    let dark = m[r][c].dark;
    m[r][c + 1].dark == dark && m[r + 1][c].dark == dark && m[r + 1][c + 1].dark == dark
}

/// Score of the squares of one colour with their top left corner among the
/// first `upto` modules of row `r`: 3 for each.
pub open spec fn blocks_in_row(m: Seq<Seq<Module>>, r: int, upto: int) -> int
    decreases upto,
{
    if upto <= 0 {
        0
    } else {
        blocks_in_row(m, r, upto - 1) + if is_block(m, r, upto - 1) {
            3int
        } else {
            0int
        }
    }
}

/// Score of the squares of one colour with their top left corner in the
/// first `upto` rows.
pub open spec fn blocks_penalty(m: Seq<Seq<Module>>, upto: int) -> int
    decreases upto,
{
    if upto <= 0 {
        0
    } else {
        blocks_penalty(m, upto - 1) + blocks_in_row(m, upto - 1, m.len() - 1)
    }
}

/// Number of dark modules among the first `upto` of row `r`.
pub open spec fn dark_in_row(m: Seq<Seq<Module>>, r: int, upto: int) -> int
    decreases upto,
{
    if upto <= 0 {
        0
    } else {
        dark_in_row(m, r, upto - 1) + if m[r][upto - 1].dark {
            1int
        } else {
            0int
        }
    }
}

/// Number of dark modules in the first `upto` rows.
pub open spec fn dark_count(m: Seq<Seq<Module>>, upto: int) -> int
    decreases upto,
{
    if upto <= 0 {
        0
    } else {
        dark_count(m, upto - 1) + dark_in_row(m, upto - 1, m.len() as int)
    }
}

/// Score of the balance of colours: 10 for every step of five hundredths by
/// which the share of dark modules lies beyond 45 or 55 hundredths.
pub open spec fn balance_penalty(dark: int, total: int) -> int {
    let excess = if 20 * dark >= 10 * total {
        20 * dark - 10 * total
    } else {
        10 * total - 20 * dark
    };
    if total <= 0 || excess == 0 {
        0
    } else {
        10 * ((excess - 1) / total)
    }
}

/// The score of a square matrix under all four rules.
pub open spec fn penalty(m: Seq<Seq<Module>>) -> int {
    let n = m.len() as int;
    lines_penalty(m, n) + blocks_penalty(m, n - 1) + balance_penalty(dark_count(m, n), n * n)
}

/// Scores one row or column.
pub fn score_line(line: &Vec<bool>) -> (score: usize)
    requires
        line.len() <= 0xFFFF,
    ensures
        score == line_penalty(line@),
        score <= 43 * line.len(),
{
    let n: usize = line.len();
    let mut score: usize = 0;
    let mut run: usize = 0;
    let mut i: usize = 0;
    while i < n
        invariant
            i <= n == line.len() <= 0xFFFF,
            score == runs_penalty(line@, i as int),
            score <= 3 * i,
            run <= i,
            i > 0 ==> run == run_ending(line@, i - 1),
        decreases n - i,
    {
        if i > 0 && line[i] == line[i - 1] {
            run = run + 1;
        } else {
            run = 1;
        }
        assert(run == run_ending(line@, i as int));
        if run == 5 {
            score = score + 3;
        } else if run > 5 {
            score = score + 1;
        }
        i = i + 1;
    }
    let ghost runs = score;
    let mut k: usize = 0;
    while k + 10 < n
        invariant
            n == line.len() <= 0xFFFF,
            k + 10 <= n || k == 0,
            runs <= 3 * n,
            score == runs + finders_penalty(line@, k as int),
            score <= 3 * n + 40 * k,
        decreases n - k,
    {
        let head: bool = line[k] && !line[k + 1] && line[k + 2] && line[k + 3] && line[k + 4]
            && !line[k + 5] && line[k + 6] && !line[k + 7] && !line[k + 8] && !line[k + 9]
            && !line[k + 10];
        let tail: bool = !line[k] && !line[k + 1] && !line[k + 2] && !line[k + 3] && line[k + 4]
            && !line[k + 5] && line[k + 6] && line[k + 7] && line[k + 8] && !line[k + 9] && line[k
            + 10];
        if head || tail {
            score = score + 40;
        }
        k = k + 1;
    }
    score
}

fn row_colours(grid: &Vec<Vec<Module>>, r: usize) -> (line: Vec<bool>)
    requires
        is_square(*grid, grid.len() as int),
        r < grid.len(),
    ensures
        line@ == row_line(matrix(*grid), r as int),
{
    let n: usize = grid.len();
    let mut line: Vec<bool> = Vec::with_capacity(n);
    let mut c: usize = 0;
    while c < n
        invariant
            c <= n == grid.len(),
            r < n,
            is_square(*grid, n as int),
            line.len() == c,
            forall|j: int| 0 <= j < c ==> line[j] == grid[r as int][j].dark,
        decreases n - c,
    {
        line.push(grid[r][c].value());
        c = c + 1;
    }
    assert(line@ =~= row_line(matrix(*grid), r as int));
    line
}

fn column_colours(grid: &Vec<Vec<Module>>, c: usize) -> (line: Vec<bool>)
    requires
        is_square(*grid, grid.len() as int),
        c < grid.len(),
    ensures
        line@ == column_line(matrix(*grid), c as int),
{
    let n: usize = grid.len();
    let mut line: Vec<bool> = Vec::with_capacity(n);
    let mut r: usize = 0;
    while r < n
        invariant
            r <= n == grid.len(),
            c < n,
            is_square(*grid, n as int),
            line.len() == r,
            forall|i: int| 0 <= i < r ==> line[i] == grid[i][c as int].dark,
        decreases n - r,
    {
        line.push(grid[r][c].value());
        r = r + 1;
    }
    assert(line@ =~= column_line(matrix(*grid), c as int));
    line
}

fn score_lines(grid: &Vec<Vec<Module>>) -> (score: usize)
    requires
        is_square(*grid, grid.len() as int),
        grid.len() <= 177,
    ensures
        score == lines_penalty(matrix(*grid), grid.len() as int),
        score <= 16000 * grid.len(),
{
    let n: usize = grid.len();
    let mut score: usize = 0;
    let mut k: usize = 0;
    while k < n
        invariant
            k <= n == grid.len() <= 177,
            is_square(*grid, n as int),
            score == lines_penalty(matrix(*grid), k as int),
            score <= 16000 * k,
        decreases n - k,
    {
        let row = row_colours(grid, k);
        let column = column_colours(grid, k);
        score = score + score_line(&row) + score_line(&column);
        k = k + 1;
    }
    score
}

fn score_blocks(grid: &Vec<Vec<Module>>) -> (score: usize)
    requires
        is_square(*grid, grid.len() as int),
        grid.len() <= 177,
    ensures
        score == blocks_penalty(matrix(*grid), grid.len() - 1),
        score <= 600 * grid.len(),
{
    let n: usize = grid.len();
    let mut score: usize = 0;
    let mut r: usize = 0;
    while r + 1 < n
        invariant
            r + 1 <= n || r == 0,
            n == grid.len() <= 177,
            is_square(*grid, n as int),
            score == blocks_penalty(matrix(*grid), r as int),
            score <= 600 * r,
        decreases n - r,
    {
        let ghost base = score;
        let mut c: usize = 0;
        while c + 1 < n
            invariant
                c + 1 <= n,
                r + 1 < n,
                n == grid.len() <= 177,
                is_square(*grid, n as int),
                base <= 600 * r,
                score == base + blocks_in_row(matrix(*grid), r as int, c as int),
                score <= base + 3 * c,
            decreases n - c,
        {
            let dark: bool = grid[r][c].value();
            if grid[r][c + 1].value() == dark && grid[r + 1][c].value() == dark && grid[r + 1][c
                + 1].value() == dark {
                score = score + 3;
            }
            c = c + 1;
        }
        r = r + 1;
    }
    score
}

fn count_dark(grid: &Vec<Vec<Module>>) -> (dark: usize)
    requires
        is_square(*grid, grid.len() as int),
        grid.len() <= 177,
    ensures
        dark == dark_count(matrix(*grid), grid.len() as int),
        dark <= 177 * grid.len(),
{
    let n: usize = grid.len();
    let mut dark: usize = 0;
    let mut r: usize = 0;
    while r < n
        invariant
            r <= n == grid.len() <= 177,
            is_square(*grid, n as int),
            dark == dark_count(matrix(*grid), r as int),
            dark <= 177 * r,
        decreases n - r,
    {
        let ghost base = dark;
        let mut c: usize = 0;
        while c < n
            invariant
                c <= n == grid.len() <= 177,
                r < n,
                is_square(*grid, n as int),
                base <= 177 * r,
                dark == base + dark_in_row(matrix(*grid), r as int, c as int),
                dark <= base + c,
            decreases n - c,
        {
            if grid[r][c].value() {
                dark = dark + 1;
            }
            c = c + 1;
        }
        r = r + 1;
    }
    dark
}

/// Scores the balance of colours of a matrix with `dark` dark modules among
/// `total`.
pub fn score_balance(dark: usize, total: usize) -> (score: usize)
    requires
        dark <= total <= 0xFFFF,
    ensures
        score == balance_penalty(dark as int, total as int),
        score <= 100,
{
    let excess: usize = if 20 * dark >= 10 * total {
        20 * dark - 10 * total
    } else {
        10 * total - 20 * dark
    };
    if total == 0 || excess == 0 {
        0
    } else {
        assert((excess - 1) / (total as int) <= 10) by (nonlinear_arith)
            requires
                0 <= excess - 1 < 10 * total,
                total > 0,
        ;
        10 * ((excess - 1) / total)
    }
}

/// Scores a square matrix under all four rules.
pub fn score(grid: &Vec<Vec<Module>>) -> (total: usize)
    requires
        is_square(*grid, grid.len() as int),
        grid.len() <= 177,
    ensures
        total == penalty(matrix(*grid)),
{
    let n: usize = grid.len();
    assert(n * n <= 177 * 177) by (nonlinear_arith)
        requires
            n <= 177,
    ;
    let dark: usize = count_dark(grid);
    assert(dark <= n * n) by {
        lemma_dark_bound(matrix(*grid), n as int);
    }
    score_lines(grid) + score_blocks(grid) + score_balance(dark, n * n)
}

proof fn lemma_dark_row_bound(m: Seq<Seq<Module>>, r: int, upto: int)
    ensures
        0 <= dark_in_row(m, r, upto),
        upto >= 0 ==> dark_in_row(m, r, upto) <= upto,
    decreases upto,
{
    if upto > 0 {
        lemma_dark_row_bound(m, r, upto - 1);
    }
}

proof fn lemma_dark_bound(m: Seq<Seq<Module>>, upto: int)
    ensures
        0 <= dark_count(m, upto),
        upto >= 0 ==> dark_count(m, upto) <= upto * m.len(),
    decreases upto,
{
    if upto > 0 {
        lemma_dark_bound(m, upto - 1);
        lemma_dark_row_bound(m, upto - 1, m.len() as int);
        assert((upto - 1) * m.len() + m.len() == upto * m.len()) by (nonlinear_arith);
    } else {
        assert(0 * m.len() == 0);
    }
}

} // verus!
