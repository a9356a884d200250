//! The matrix builder: lays the fixed patterns, keeps the information areas
//! free, and places the codeword bits into the remaining cells.

use vstd::prelude::*;
use crate::capacity::valid_version;
use crate::info::{bit_at, format_bits, format_word, version_bits, version_word, word_bit};
use crate::ecl::ECL;
use crate::layout::{
    cell_kind,
    classify,
    data_before,
    data_index,
    half_of,
    lemma_zigzag_cell,
    lemma_zigzag_covers,
    pair_column,
    pair_of,
    pair_row,
    side,
    step_of,
    Cell,
};
use crate::mask::{mask_hit, Mask};
use crate::module::Module;
use crate::version::Version;

verus! {

/// Whether `grid` has `n` rows of `n` modules.
pub open spec fn is_square(grid: Vec<Vec<Module>>, n: int) -> bool {
    &&& grid.len() == n
    &&& forall|r: int| 0 <= r < n ==> (#[trigger] grid[r]).len() == n
}

/// The bit at position `k` of `bits`; positions beyond the end hold zero.
pub open spec fn bit_or_zero(bits: Seq<bool>, k: int) -> bool {
    0 <= k < bits.len() && bits[k]
}

/// The module in row `r` and column `c` of a symbol of version `v` after the
/// bits were placed and before a mask is applied. Cells of the information
/// areas are kept free: fixed and light.
pub open spec fn placed_cell(v: int, bits: Seq<bool>, r: int, c: int) -> Module {
    match cell_kind(v, r, c) {
        Cell::Pattern(dark) => Module { dark, fixed: true },
        Cell::Format(_) => Module { dark: false, fixed: true },
        Cell::VersionInfo(_) => Module { dark: false, fixed: true },
        Cell::Data => Module { dark: bit_or_zero(bits, data_index(v, r, c)), fixed: false },
    }
}

/// The module in row `r` and column `c` of a finished symbol, given the
/// module `before` that the cell held after placement: data modules are
/// turned over where the mask hits, the information areas get their bits,
/// and the patterns stay as they are.
pub open spec fn finished_cell(
    v: int,
    level: ECL,
    mask: Mask,
    before: Module,
    r: int,
    c: int,
) -> Module {
    match cell_kind(v, r, c) {
        Cell::Pattern(dark) => Module { dark, fixed: true },
        Cell::Format(i) => Module { dark: word_bit(format_word(level, mask), i as int), fixed: true },
        Cell::VersionInfo(i) => Module { dark: word_bit(version_word(v), i as int), fixed: true },
        Cell::Data => Module { dark: before.dark != mask_hit(mask, r, c), fixed: false },
    }
}

/// The module in row `r` and column `c` of the symbol of version `v` that
/// carries `bits` at `level` under `mask`.
pub open spec fn symbol_cell(
    v: int,
    level: ECL,
    mask: Mask,
    bits: Seq<bool>,
    r: int,
    c: int,
) -> Module {
    finished_cell(v, level, mask, placed_cell(v, bits, r, c), r, c)
}

/// The modules of `grid`, row by row.
pub open spec fn matrix(grid: Vec<Vec<Module>>) -> Seq<Seq<Module>> {
    Seq::new(grid.len() as nat, |r: int| grid[r]@)
}

/// The matrix of version `v` with `bits` placed and no mask applied.
pub open spec fn placed(v: int, bits: Seq<bool>) -> Seq<Seq<Module>> {
    Seq::new(
        side(v) as nat,
        |r: int| Seq::new(side(v) as nat, |c: int| placed_cell(v, bits, r, c)),
    )
}

/// The symbol of version `v` that is made of the matrix `before` by applying
/// `mask` and writing the format and version information.
pub open spec fn finished(before: Seq<Seq<Module>>, v: int, level: ECL, mask: Mask) -> Seq<
    Seq<Module>,
> {
    Seq::new(
        side(v) as nat,
        |r: int|
            Seq::new(
                side(v) as nat,
                |c: int| finished_cell(v, level, mask, before[r][c], r, c),
            ),
    )
}

/// The finished symbol of version `v` that carries `bits` at `level` under
/// `mask`.
pub open spec fn symbol(v: int, level: ECL, mask: Mask, bits: Seq<bool>) -> Seq<Seq<Module>> {
    finished(placed(v, bits), v, level, mask)
}

/// In a finished symbol every cell holds what `symbol_cell` says.
pub proof fn lemma_symbol_cells(v: int, level: ECL, mask: Mask, bits: Seq<bool>)
    requires
        valid_version(v),
    ensures
        symbol(v, level, mask, bits).len() == side(v),
        forall|r: int|
            0 <= r < side(v) ==> (#[trigger] symbol(v, level, mask, bits)[r]).len() == side(v),
        forall|r: int, c: int|
            0 <= r < side(v) && 0 <= c < side(v) ==> #[trigger] symbol(v, level, mask, bits)[r][c]
                == symbol_cell(v, level, mask, bits, r, c),
{
}

/// Whether the filling has passed the cell in row `r` and column `c` when it
/// comes to half `h` of step `t` in the pair `p`.
pub open spec fn passed(n: int, r: int, c: int, p: int, t: int, h: int) -> bool {
    let cell_pair = pair_of(n, c);
    let cell_step = step_of(n, r, c);
    cell_pair < p || (cell_pair == p && (cell_step < t || (cell_step == t && half_of(c) < h)))
}

/// Sets one module of the grid and leaves the others as they are.
pub fn set_module(grid: &mut Vec<Vec<Module>>, r: usize, c: usize, module: Module)
    requires
        r < old(grid).len(),
        c < old(grid)[r as int].len(),
    ensures
        final(grid).len() == old(grid).len(),
        forall|i: int| 0 <= i < old(grid).len() ==> (#[trigger] final(grid)[i]).len() == old(grid)[i].len(),
        forall|i: int, j: int|
            0 <= i < old(grid).len() && 0 <= j < old(grid)[i].len() ==> #[trigger] final(grid)[i][j] == if i == r && j == c {
                module
            } else {
                old(grid)[i][j]
            },
{
    grid[r][c] = module;
}

/// Builds the matrix of the given version with the patterns in place, the
/// information areas kept free and every data module light.
pub fn blank(version: Version) -> (grid: Vec<Vec<Module>>)
    ensures
        is_square(grid, version.spec_size()),
        matrix(grid) == placed(version.spec_number(), Seq::empty()),
{
    let ghost v = version.spec_number();
    let n: usize = version.size();
    let mut grid: Vec<Vec<Module>> = Vec::with_capacity(n);
    let mut r: usize = 0;
    while r < n
        invariant
            r <= n == side(v),
            v == version.spec_number(),
            grid.len() == r,
            forall|i: int| 0 <= i < r ==> (#[trigger] grid[i]).len() == n,
            forall|i: int, j: int|
                0 <= i < r && 0 <= j < n ==> #[trigger] grid[i][j] == placed_cell(
                    v,
                    Seq::empty(),
                    i,
                    j,
                ),
        decreases n - r,
    {
        let mut row: Vec<Module> = Vec::with_capacity(n);
        let mut c: usize = 0;
        while c < n
            invariant
                c <= n == side(v),
                r < n,
                v == version.spec_number(),
                row.len() == c,
                forall|j: int|
                    0 <= j < c ==> #[trigger] row[j] == placed_cell(v, Seq::empty(), r as int, j),
            decreases n - c,
        {
            let module: Module = match classify(version, r, c) {
                Cell::Pattern(dark) => Module::fixed(dark),
                Cell::Format(_) => Module::fixed(false),
                Cell::VersionInfo(_) => Module::fixed(false),
                Cell::Data => Module::data(false),
            };
            row.push(module);
            c = c + 1;
        }
        grid.push(row);
        r = r + 1;
    }
    assert(matrix(grid) =~~= placed(v, Seq::empty()));
    grid
}

/// Places `bits` into the data cells of a symbol of the given version. The
/// filling starts at the bottom right corner and runs through pairs of
/// columns, upwards and downwards in turn, passing over the column of the
/// vertical timing pattern and over every cell that is not a data cell. Data
/// cells that are left when the bits have run out stay light.
pub fn place(version: Version, bits: &Vec<bool>) -> (grid: Vec<Vec<Module>>)
    ensures
        is_square(grid, version.spec_size()),
        matrix(grid) == placed(version.spec_number(), bits@),
{
    let ghost v = version.spec_number();
    let n: usize = version.size();
    let pairs: usize = (n - 1) / 2;
    let mut grid = blank(version);
    let mut count: usize = 0;
    let mut p: usize = 0;
    assert forall|i: int, j: int| 0 <= i < n && 0 <= j < n implies #[trigger] grid[i][j]
        == placed_cell(v, Seq::empty(), i, j) by {
        assert(grid[i][j] == matrix(grid)[i][j]);
    }
    while p < pairs
        invariant
            p <= pairs == (n - 1) / 2,
            21 <= n <= 177,
            n == side(v),
            v == version.spec_number(),
            is_square(grid, n as int),
            count == data_before(v, p as int, 0, 0),
            count <= 400 * p,
            forall|i: int, j: int|
                0 <= i < n && 0 <= j < n ==> #[trigger] grid[i][j] == if j != 6 && passed(
                    n as int,
                    i,
                    j,
                    p as int,
                    0,
                    0,
                ) {
                    placed_cell(v, bits@, i, j)
                } else {
                    placed_cell(v, Seq::empty(), i, j)
                },
        decreases pairs - p,
    {
        let right: usize = if n - 1 - 2 * p > 6 {
            n - 1 - 2 * p
        } else {
            n - 2 - 2 * p
        };
        let mut t: usize = 0;
        while t < n
            invariant
                t <= n,
                p < pairs == (n - 1) / 2,
                21 <= n <= 177,
                n == side(v),
                v == version.spec_number(),
                right == pair_column(n as int, p as int, 0),
                is_square(grid, n as int),
                count == data_before(v, p as int, t as int, 0),
                count <= 400 * p + 2 * t,
                forall|i: int, j: int|
                    0 <= i < n && 0 <= j < n ==> #[trigger] grid[i][j] == if j != 6 && passed(
                        n as int,
                        i,
                        j,
                        p as int,
                        t as int,
                        0,
                    ) {
                        placed_cell(v, bits@, i, j)
                    } else {
                        placed_cell(v, Seq::empty(), i, j)
                    },
            decreases n - t,
        {
            let r: usize = if p % 2 == 0 {
                n - 1 - t
            } else {
                t
            };
            let mut h: usize = 0;
            while h < 2
                invariant
                    h <= 2,
                    t < n,
                    p < pairs == (n - 1) / 2,
                    21 <= n <= 177,
                    n == side(v),
                    v == version.spec_number(),
                    right == pair_column(n as int, p as int, 0),
                    r == pair_row(n as int, p as int, t as int),
                    is_square(grid, n as int),
                    count == data_before(v, p as int, t as int, h as int),
                    count <= 400 * p + 2 * t + h,
                    forall|i: int, j: int|
                        0 <= i < n && 0 <= j < n ==> #[trigger] grid[i][j] == if j != 6 && passed(
                            n as int,
                            i,
                            j,
                            p as int,
                            t as int,
                            h as int,
                        ) {
                            placed_cell(v, bits@, i, j)
                        } else {
                            placed_cell(v, Seq::empty(), i, j)
                        },
                decreases 2 - h,
            {
                proof {
                    lemma_zigzag_cell(n as int, p as int, t as int, h as int);
                }
                let c: usize = right - h;
                let ghost before = grid;
                assert(grid[r as int][c as int] == placed_cell(v, Seq::empty(), r as int, c as int));
                if grid[r][c].is_data() {
                    if count < bits.len() {
                        set_module(&mut grid, r, c, Module::data(bits[count]));
                    }
                    assert(grid[r as int][c as int] == placed_cell(v, bits@, r as int, c as int));
                    count = count + 1;
                }
                assert forall|i: int, j: int| 0 <= i < n && 0 <= j < n implies #[trigger] grid[i][j]
                    == if j != 6 && passed(n as int, i, j, p as int, t as int, h + 1) {
                    placed_cell(v, bits@, i, j)
                } else {
                    placed_cell(v, Seq::empty(), i, j)
                } by {
                    if j != 6 {
                        lemma_zigzag_covers(n as int, i, j);
                    }
                    if i == r && j == c {
                    } else {
                        assert(grid[i][j] == before[i][j]);
                    }
                }
                h = h + 1;
            }
            t = t + 1;
        }
        proof {
            assert forall|i: int, j: int| 0 <= i < n && 0 <= j < n implies #[trigger] grid[i][j]
                == if j != 6 && passed(n as int, i, j, p + 1, 0, 0) {
                placed_cell(v, bits@, i, j)
            } else {
                placed_cell(v, Seq::empty(), i, j)
            } by {
                if j != 6 {
                    lemma_zigzag_covers(n as int, i, j);
                }
            }
        }
        p = p + 1;
    }
    proof {
        assert forall|i: int, j: int| 0 <= i < n && 0 <= j < n implies #[trigger] grid[i][j]
            == placed_cell(v, bits@, i, j) by {
            if j != 6 {
                lemma_zigzag_covers(n as int, i, j);
            }
        }
        assert(matrix(grid) =~~= placed(v, bits@));
    }
    grid
}

/// Finishes a symbol: turns over the data modules that the mask hits and
/// writes the format information and, from version 7 on, the version
/// information into their areas.
pub fn finish(grid: &Vec<Vec<Module>>, version: Version, level: ECL, mask: Mask) -> (done: Vec<
    Vec<Module>,
>)
    requires
        is_square(*grid, version.spec_size()),
    ensures
        is_square(done, version.spec_size()),
        matrix(done) == finished(matrix(*grid), version.spec_number(), level, mask),
{
    let ghost v = version.spec_number();
    let n: usize = version.size();
    let format: u32 = format_bits(level, mask);
    let info: u32 = version_bits(version);
    let mut done: Vec<Vec<Module>> = Vec::with_capacity(n);
    let mut r: usize = 0;
    while r < n
        invariant
            r <= n == side(v),
            n <= 177,
            v == version.spec_number(),
            is_square(*grid, n as int),
            format == format_word(level, mask),
            info == version_word(v),
            done.len() == r,
            forall|i: int| 0 <= i < r ==> (#[trigger] done[i]).len() == n,
            forall|i: int, j: int|
                0 <= i < r && 0 <= j < n ==> #[trigger] done[i][j] == finished_cell(
                    v,
                    level,
                    mask,
                    grid[i][j],
                    i,
                    j,
                ),
        decreases n - r,
    {
        let mut row: Vec<Module> = Vec::with_capacity(n);
        let mut c: usize = 0;
        while c < n
            invariant
                c <= n == side(v),
                n <= 177,
                r < n,
                v == version.spec_number(),
                is_square(*grid, n as int),
                format == format_word(level, mask),
                info == version_word(v),
                row.len() == c,
                forall|j: int|
                    0 <= j < c ==> #[trigger] row[j] == finished_cell(
                        v,
                        level,
                        mask,
                        grid[r as int][j],
                        r as int,
                        j,
                    ),
            decreases n - c,
        {
            let module: Module = match classify(version, r, c) {
                Cell::Pattern(dark) => Module::fixed(dark),
                Cell::Format(i) => Module::fixed(bit_at(format, i)),
                Cell::VersionInfo(i) => Module::fixed(bit_at(info, i)),
                Cell::Data => Module::data(grid[r][c].value() != mask.hits(r, c)),
            };
            row.push(module);
            c = c + 1;
        }
        done.push(row);
        r = r + 1;
    }
    assert(matrix(done) =~~= finished(matrix(*grid), v, level, mask));
    done
}

} // verus!
