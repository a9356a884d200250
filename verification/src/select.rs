//! The mask selector: tries the eight masks on a matrix and keeps the one
//! whose symbol scores lowest.

use vstd::prelude::*;
use crate::ecl::ECL;
use crate::mask::{lemma_mask_index, mask_index, mask_of, Mask};
use crate::module::Module;
use crate::placement::{finish, finished, is_square, matrix};
use crate::score::{penalty, score};
use crate::version::Version;

verus! {

/// Score of the symbol that `mask` makes of the matrix `before`.
pub open spec fn candidate_penalty(before: Seq<Seq<Module>>, v: int, level: ECL, mask: Mask) -> int {
    penalty(finished(before, v, level, mask))
}

/// Number of the best mask among those numbered 0 to `k`: the one of lowest
/// score, and among several of that score the one of lowest number.
pub open spec fn best_upto(before: Seq<Seq<Module>>, v: int, level: ECL, k: int) -> int
    decreases k,
{
    if k <= 0 {
        0
    } else {
        let best = best_upto(before, v, level, k - 1);
        if candidate_penalty(before, v, level, mask_of(k)) < candidate_penalty(
            before,
            v,
            level,
            mask_of(best),
        ) {
            k
        } else {
            best
        }
    }
}

/// The best of the eight masks for the matrix `before`.
pub open spec fn best_mask(before: Seq<Seq<Module>>, v: int, level: ECL) -> Mask {
    mask_of(best_upto(before, v, level, 7))
}

/// The mask that a symbol gets: the forced one if there is one, else the best.
pub open spec fn chosen_mask(
    before: Seq<Seq<Module>>,
    v: int,
    level: ECL,
    forced: Option<Mask>,
) -> Mask {
    match forced {
        Some(mask) => mask,
        None => best_mask(before, v, level),
    }
}

/// Whether no mask scores lower than `mask` and none of a lower number
/// scores the same.
pub open spec fn is_least(before: Seq<Seq<Module>>, v: int, level: ECL, mask: Mask) -> bool {
    forall|other: Mask|
        {
            let mine = candidate_penalty(before, v, level, mask);
            let theirs = #[trigger] candidate_penalty(before, v, level, other);
            mine <= theirs && (mask_index(other) < mask_index(mask) ==> mine < theirs)
        }
}

proof fn lemma_best_upto(before: Seq<Seq<Module>>, v: int, level: ECL, k: int)
    requires
        0 <= k <= 7,
    ensures
        0 <= best_upto(before, v, level, k) <= k,
        forall|j: int|
            0 <= j <= k ==> candidate_penalty(before, v, level, mask_of(best_upto(before, v, level, k)))
                <= #[trigger] candidate_penalty(before, v, level, mask_of(j)),
        forall|j: int|
            0 <= j < best_upto(before, v, level, k) ==> candidate_penalty(
                before,
                v,
                level,
                mask_of(best_upto(before, v, level, k)),
            ) < #[trigger] candidate_penalty(before, v, level, mask_of(j)),
    decreases k,
{
    if k > 0 {
        lemma_best_upto(before, v, level, k - 1);
    }
}

/// The best mask scores lowest, and every mask of a lower number scores
/// higher.
pub proof fn lemma_best_is_least(before: Seq<Seq<Module>>, v: int, level: ECL)
    ensures
        is_least(before, v, level, best_mask(before, v, level)),
{
    lemma_best_upto(before, v, level, 7);
    let best = best_mask(before, v, level);
    assert forall|other: Mask|
        {
            let mine = candidate_penalty(before, v, level, best);
            let theirs = #[trigger] candidate_penalty(before, v, level, other);
            mine <= theirs && (mask_index(other) < mask_index(best) ==> mine < theirs)
        } by {
        lemma_mask_index(other);
        assert(mask_of(mask_index(other)) == other);
    }
}

/// Whatever the order in which the eight masks are tried, and whether one
/// after another or side by side: a mask that scores lowest, and lower than
/// all masks of lower numbers, is the best mask. So the choice depends on the
/// matrix alone.
pub proof fn lemma_least_is_best(before: Seq<Seq<Module>>, v: int, level: ECL, mask: Mask)
    requires
        is_least(before, v, level, mask),
    ensures
        mask == best_mask(before, v, level),
{
    lemma_best_is_least(before, v, level);
    let best = best_mask(before, v, level);
    let mine = candidate_penalty(before, v, level, mask);
    let theirs = candidate_penalty(before, v, level, best);
    lemma_mask_index(mask);
    lemma_mask_index(best);
    assert(mine <= theirs && theirs <= mine);
    if mask_index(mask) < mask_index(best) {
        assert(theirs < mine);
    }
    if mask_index(best) < mask_index(mask) {
        assert(mine < theirs);
    }
}

/// Applies the forced mask, or else tries all eight masks and keeps the one
/// of lowest score; among masks of one score the one of lowest number wins.
/// Returns the mask and the finished symbol.
pub fn select_mask(
    grid: &Vec<Vec<Module>>,
    version: Version,
    level: ECL,
    forced: Option<Mask>,
) -> (chosen: (Mask, Vec<Vec<Module>>))
    requires
        is_square(*grid, version.spec_size()),
    ensures
        chosen.0 == chosen_mask(matrix(*grid), version.spec_number(), level, forced),
        is_square(chosen.1, version.spec_size()),
        matrix(chosen.1) == finished(matrix(*grid), version.spec_number(), level, chosen.0),
{
    let ghost v = version.spec_number();
    let ghost before = matrix(*grid);
    match forced {
        Some(mask) => {
            let done = finish(grid, version, level, mask);
            return (mask, done);
        },
        None => {},
    }
    let mut best: u8 = 0;
    let mut best_grid = finish(grid, version, level, Mask::from_index(0));
    let mut best_score: usize = score(&best_grid);
    let mut k: u8 = 1;
    while k < 8
        invariant
            1 <= k <= 8,
            v == version.spec_number(),
            before == matrix(*grid),
            is_square(*grid, version.spec_size()),
            is_square(best_grid, version.spec_size()),
            best == best_upto(before, v, level, k - 1),
            best < k,
            best_score == candidate_penalty(before, v, level, mask_of(best as int)),
            matrix(best_grid) == finished(before, v, level, mask_of(best as int)),
        decreases 8 - k,
    {
        let candidate = finish(grid, version, level, Mask::from_index(k));
        let candidate_score: usize = score(&candidate);
        if candidate_score < best_score {
            best = k;
            best_grid = candidate;
            best_score = candidate_score;
        }
        k = k + 1;
    }
    (Mask::from_index(best), best_grid)
}

} // verus!
