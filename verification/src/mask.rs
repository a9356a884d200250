//! The eight mask patterns.

use vstd::prelude::*;

verus! {

/// One of the eight patterns that turn data modules over to break up
/// shapes that would mislead a scanner.
#[derive(Copy, Clone, Debug, PartialEq, Eq, Structural)]
pub enum Mask {
    /// Pattern 0: `(row + column) % 2 == 0`
    Checkerboard,
    /// Pattern 1: `row % 2 == 0`
    HorizontalLines,
    /// Pattern 2: `column % 3 == 0`
    VerticalLines,
    /// Pattern 3: `(row + column) % 3 == 0`
    DiagonalLines,
    /// Pattern 4: `(row / 2 + column / 3) % 2 == 0`
    LargeCheckerboard,
    /// Pattern 5: `(row * column) % 2 + (row * column) % 3 == 0`
    Fields,
    /// Pattern 6: `((row * column) % 2 + (row * column) % 3) % 2 == 0`
    Diamonds,
    /// Pattern 7: `((row + column) % 2 + (row * column) % 3) % 2 == 0`
    Meadow,
}

/// The number of a mask pattern, from 0 to 7.
pub open spec fn mask_index(mask: Mask) -> int {
    match mask {
        Mask::Checkerboard => 0,
        Mask::HorizontalLines => 1,
        Mask::VerticalLines => 2,
        Mask::DiagonalLines => 3,
        Mask::LargeCheckerboard => 4,
        Mask::Fields => 5,
        Mask::Diamonds => 6,
        Mask::Meadow => 7,
    }
}

/// The mask pattern with the number `index`; numbers above 7 stand for the
/// last pattern.
pub open spec fn mask_of(index: int) -> Mask {
    if index == 0 {
        Mask::Checkerboard
    } else if index == 1 {
        Mask::HorizontalLines
    } else if index == 2 {
        Mask::VerticalLines
    } else if index == 3 {
        Mask::DiagonalLines
    } else if index == 4 {
        Mask::LargeCheckerboard
    } else if index == 5 {
        Mask::Fields
    } else if index == 6 {
        Mask::Diamonds
    } else {
        Mask::Meadow
    }
}

/// Whether the pattern turns over the data module in row `r` and column `c`.
pub open spec fn mask_hit(mask: Mask, r: int, c: int) -> bool {
    match mask {
        Mask::Checkerboard => (r + c) % 2 == 0,
        Mask::HorizontalLines => r % 2 == 0,
        Mask::VerticalLines => c % 3 == 0,
        Mask::DiagonalLines => (r + c) % 3 == 0,
        Mask::LargeCheckerboard => (r / 2 + c / 3) % 2 == 0,
        Mask::Fields => (r * c) % 2 + (r * c) % 3 == 0,
        Mask::Diamonds => ((r * c) % 2 + (r * c) % 3) % 2 == 0,
        Mask::Meadow => ((r + c) % 2 + (r * c) % 3) % 2 == 0,
    }
}

/// A mask pattern and its number determine each other.
pub proof fn lemma_mask_index(mask: Mask)
    ensures
        0 <= mask_index(mask) <= 7,
        mask_of(mask_index(mask)) == mask,
{
}

impl Mask {
    /// The number of this pattern, from 0 to 7.
    pub fn index(self) -> (index: u8)
        ensures
            index == mask_index(self),
            index <= 7,
    {
        match self {
            Mask::Checkerboard => 0,
            Mask::HorizontalLines => 1,
            Mask::VerticalLines => 2,
            Mask::DiagonalLines => 3,
            Mask::LargeCheckerboard => 4,
            Mask::Fields => 5,
            Mask::Diamonds => 6,
            Mask::Meadow => 7,
        }
    }

    /// The pattern with the given number; numbers above 7 give the last
    /// pattern.
    pub fn from_index(index: u8) -> (mask: Mask)
        ensures
            mask == mask_of(index as int),
            index <= 7 ==> mask_index(mask) == index,
    {
        match index {
            0 => Mask::Checkerboard,
            1 => Mask::HorizontalLines,
            2 => Mask::VerticalLines,
            3 => Mask::DiagonalLines,
            4 => Mask::LargeCheckerboard,
            5 => Mask::Fields,
            6 => Mask::Diamonds,
            _ => Mask::Meadow,
        }
    }

    /// Whether this pattern turns over the data module in row `r` and
    /// column `c`.
    pub fn hits(self, r: usize, c: usize) -> (hit: bool)
        requires
            r <= 0xFFFF,
            c <= 0xFFFF,
        ensures
            hit == mask_hit(self, r as int, c as int),
    {
        assert(r * c <= 0xFFFF * 0xFFFF) by (nonlinear_arith)
            requires
                r <= 0xFFFF,
                c <= 0xFFFF,
        ;
        let product: u64 = (r as u64) * (c as u64);
        match self {
            Mask::Checkerboard => (r + c) % 2 == 0,
            Mask::HorizontalLines => r % 2 == 0,
            Mask::VerticalLines => c % 3 == 0,
            Mask::DiagonalLines => (r + c) % 3 == 0,
            Mask::LargeCheckerboard => (r / 2 + c / 3) % 2 == 0,
            Mask::Fields => product % 2 + product % 3 == 0,
            Mask::Diamonds => (product % 2 + product % 3) % 2 == 0,
            Mask::Meadow => ((r + c) as u64 % 2 + product % 3) % 2 == 0,
        }
    }
}

} // verus!
