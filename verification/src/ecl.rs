//! Error-correction levels.

use vstd::prelude::*;

verus! {

/// Error correction level of a symbol: the share of codewords that can be
/// restored when the symbol is damaged.
#[derive(Copy, Clone, Debug, PartialEq, Eq, Structural)]
pub enum ECL {
    /// Low, about 7%
    L,
    /// Medium, about 15%
    M,
    /// Quartile, about 25%
    Q,
    /// High, about 30%
    H,
}

impl ECL {
    /// The letter by which a level is known.
    pub open spec fn spec_letter(self) -> char {
        match self {
            ECL::L => 'L',
            ECL::M => 'M',
            ECL::Q => 'Q',
            ECL::H => 'H',
        }
    }

    /// The letter by which this level is known.
    pub fn letter(self) -> (letter: char)
        ensures
            letter == self.spec_letter(),
    {
        match self {
            ECL::L => 'L',
            ECL::M => 'M',
            ECL::Q => 'Q',
            ECL::H => 'H',
        }
    }

    /// The two-bit indicator that the format information carries for a level.
    pub open spec fn spec_format_bits(self) -> int {
        match self {
            ECL::L => 1,
            ECL::M => 0,
            ECL::Q => 3,
            ECL::H => 2,
        }
    }

    /// The two-bit indicator that the format information carries for this level.
    pub fn format_bits(self) -> (bits: u8)
        ensures
            bits == self.spec_format_bits(),
    {
        match self {
            ECL::L => 1,
            ECL::M => 0,
            ECL::Q => 3,
            ECL::H => 2,
        }
    }
}

} // verus!
