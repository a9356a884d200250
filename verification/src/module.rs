//! Modules: the cells of a symbol.

use vstd::prelude::*;

verus! {

/// One cell of a symbol: its colour, and whether it belongs to the fixed
/// patterns and information areas or carries data.
///
/// Masking changes the colour of data modules only.
#[derive(Copy, Clone, Debug, PartialEq, Eq, Structural)]
pub struct Module {
    /// Whether the module is dark.
    pub dark: bool,
    /// Whether the module belongs to a finder, separator, timing or alignment
    /// pattern or to the format or version information.
    pub fixed: bool,
}

impl Module {
    /// A data module of the given colour.
    pub fn data(dark: bool) -> (module: Module)
        ensures
            module == (Module { dark, fixed: false }),
    {
        Module { dark, fixed: false }
    }

    /// A module of the given colour that masking leaves alone.
    pub fn fixed(dark: bool) -> (module: Module)
        ensures
            module == (Module { dark, fixed: true }),
    {
        Module { dark, fixed: true }
    }

    /// Whether the module is dark.
    pub fn value(&self) -> (dark: bool)
        ensures
            dark == self.dark,
    {
        self.dark
    }

    /// Whether the module belongs to the fixed patterns or information areas.
    pub fn is_fixed(&self) -> (fixed: bool)
        ensures
            fixed == self.fixed,
    {
        self.fixed
    }

    /// Whether the module carries data.
    pub fn is_data(&self) -> (data: bool)
        ensures
            data == !self.fixed,
    {
        !self.fixed
    }
}

} // verus!
