//! The entry point: `QRBuilder` takes the input and the choices of the
//! caller, and `QRCode` is the finished symbol.

use vstd::prelude::*;
use vstd::std_specs::convert::IntoSpec;
use crate::area::{lemma_data_area, lemma_symbol_data_modules, tagged_data};
use crate::bits::{unpack, unpack_bits};
use crate::capacity::{lemma_table_bounds, remainder_bits, total_codewords, valid_version};
use crate::ecc::{add_error_correction, final_codewords, lemma_final_len};
use crate::ecl::ECL;
use crate::encode::{encode, encoded_codewords, lemma_encoded_len};
use crate::layout::{data_cell_count, side};
use crate::mask::Mask;
use crate::mode::{
    best_encoding,
    best_mode,
    first_fit,
    fits,
    has_room,
    lemma_first_fit,
    lemma_room_grows,
    mode_accepts,
    too_large,
    Mode,
};
use crate::module::Module;
use crate::placement::{finished, is_square, matrix, place, placed};
use crate::select::{chosen_mask, select_mask};
use crate::text::{render, text_of};
use crate::version::Version;

verus! {

/// A finished symbol: its modules and what was chosen for it.
#[derive(Clone, Debug)]
pub struct QRCode {
    /// The modules, row by row: `size` rows of `size` modules.
    pub data: Vec<Vec<Module>>,
    /// Width and height of the symbol in modules: `4 * version + 17`.
    pub size: usize,
    /// The version of the symbol.
    pub version: Option<Version>,
    /// The error-correction level of the symbol.
    pub ecl: Option<ECL>,
    /// The mask that was applied to the data modules.
    pub mask: Option<Mask>,
    /// The mode in which the input was encoded.
    pub mode: Option<Mode>,
}

/// Why a symbol could not be made.
#[derive(Copy, Clone, Debug, PartialEq, Eq, Structural)]
pub enum QRCodeError {
    /// The input is too large for any version at the level asked for.
    EncodedData,
    /// The version asked for is too small for the input.
    SpecifiedVersion,
}

impl QRCodeError {
    /// A sentence that says what went wrong.
    pub fn message(&self) -> (text: &'static str)
        ensures
            text@ == match *self {
                QRCodeError::EncodedData => "Data too big to be encoded"@,
                QRCodeError::SpecifiedVersion => "Specified version too low to contain data"@,
            },
    {
        match self {
            QRCodeError::EncodedData => "Data too big to be encoded",
            QRCodeError::SpecifiedVersion => "Specified version too low to contain data",
        }
    }
}

/// A matrix of `size` rows of `size` light data modules.
pub open spec fn light_matrix(size: int) -> Seq<Seq<Module>> {
    Seq::new(
        size as nat,
        |r: int| Seq::new(size as nat, |c: int| Module { dark: false, fixed: false }),
    )
}

/// The level of a symbol: the one asked for, or else the quartile level.
pub open spec fn build_level(ecl: Option<ECL>) -> ECL {
    match ecl {
        Some(level) => level,
        None => ECL::Q,
    }
}

/// Why no symbol can be made of `input`, if none can. Where a version is
/// asked for, that version alone decides: it has room for the input, or it
/// is too small. Where none is asked for, the input is too large only if no
/// version has room for it.
pub open spec fn build_error(input: Seq<u8>, ecl: Option<ECL>, version: Option<Version>) -> Option<
    QRCodeError,
> {
    let mode = best_mode(input);
    let level = build_level(ecl);
    match version {
        Some(forced) => if fits(mode, level, input.len() as int, forced.spec_number()) {
            None
        } else {
            Some(QRCodeError::SpecifiedVersion)
        },
        None => if too_large(mode, level, input.len() as int) {
            Some(QRCodeError::EncodedData)
        } else {
            None
        },
    }
}

/// The number of the version of the symbol: the one asked for, or else the
/// smallest with room for the input.
pub open spec fn build_version(input: Seq<u8>, ecl: Option<ECL>, version: Option<Version>) -> int {
    match version {
        Some(forced) => forced.spec_number(),
        None => first_fit(best_mode(input), build_level(ecl), input.len() as int, 1),
    }
}

/// The bits that are placed into a symbol of version `v`: those of the final
/// codeword sequence.
pub open spec fn symbol_bits(input: Seq<u8>, mode: Mode, level: ECL, v: int) -> Seq<bool> {
    unpack(final_codewords(encoded_codewords(mode, v, level, input), v, level))
}

/// The mask of the symbol of version `v` that carries `input`.
pub open spec fn symbol_mask(
    input: Seq<u8>,
    mode: Mode,
    level: ECL,
    v: int,
    mask: Option<Mask>,
) -> Mask {
    chosen_mask(placed(v, symbol_bits(input, mode, level, v)), v, level, mask)
}

/// The modules of the symbol of version `v` that carries `input`.
pub open spec fn symbol_matrix(
    input: Seq<u8>,
    mode: Mode,
    level: ECL,
    v: int,
    mask: Option<Mask>,
) -> Seq<Seq<Module>> {
    finished(
        placed(v, symbol_bits(input, mode, level, v)),
        v,
        level,
        symbol_mask(input, mode, level, v, mask),
    )
}

/// Whether `qr` is the symbol of version `v` that carries `input` in the
/// given mode at the given level, under the forced mask or else the best.
pub open spec fn is_symbol_of(
    qr: QRCode,
    input: Seq<u8>,
    mode: Mode,
    level: ECL,
    v: int,
    mask: Option<Mask>,
) -> bool {
    &&& qr.size == side(v)
    &&& is_square(qr.data, side(v))
    &&& qr.version matches Some(version) && version.spec_number() == v
    &&& qr.ecl == Some(level)
    &&& qr.mode == Some(mode)
    &&& qr.mask == Some(symbol_mask(input, mode, level, v, mask))
    &&& qr.matrix() == symbol_matrix(input, mode, level, v, mask)
}

/// Whether `qr` is the symbol that is built of `input` under the given
/// choices of level, version and mask.
pub open spec fn is_built(
    qr: QRCode,
    input: Seq<u8>,
    ecl: Option<ECL>,
    version: Option<Version>,
    mask: Option<Mask>,
) -> bool {
    is_symbol_of(
        qr,
        input,
        best_mode(input),
        build_level(ecl),
        build_version(input, ecl, version),
        mask,
    )
}

/// Building is a function of its inputs: two symbols that were built of the
/// same bytes under the same choices have the same modules, module for
/// module, and the same version, level, mask and mode.
pub proof fn lemma_build_deterministic(
    first: QRCode,
    second: QRCode,
    input: Seq<u8>,
    ecl: Option<ECL>,
    version: Option<Version>,
    mask: Option<Mask>,
)
    requires
        is_built(first, input, ecl, version, mask),
        is_built(second, input, ecl, version, mask),
    ensures
        first.matrix() == second.matrix(),
        first.size == second.size,
        first.version == second.version,
        first.ecl == second.ecl,
        first.mask == second.mask,
        first.mode == second.mode,
{
}

/// A version that is asked for is refused if and only if it has no room for
/// the input, and that is if and only if it is smaller than the smallest
/// version with room for it, or no version has room at all. The only error
/// that such a request can get is that the version is too small.
pub proof fn lemma_forced_version(input: Seq<u8>, ecl: Option<ECL>, forced: Version)
    ensures
        build_error(input, ecl, Some(forced)) == Some(QRCodeError::SpecifiedVersion) <==> !fits(
            best_mode(input),
            build_level(ecl),
            input.len() as int,
            forced.spec_number(),
        ),
        build_error(input, ecl, Some(forced)) == Some(QRCodeError::SpecifiedVersion)
            <==> forced.spec_number() < build_version(input, ecl, None),
        build_error(input, ecl, Some(forced)) != Some(QRCodeError::EncodedData),
{
    let mode = best_mode(input);
    let level = build_level(ecl);
    let len = input.len() as int;
    let smallest = first_fit(mode, level, len, 1);
    lemma_first_fit(mode, level, len);
    forced.lemma_number_range();
    if smallest <= forced.spec_number() {
        lemma_room_grows(mode, level, len, smallest, forced.spec_number());
    } else if smallest <= 40 {
        assert(!fits(mode, level, len, forced.spec_number()));
    } else {
        assert(valid_version(forced.spec_number()));
    }
}

/// The bits that are placed are those of all codewords of the symbol.
pub proof fn lemma_symbol_bits_len(input: Seq<u8>, mode: Mode, level: ECL, v: int)
    requires
        valid_version(v),
        fits(mode, level, input.len() as int, v),
    ensures
        symbol_bits(input, mode, level, v).len() == 8 * total_codewords(v),
{
    lemma_encoded_len(mode, v, level, input);
    lemma_final_len(encoded_codewords(mode, v, level, input), v, level);
}

/// After placement the modules that are tagged as data are as many as the
/// bits of the final codeword sequence and the remainder bits of the
/// version: every bit has its module, and the modules left over are those
/// that the version is known to leave over.
pub proof fn lemma_data_modules_hold_bits(
    input: Seq<u8>,
    mode: Mode,
    level: ECL,
    v: int,
    mask: Option<Mask>,
)
    requires
        valid_version(v),
        fits(mode, level, input.len() as int, v),
    ensures
        tagged_data(symbol_matrix(input, mode, level, v, mask)) == symbol_bits(
            input,
            mode,
            level,
            v,
        ).len() + remainder_bits(v),
        data_cell_count(v) == symbol_bits(input, mode, level, v).len() + remainder_bits(v),
{
    lemma_symbol_bits_len(input, mode, level, v);
    lemma_symbol_data_modules(
        v,
        level,
        symbol_mask(input, mode, level, v, mask),
        symbol_bits(input, mode, level, v),
    );
    lemma_data_area(v);
}

/// Makes the symbol of the given version that carries `input` in the given
/// mode at the given level: encodes the input, adds the error correction,
/// places the bits and applies the forced mask or else the best one.
pub fn create_matrix(
    input: &[u8],
    level: ECL,
    mode: Mode,
    version: Version,
    mask: Option<Mask>,
) -> (qr: QRCode)
    requires
        mode_accepts(mode, input@),
        fits(mode, level, input.len() as int, version.spec_number()),
    ensures
        is_symbol_of(qr, input@, mode, level, version.spec_number(), mask),
{
    let ghost v = version.spec_number();
    proof {
        lemma_table_bounds(v, level);
    }
    let data = encode(input, level, mode, version);
    let codewords = add_error_correction(&data, level, version);
    let bits = unpack_bits(&codewords);
    assert(bits@ == symbol_bits(input@, mode, level, v));
    let grid = place(version, &bits);
    let (chosen, done) = select_mask(&grid, version, level, mask);
    assert(chosen == symbol_mask(input@, mode, level, v, mask));
    assert(matrix(done) == symbol_matrix(input@, mode, level, v, mask));
    QRCode {
        data: done,
        size: version.size(),
        version: Some(version),
        ecl: Some(level),
        mask: Some(chosen),
        mode: Some(mode),
    }
}

impl QRCode {
    /// The modules of the symbol, row by row.
    pub open spec fn matrix(&self) -> Seq<Seq<Module>> {
        matrix(self.data)
    }

    /// A matrix of `size` rows of `size` light data modules, with nothing
    /// chosen yet.
    pub fn default(size: usize) -> (qr: QRCode)
        ensures
            qr.size == size,
            qr.version is None,
            qr.ecl is None,
            qr.mask is None,
            qr.mode is None,
            is_square(qr.data, size as int),
            qr.matrix() == light_matrix(size as int),
    {
        let mut data: Vec<Vec<Module>> = Vec::new();
        let mut r: usize = 0;
        while r < size
            invariant
                r <= size,
                data.len() == r,
                forall|i: int|
                    0 <= i < r ==> (#[trigger] data[i])@ == Seq::new(
                        size as nat,
                        |c: int| Module { dark: false, fixed: false },
                    ),
            decreases size - r,
        {
            let mut row: Vec<Module> = Vec::new();
            let mut c: usize = 0;
            while c < size
                invariant
                    c <= size,
                    row@ == Seq::new(c as nat, |c: int| Module { dark: false, fixed: false }),
                decreases size - c,
            {
                row.push(Module::data(false));
                c = c + 1;
                assert(row@ == Seq::new(c as nat, |c: int| Module { dark: false, fixed: false }));
            }
            data.push(row);
            r = r + 1;
        }
        let qr = QRCode { data, size, version: None, ecl: None, mask: None, mode: None };
        assert(qr.matrix() =~~= light_matrix(size as int));
        qr
    }

    /// Builds the symbol of `input`. The most compact mode is taken. The
    /// level is `ecl`, or the quartile level where none is given. The version
    /// is `version` where one is given, else the smallest with room for the
    /// input. The mask is `mask` where one is given, else the one of lowest
    /// score.
    ///
    /// Fails with `SpecifiedVersion` where a version is given and has no room
    /// for the input, and with `EncodedData` where none is given and no
    /// version has room for it.
    pub fn new(input: &[u8], ecl: Option<ECL>, version: Option<Version>, mask: Option<Mask>) -> (built:
        Result<QRCode, QRCodeError>)
        ensures
            match built {
                Ok(qr) => build_error(input@, ecl, version) is None && is_built(
                    qr,
                    input@,
                    ecl,
                    version,
                    mask,
                ),
                Err(error) => build_error(input@, ecl, version) == Some(error),
            },
    {
        let mode = best_encoding(input);
        let level = match ecl {
            Some(level) => level,
            None => ECL::Q,
        };
        let chosen = match version {
            Some(forced) => {
                if has_room(mode, level, input.len(), forced) {
                    forced
                } else {
                    return Err(QRCodeError::SpecifiedVersion);
                }
            },
            None => match Version::get(mode, level, input.len()) {
                Some(found) => found,
                None => {
                    return Err(QRCodeError::EncodedData);
                },
            },
        };
        Ok(create_matrix(input, level, mode, chosen, mask))
    }

    /// Draws the symbol as text, two rows of modules to a line, with a light
    /// margin of two modules around it.
    pub fn to_str(&self) -> (text: String)
        ensures
            text@ == text_of(self.matrix(), self.size as int),
    {
        render(&self.data, self.size)
    }

    /// The module in row `r` and column `c`, if the symbol has one there.
    pub fn get(&self, r: usize, c: usize) -> (module: Option<Module>)
        ensures
            module == if r < self.matrix().len() && c < self.matrix()[r as int].len() {
                Some(self.matrix()[r as int][c as int])
            } else {
                None
            },
    {
        if r < self.data.len() && c < self.data[r].len() {
            Some(self.data[r][c])
        } else {
            None
        }
    }
}

impl core::ops::Index<usize> for QRCode {
    type Output = [Module];

    /// The modules of one row.
    fn index(&self, index: usize) -> (row: &[Module])
        ensures
            row@ == self.matrix()[index as int],
    {
        self.data[index].as_slice()
    }
}

impl vstd::std_specs::core::IndexSpecImpl<usize> for QRCode {
    /// A symbol has the rows from 0 up to its number of rows.
    open spec fn index_req(&self, index: &usize) -> bool {
        *index < self.matrix().len()
    }
}

/// What a builder holds: the input and the choices made so far.
pub struct Choices {
    /// The bytes to encode.
    pub input: Seq<u8>,
    /// The level asked for, if any.
    pub ecl: Option<ECL>,
    /// The version asked for, if any.
    pub version: Option<Version>,
    /// The mask asked for, if any.
    pub mask: Option<Mask>,
}

/// Collects the input and the choices of the caller, and builds the symbol.
pub struct QRBuilder {
    input: Vec<u8>,
    ecl: Option<ECL>,
    version: Option<Version>,
    mask: Option<Mask>,
}

impl View for QRBuilder {
    type V = Choices;

    closed spec fn view(&self) -> Choices {
        Choices { input: self.input@, ecl: self.ecl, version: self.version, mask: self.mask }
    }
}

impl QRBuilder {
    /// A builder for the given bytes with nothing chosen: the level will be
    /// the quartile level, the version the smallest that has room, and the
    /// mask the one of lowest score.
    pub fn from_bytes(input: Vec<u8>) -> (builder: QRBuilder)
        ensures
            builder@.input == input@,
            builder@.ecl is None,
            builder@.version is None,
            builder@.mask is None,
    {
        QRBuilder { input, ecl: None, version: None, mask: None }
    }

    /// A builder for whatever turns into bytes, with nothing chosen. The
    /// bytes are those that the conversion of the argument gives; where the
    /// bytes themselves are at hand, `from_bytes` says more.
    pub fn new<I: Into<Vec<u8>>>(input: I) -> (builder: QRBuilder)
        ensures
            I::obeys_into_spec() ==> builder@.input == input.into_spec()@,
            builder@.ecl is None,
            builder@.version is None,
            builder@.mask is None,
    {
        QRBuilder { input: input.into(), ecl: None, version: None, mask: None }
    }

    /// Asks for the given error-correction level.
    pub fn ecl(&mut self, ecl: ECL) -> (builder: &mut Self)
        ensures
            builder@ == (Choices { ecl: Some(ecl), ..old(self)@ }),
            *final(self) == *final(builder),
    {
        self.ecl = Some(ecl);
        self
    }

    /// Asks for the given version.
    pub fn version(&mut self, version: Version) -> (builder: &mut Self)
        ensures
            builder@ == (Choices { version: Some(version), ..old(self)@ }),
            *final(self) == *final(builder),
    {
        self.version = Some(version);
        self
    }

    /// Asks for the given mask.
    pub fn mask(&mut self, mask: Mask) -> (builder: &mut Self)
        ensures
            builder@ == (Choices { mask: Some(mask), ..old(self)@ }),
            *final(self) == *final(builder),
    {
        self.mask = Some(mask);
        self
    }

    /// Builds the symbol of the input under the choices made.
    ///
    /// Fails with `SpecifiedVersion` where a version was asked for and has
    /// no room for the input, and with `EncodedData` where none was asked
    /// for and no version has room for it.
    pub fn build(&self) -> (built: Result<QRCode, QRCodeError>)
        ensures
            match built {
                Ok(qr) => build_error(self@.input, self@.ecl, self@.version) is None && is_built(
                    qr,
                    self@.input,
                    self@.ecl,
                    self@.version,
                    self@.mask,
                ),
                Err(error) => build_error(self@.input, self@.ecl, self@.version) == Some(error),
            },
    {
        QRCode::new(self.input.as_slice(), self.ecl, self.version, self.mask)
    }
}

} // verus!
