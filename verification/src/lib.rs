//! QR code symbol construction with machine-checked contracts.
//!
//! `QRBuilder` turns bytes into a `QRCode`: a square matrix of modules. What
//! every step of the way does is stated in its contract and proved: the
//! choice of mode and version, the bit encoder, the error correction, the
//! layout of the patterns, the placement of the bits and the choice of the
//! mask. The modules under `convert` draw a finished symbol.

pub mod area;
pub mod bits;
pub mod capacity;
pub mod convert;
pub mod distance;
pub mod ecc;
pub mod ecl;
pub mod encode;
pub mod filling;
pub mod galois;
pub mod info;
pub mod layout;
pub mod mask;
pub mod mode;
pub mod module;
pub mod number;
pub mod placement;
pub mod powers;
pub mod qr;
pub mod reed_solomon;
pub mod score;
pub mod select;
pub mod syndrome;
pub mod text;
pub mod version;

pub use ecl::ECL;
pub use mask::Mask;
pub use mode::Mode;
pub use module::Module;
pub use qr::{QRBuilder, QRCode, QRCodeError};
pub use version::Version;
