//! The core of a QR code (model 2) symbol generator, verified with Verus.
//!
//! From the data codewords of a symbol it computes the Reed-Solomon error
//! correction codewords per block and interleaves them (`ec`), paints the
//! function patterns onto the module grid and threads the masked codeword bits
//! through it along the data walk (`qrcode`). `grid` holds the mathematical
//! model of a symbol that the contracts speak of, `laws` the properties proved
//! about it, and the `*tables` modules the per-version parameters.

pub mod ec;
pub mod generator_table;
pub mod gf_tables;
pub mod grid;
pub mod laws;
pub mod qrcode;
pub mod tables;
