//! Parsing and validation of length-prefixed, type-coded binary records
//! ("boxes") of ISO base media files, with diagnostic error reports.

pub mod buf;
pub mod array;
pub mod error;
pub mod header;
pub mod parse;
pub mod stsz;
pub mod value;

