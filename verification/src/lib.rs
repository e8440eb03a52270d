//! Safe, bounded parsing and reporting primitives for ELF binary inspection.
//!
//! Every byte of an inspected file is untrusted: offsets, sizes and counts are
//! checked before use and every decoding step is stated against a
//! specification over the raw bytes.

pub mod cli;
pub mod elf;
pub mod error;
pub mod fmt;
pub mod hash;
pub mod input;
pub mod labels;
pub mod model;
pub mod report;
pub mod text;
pub mod view;

use vstd::prelude::*;
use crate::elf::parse_outcome;
use crate::error::AppError;
use crate::model::Binary;

verus! {

/// Inspects the contents of one regular ELF file without executing or loading it.
///
/// The reported file size is the number of bytes given: the outcome is the
/// one `elf::parse` has on these bytes at that size.
pub fn inspect(bytes: &[u8]) -> (r: Result<Binary, AppError>)
    ensures
        parse_outcome(bytes@, bytes@.len() as u64, r),
{
    elf::parse(bytes, bytes.len() as u64)
}

} // verus!
