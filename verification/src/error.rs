use vstd::prelude::*;

verus! {

/// Errors reported by the decoders of this crate.
#[derive(Debug)]
pub enum Error {
    /// The data does not follow the format it claims to have.
    InvalidData(String),
    /// A compressed stream could not be decompressed.
    DecompressionError(String),
}

} // verus!
