//! The errors that reading a scene description can end in.
use vstd::prelude::*;

verus! {

/// Why a scene description could not be read.
#[derive(Debug)]
pub enum Error {
    /// A value had another shape than the one expected here.
    ParseError(String),
    /// A dictionary has no entry under the key that was asked for.
    ParseMissingKey(String),
    /// A construct that is not supported.
    ParseUnsupported(String),
}

} // verus!
