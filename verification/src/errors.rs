//! Error kinds of the commitment engine and of the outer folding layer.

use vstd::prelude::*;

verus! {

/// The single error kind raised by the commitment engine: a caller supplied
/// parameters outside the documented input contract (a degree above the key's
/// capacity, mismatched list lengths, or an exhausted randomizer stream).
#[derive(Clone, Debug, PartialEq, Eq)]
pub enum PCSError {
    /// Invalid parameters, with a description of the violated expectation.
    InvalidParameters(String),
}

/// Errors surfaced by the outer folding layer.
#[derive(Clone, Copy, Debug, PartialEq, Eq, Structural)]
pub enum SangriaError {
    /// A supplied row or column index is out of range.
    IndexOutOfBounds,
    /// The commitment scheme returned an error.
    CommitmentError,
}

impl From<PCSError> for SangriaError {
    /// Any failure of the commitment engine is wrapped into the folding
    /// layer's commitment-error kind.
    fn from(e: PCSError) -> (r: SangriaError) {
        SangriaError::CommitmentError
    }
}

impl vstd::std_specs::convert::FromSpecImpl<PCSError> for SangriaError {
    open spec fn obeys_from_spec() -> bool {
        true
    }

    open spec fn from_spec(e: PCSError) -> SangriaError {
        SangriaError::CommitmentError
    }
}

} // verus!
