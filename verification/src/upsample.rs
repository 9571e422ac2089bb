//! Errors of the cubic Hermite upsampling stage.

use vstd::prelude::*;

use crate::text::{decimal, decimal_text};

verus! {

/// An error upsampling a trajectory chunk.
#[derive(Debug, Clone, Copy, PartialEq, Eq, Structural)]
pub enum UpsampleError {
    /// The chunk's row count did not match the upsampler's configured
    /// chunk timestamp count.
    ChunkLengthMismatch {
        /// The row count the upsampler was configured for.
        expected: usize,
        /// The row count the chunk actually had.
        got: usize,
    },
}

impl UpsampleError {
    /// The text that describes the error.
    pub open spec fn description(&self) -> Seq<char> {
        match *self {
            UpsampleError::ChunkLengthMismatch { expected, got } => "expected chunk length "@
                + decimal(expected as nat) + ", got "@ + decimal(got as nat),
        }
    }

    /// A human-readable description of the error.
    pub fn message(&self) -> (text: String)
        ensures
            text@ == self.description(),
    {
        match self {
            UpsampleError::ChunkLengthMismatch { expected, got } => {
                let mut text = "expected chunk length ".to_owned();
                text.append(decimal_text(*expected).as_str());
                text.append(", got ");
                text.append(decimal_text(*got).as_str());
                text
            },
        }
    }
}

} // verus!
