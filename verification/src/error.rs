//! The error taxonomy of the pipeline.

use vstd::prelude::*;

verus! {

/// Everything that can go wrong between a request and an installed
/// archive. Each variant carries a human-readable message.
#[derive(Debug, Clone, PartialEq)]
pub enum StoreError {
    /// The request could not be sent or the response could not be read.
    Transport(String),
    /// The response body was not valid JSON or not shaped as expected.
    Decode(String),
    /// A filesystem create or write failed.
    Io(String),
    /// The archive's filename suffix matches no supported format.
    UnsupportedFormat(String),
    /// The external extraction tool reported failure.
    Extraction(String),
}

impl StoreError {
    /// The message carried by the error.
    pub fn message(&self) -> (r: &str)
        ensures
            r@ == self.spec_message(),
    {
        match self {
            StoreError::Transport(m) => m.as_str(),
            StoreError::Decode(m) => m.as_str(),
            StoreError::Io(m) => m.as_str(),
            StoreError::UnsupportedFormat(m) => m.as_str(),
            StoreError::Extraction(m) => m.as_str(),
        }
    }

    /// The message carried by the error.
    pub open spec fn spec_message(self) -> Seq<char> {
        match self {
            StoreError::Transport(m) => m@,
            StoreError::Decode(m) => m@,
            StoreError::Io(m) => m@,
            StoreError::UnsupportedFormat(m) => m@,
            StoreError::Extraction(m) => m@,
        }
    }
}

} // verus!
