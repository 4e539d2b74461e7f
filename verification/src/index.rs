//! Refusal to split a host channel into parts.

use vstd::prelude::*;

verus! {

/// Why a channel cannot be indexed.
#[derive(Clone, Copy, Debug, PartialEq, Eq)]
pub enum IndexError {
    /// Host channels have no parts; the framing on top of them keeps the paths.
    Unsupported,
}

impl IndexError {
    /// The error in words.
    pub fn message(&self) -> (message: String)
        ensures
            message@
                == "host transport channels do not support indexing - use wRPC framing layer"@,
    {
        "host transport channels do not support indexing - use wRPC framing layer".to_owned()
    }
}

} // verus!
