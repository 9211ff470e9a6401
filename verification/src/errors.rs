//! The error kinds of a collection run.
//!
//! Every failure is fatal to the run: a bad configuration stops the process
//! before the loop starts, an unreachable remote source aborts the tick and
//! the process, and an unwritable destination does the same. There is no
//! retry and no skipped tick.

use vstd::prelude::*;

verus! {

/// Why a collection run stops.
#[derive(Debug, Clone, Copy, PartialEq, Eq)]
pub enum CollectError {
    /// The command line held a missing or invalid input.
    Config,
    /// The hub or the weather service was unreachable or rejected the call.
    Connectivity,
    /// The destination could not be written or flushed.
    Io,
}

/// The diagnostic text of an error kind.
pub open spec fn message_text(e: CollectError) -> Seq<char> {
    match e {
        CollectError::Config => "invalid configuration"@,
        CollectError::Connectivity => "remote source unreachable"@,
        CollectError::Io => "cannot write to the destination"@,
    }
}

impl CollectError {
    /// The diagnostic message shown before the process exits.
    pub fn message(&self) -> (s: String)
        ensures
            s@ == message_text(*self),
    {
        match self {
            CollectError::Config => String::from_str("invalid configuration"),
            CollectError::Connectivity => String::from_str("remote source unreachable"),
            CollectError::Io => String::from_str("cannot write to the destination"),
        }
    }
}

} // verus!
