use vstd::prelude::*;

verus! {

/// What can go wrong while reporting a notice.
#[derive(Debug, Clone, PartialEq, Eq)]
pub enum Error {
    /// The collector could not be reached, written to or read from.
    IO { reason: String },
    /// The collector answered with another status than `201 Created`.
    Gateway { status_code: u16, reason: String },
    /// The endpoint is no valid URL.
    InvalidUri { reason: String },
    /// The collector's answer to a created notice could not be read.
    Decode { reason: String },
}

} // verus!
