//! Error taxonomy of the library.

use vstd::prelude::*;

verus! {

/// A whole-source failure while fetching a list: either the retrieval
/// itself failed (network), or the payload could not be decoded as the
/// expected structured format.  A failure of this kind aborts that
/// source's contribution entirely; records parsed before the failure
/// are discarded.
#[derive(Clone, Copy, PartialEq, Eq, Structural, Debug)]
pub enum SourceFetchError {
    /// The underlying retrieval (a network call or a local read) failed.
    Network,
    /// The payload was retrieved but is not in the expected format.
    Decode,
}

/// A `"org/name"` string supplied directly (not via a list) did not
/// contain the separator at all, so no identity could be parsed from it.
/// Carries the offending input so the caller can diagnose it.
#[derive(Clone, PartialEq, Eq, Debug)]
pub struct IdentityParseError {
    pub input: String,
}

} // verus!
