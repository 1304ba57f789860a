//! Fetch outcomes: the three-way classification of one attempt to
//! retrieve a segment, derived from the HTTP status and the body size.

use vstd::prelude::*;

verus! {

/// Why a fetch is unrecoverable.
#[derive(Clone, Copy, Debug, PartialEq, Eq, Structural)]
pub enum FatalReason {
    /// The server answered 403: the link or credentials expired.
    AccessDenied,
    /// The transport itself failed before a status arrived.
    TransportFailure,
}

/// The result of attempting to retrieve one segment.
#[derive(Clone, Copy, Debug, PartialEq, Eq, Structural)]
pub enum FetchOutcome {
    /// The segment was served and written; carries the byte count.
    Saved(u64),
    /// The server signals that no segment exists at this index.
    EndOfSequence,
    /// An unrecoverable condition: stop and surface it.
    Fatal(FatalReason),
}

/// The classification rule: 403 is fatal (expired authorization must
/// not read as a normal end), 404 ends the sequence, an empty body on
/// any other status also ends it, and anything else is a saved segment
/// of `body_len` bytes.
pub open spec fn spec_classify(status: u16, body_len: u64) -> FetchOutcome {
    if status == 403 {
        FetchOutcome::Fatal(FatalReason::AccessDenied)
    } else if status == 404 {
        FetchOutcome::EndOfSequence
    } else if body_len == 0 {
        FetchOutcome::EndOfSequence
    } else {
        FetchOutcome::Saved(body_len)
    }
}

/// Classify one HTTP response by its status code and body length.
pub fn classify_response(status: u16, body_len: u64) -> (r: FetchOutcome)
    ensures
        r == spec_classify(status, body_len),
{
    if status == 403 {
        FetchOutcome::Fatal(FatalReason::AccessDenied)
    } else if status == 404 {
        FetchOutcome::EndOfSequence
    } else if body_len == 0 {
        FetchOutcome::EndOfSequence
    } else {
        FetchOutcome::Saved(body_len)
    }
}

impl FatalReason {
    /// A user-facing message; the access-denied wording is distinct
    /// from any normal-completion wording.
    pub fn message(&self) -> (r: String)
        ensures
            *self is AccessDenied ==> r@ == "access denied: refresh the credentials or the link"@,
            *self is TransportFailure ==> r@ == "transport failure while fetching a segment"@,
    {
        match self {
            FatalReason::AccessDenied => {
                String::from_str("access denied: refresh the credentials or the link")
            },
            FatalReason::TransportFailure => {
                String::from_str("transport failure while fetching a segment")
            },
        }
    }
}

} // verus!
