//! Instants in UTC, and their RFC 3339 text.
use vstd::prelude::*;

verus! {

/// An instant in UTC: whole seconds since the Unix epoch and the nanoseconds
/// past that second.
#[derive(Clone, Copy, Debug, PartialEq, Eq, Structural)]
pub struct Timestamp {
    pub seconds: i64,
    pub nanos: u32,
}

impl Timestamp {
    /// Builds the instant `seconds` after the epoch plus `nanos` nanoseconds.
    pub fn new(seconds: i64, nanos: u32) -> (r: Timestamp)
        ensures
            r.seconds == seconds,
            r.nanos == nanos,
    {
        Timestamp { seconds, nanos }
    }
}

/// The RFC 3339 text chrono gives the instant `seconds` and `nanos` past the
/// epoch, or `None` when chrono cannot represent that instant.
pub uninterp spec fn rfc3339_of(seconds: i64, nanos: u32) -> Option<Seq<char>>;

/// Relies on chrono::DateTime::<Utc>::from_timestamp, which is `None` for an
/// instant out of its range, and DateTime::to_rfc3339 for the text.
#[verifier::external_body]
pub(crate) fn rfc3339(t: Timestamp) -> (r: Option<String>)
    ensures
        match r {
            Some(s) => rfc3339_of(t.seconds, t.nanos) == Some(s@),
            None => rfc3339_of(t.seconds, t.nanos) is None,
        },
{
    chrono::DateTime::<chrono::Utc>::from_timestamp(t.seconds, t.nanos).map(|d| d.to_rfc3339())
}

} // verus!
