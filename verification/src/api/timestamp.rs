//! The moment at which the feed published a document.

use vstd::prelude::*;

verus! {

/// A moment in time, together with the offset from UTC in which it was
/// written down.
///
/// Two timestamps are equal when they name the same moment, whatever their
/// offsets.
#[derive(Debug, Clone, Copy)]
pub struct Timestamp {
    /// Nanoseconds since the Unix epoch.
    pub unix_nanos: i128,
    /// Seconds east of UTC of the offset that the text gave.
    pub offset_seconds: i32,
}

/// What the `time` crate reads from an RFC 3339 text, if it accepts the
/// text: the nanoseconds since the Unix epoch and the seconds of the offset.
pub uninterp spec fn rfc3339_moment(text: Seq<char>) -> Option<(i128, i32)>;

/// Calls `time::OffsetDateTime::parse` with the `Rfc3339` format, then
/// `unix_timestamp_nanos` and `offset().whole_seconds()` on what it read.
///
/// The contract claims only that the outcome is a function of the text.
#[verifier::external_body]
fn read_rfc3339(text: &str) -> (moment: Option<Timestamp>)
    ensures
        match moment {
            Some(t) => rfc3339_moment(text@) == Some((t.unix_nanos, t.offset_seconds)),
            None => rfc3339_moment(text@) is None,
        },
{
    match time::OffsetDateTime::parse(text, &time::format_description::well_known::Rfc3339) {
        Ok(moment) => Some(
            Timestamp {
                unix_nanos: moment.unix_timestamp_nanos(),
                offset_seconds: moment.offset().whole_seconds(),
            },
        ),
        Err(_) => None,
    }
}

impl Timestamp {
    /// The timestamp that an RFC 3339 text denotes, if it denotes one.
    pub open spec fn from_text(text: Seq<char>) -> Option<Timestamp> {
        match rfc3339_moment(text) {
            Some((unix_nanos, offset_seconds)) => Some(Timestamp { unix_nanos, offset_seconds }),
            None => None,
        }
    }

    /// Reads a timestamp from its RFC 3339 text, such as
    /// `2025-01-17T10:09:31.689Z`.
    pub fn parse(text: &str) -> (moment: Option<Timestamp>)
        ensures
            moment == Timestamp::from_text(text@),
    {
        read_rfc3339(text)
    }
}

impl PartialEq for Timestamp {
    fn eq(&self, other: &Timestamp) -> (same: bool) {
        self.unix_nanos == other.unix_nanos
    }
}

impl vstd::std_specs::cmp::PartialEqSpecImpl for Timestamp {
    open spec fn obeys_eq_spec() -> bool {
        true
    }

    open spec fn eq_spec(&self, other: &Timestamp) -> bool {
        self.unix_nanos == other.unix_nanos
    }
}

impl Eq for Timestamp {

}

} // verus!
