//! Reading a civil date and time as a moment in UTC.

use vstd::prelude::*;
use chrono::{LocalResult, NaiveDateTime, Utc};
use crate::types::Timestamp;

verus! {

/// What becomes of a text that should hold a civil date and time, read in UTC.
#[derive(Clone, Copy, Debug, PartialEq, Eq)]
pub enum UtcReading {
    /// The text does not follow the format.
    Malformed,
    /// The civil time does not exist in the zone.
    Unresolved,
    /// The civil time is exactly this moment.
    Single(Timestamp),
    /// The civil time stands for more than one moment.
    Ambiguous,
}

/// How `text`, parsed by the strftime-style `format` and taken as a civil time
/// in UTC, reads.
pub uninterp spec fn utc_reading(text: Seq<char>, format: Seq<char>) -> UtcReading;

/// Parses `text` with `chrono::NaiveDateTime::parse_from_str` and resolves the
/// civil time in UTC with `NaiveDateTime::and_local_timezone`.
///
/// The contract claims only that the outcome is a function of the two texts:
/// a parse error reads as `Malformed`, the three results of the zone
/// resolution as the variant of the same meaning, and a single moment is
/// handed over as its Unix seconds and the nanoseconds within them.
#[verifier::external_body]
pub(crate) fn read_utc(text: &str, format: &str) -> (r: UtcReading)
    ensures
        r == utc_reading(text@, format@),
{
    match NaiveDateTime::parse_from_str(text, format) {
        Err(_) => UtcReading::Malformed,
        Ok(civil) => match civil.and_local_timezone(Utc) {
            LocalResult::None => UtcReading::Unresolved,
            LocalResult::Single(at) => UtcReading::Single(
                Timestamp { secs: at.timestamp(), nanos: at.timestamp_subsec_nanos() },
            ),
            LocalResult::Ambiguous(_, _) => UtcReading::Ambiguous,
        },
    }
}

} // verus!
