//! Calendar time: the text of a point in time, as `chrono` formats it.

use vstd::prelude::*;
use std::fmt::Write;
use crate::text::text_view;

verus! {

/// The text that `chrono` writes for the UTC time that lies `millis`
/// milliseconds after the Unix epoch, formatted by `pattern`; `None` where
/// `chrono` cannot hold that time or cannot format by that pattern.
pub uninterp spec fn utc_text(millis: int, pattern: Seq<char>) -> Option<Seq<char>>;

/// Makes the time with `chrono::DateTime::from_timestamp_millis` and writes
/// it with `chrono::DateTime::format`. The contract only names the result,
/// which depends on the two arguments alone: the time is taken as UTC.
#[verifier::external_body]
pub(crate) fn format_utc(millis: i64, pattern: &str) -> (r: Option<String>)
    ensures
        text_view(r) == utc_text(millis as int, pattern@),
{
    let time = chrono::DateTime::<chrono::Utc>::from_timestamp_millis(millis)?;
    let mut text = String::new();
    write!(text, "{}", time.format(pattern)).ok()?;
    Some(text)
}

/// The pattern of a time stamp: date and time of day to the second, with a
/// `T` between them.
pub open spec fn stamp_pattern() -> Seq<char> {
    "%Y-%m-%dT%H:%M:%S"@
}

/// The time stamp of the moment `offset` milliseconds after the start of a
/// run that began at `run_start`, both counted in milliseconds; `None` where
/// that moment lies beyond what can be written.
pub open spec fn stamp_of(run_start: int, offset: int) -> Option<Seq<char>> {
    if i64::MIN <= run_start + offset <= i64::MAX {
        utc_text(run_start + offset, stamp_pattern())
    } else {
        None
    }
}

/// Writes the time stamp of a moment of the run.
pub fn stamp(run_start_ms: i64, offset_ms: i64) -> (r: Option<String>)
    ensures
        text_view(r) == stamp_of(run_start_ms as int, offset_ms as int),
{
    match run_start_ms.checked_add(offset_ms) {
        Some(moment) => format_utc(moment, "%Y-%m-%dT%H:%M:%S"),
        None => None,
    }
}

} // verus!
