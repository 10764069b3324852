//! Rendering an epoch timestamp as UTC calendar text.

use vstd::prelude::*;
use chrono::TimeZone;
use crate::text::text_clean;

verus! {

/// The text chrono renders for `ts` seconds after the Unix epoch, or `None`
/// where the instant lies outside the representable range of its calendar.
pub uninterp spec fn utc_text_of(ts: u64) -> Option<Seq<char>>;

/// Relies on chrono: `Utc.timestamp_opt(secs, 0)` names a single instant
/// exactly when `secs` is in the supported range, and the `Display` of a
/// `DateTime<Utc>` writes the calendar date and time followed by `UTC`
/// (as in `1970-01-01 00:00:00 UTC`) — digits, `-`, `:`, spaces, a possible
/// year sign and letters, so never a semicolon or a line break. The text
/// depends on the timestamp alone; no local time zone enters.
#[verifier::external_body]
pub(crate) fn format_epoch(ts: u64) -> (r: Option<String>)
    ensures
        r matches Some(s) ==> (utc_text_of(ts) matches Some(t) && s@ == t && text_clean(t)),
        r is None ==> utc_text_of(ts) is None,
{
    match i64::try_from(ts) {
        Ok(secs) => match chrono::Utc.timestamp_opt(secs, 0) {
            chrono::LocalResult::Single(dt) => Some(dt.to_string()),
            _ => None,
        },
        Err(_) => None,
    }
}

} // verus!
