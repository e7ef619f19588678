//! Small shared helpers.

use vstd::prelude::*;
use crate::error::opt_view;
use crate::text::{int_decimal, i64_to_decimal};

verus! {

/// The RFC 3339 rendering (`DateTime::<Utc>::to_rfc3339`) of the instant
/// `ms` milliseconds after the Unix epoch, or `None` where chrono's
/// `DateTime::from_timestamp_millis` finds it out of range.
pub uninterp spec fn rfc3339_of_millis(ms: i64) -> Option<Seq<char>>;

/// `chrono::DateTime::from_timestamp_millis(ms).map(|dt| dt.to_rfc3339())`.
/// Its result is named, not stated: it is `rfc3339_of_millis(ms)`.
#[verifier::external_body]
fn rfc3339_from_millis(ms: i64) -> (r: Option<String>)
    ensures
        opt_view(r) == rfc3339_of_millis(ms),
{
    chrono::DateTime::from_timestamp_millis(ms).map(|dt| dt.to_rfc3339())
}

/// What a timestamp renders as, given its RFC 3339 rendering if it has one:
/// that rendering, else the raw integer in decimal.
pub open spec fn spec_format_ms(rendered: Option<Seq<char>>, ms: i64) -> Seq<char> {
    match rendered {
        Some(s) => s,
        None => int_decimal(ms as int),
    }
}

/// Pick the text of a timestamp: its RFC 3339 rendering when there is one,
/// else the raw integer.
pub fn format_ms_from(rendered: Option<String>, ms: i64) -> (r: String)
    ensures
        r@ == spec_format_ms(opt_view(rendered), ms),
{
    match rendered {
        Some(s) => s,
        None => i64_to_decimal(ms),
    }
}

/// Format a Unix-millisecond timestamp as an RFC 3339 string. Falls back to
/// the raw integer if the value is out of range for `DateTime`.
pub fn format_ms(ms: i64) -> (r: String)
    ensures
        r@ == spec_format_ms(rfc3339_of_millis(ms), ms),
{
    format_ms_from(rfc3339_from_millis(ms), ms)
}

} // verus!
