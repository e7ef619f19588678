//! The clock and the session-id generator.

use vstd::prelude::*;

verus! {

/// `chrono::Utc::now().timestamp_millis()`: the current Unix time in
/// milliseconds. It depends on the machine's clock, so nothing is promised of
/// the value.
#[verifier::external_body]
pub(crate) fn now_ms() -> i64 {
    chrono::Utc::now().timestamp_millis()
}

/// `chrono::Utc::now().to_rfc3339()`: the current time as RFC 3339 text.
/// It depends on the machine's clock, so nothing is promised of the text.
#[verifier::external_body]
pub(crate) fn now_rfc3339() -> String {
    chrono::Utc::now().to_rfc3339()
}

/// `uuid::Uuid::now_v7().to_string()`: a fresh time-ordered UUID in its
/// hyphenated form, which is 36 characters long. Which UUID comes back
/// depends on the clock and on chance, so nothing more is promised.
#[verifier::external_body]
pub(crate) fn new_session_id() -> (r: String)
    ensures
        r@.len() == 36,
{
    uuid::Uuid::now_v7().to_string()
}

} // verus!
