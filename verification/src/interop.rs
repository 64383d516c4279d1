//! Contracts the library assumes about functions of outside crates and of
//! the parts of `std` that vstd leaves unspecified. Everything else in the
//! crate is verified against these.

use vstd::prelude::*;

verus! {

/// Relies on `String::push`: appends exactly the one character.
pub assume_specification[ String::push ](s: &mut String, ch: char)
    ensures
        final(s)@ == old(s)@.push(ch),
;

/// The instant, in whole seconds since the Unix epoch, that an RFC 3339
/// timestamp text denotes, or nothing when the text is not a valid
/// RFC 3339 timestamp. The value depends on the text alone.
pub uninterp spec fn spec_rfc3339_epoch(s: Seq<char>) -> Option<i64>;

/// Relies on chrono's `DateTime::parse_from_rfc3339`, with `timestamp`
/// converting the parsed instant to seconds since the Unix epoch.
#[verifier::external_body]
pub(crate) fn parse_rfc3339_epoch(s: &str) -> (r: Option<i64>)
    ensures
        r == spec_rfc3339_epoch(s@),
{
    match chrono::DateTime::parse_from_rfc3339(s) {
        Ok(dt) => Some(dt.timestamp()),
        Err(_) => None,
    }
}

/// Relies on chrono's `Utc::now` and the `Datelike` accessors: the current
/// UTC date, which chrono guarantees is a well-formed calendar date.
/// Nothing is assumed about which date it is.
#[verifier::external_body]
pub(crate) fn utc_today() -> (r: (i32, u32, u32))
    ensures
        1 <= r.1 <= 12,
        1 <= r.2,
        r.2 as int <= crate::calendar::spec_days_in_month(r.0 as int, r.1 as int),
{
    let d = chrono::Utc::now().date_naive();
    (chrono::Datelike::year(&d), chrono::Datelike::month(&d), chrono::Datelike::day(&d))
}

/// Relies on chrono's `Utc::now` and `timestamp`: the current time in
/// whole seconds since the Unix epoch. Nothing is assumed about its value.
#[verifier::external_body]
pub(crate) fn utc_now_epoch() -> (r: i64) {
    chrono::Utc::now().timestamp()
}

/// Relies on uuid's `Uuid::new_v4`, rendered in its hyphenated text form:
/// a freshly drawn random identifier. Nothing is assumed about its value,
/// so no caller may take two draws to differ.
#[verifier::external_body]
pub(crate) fn fresh_uuid() -> (r: String) {
    uuid::Uuid::new_v4().to_string()
}

} // verus!
