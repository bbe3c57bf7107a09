//! Modification times: seconds since the epoch, in UTC, as `chrono` reads
//! and writes them.

use vstd::prelude::*;

verus! {

/// Whether `chrono` can represent the instant `secs` seconds after the epoch.
pub uninterp spec fn utc_representable(secs: i64) -> bool;

/// The RFC 3339 text of the instant `secs` seconds after the epoch, in UTC.
pub uninterp spec fn rfc3339_utc(secs: i64) -> Seq<char>;

/// Relies on `chrono::DateTime::from_timestamp`, which returns `None` for an
/// instant outside its range.
#[verifier::external_body]
pub(crate) fn utc_timestamp_ok(secs: i64) -> (r: bool)
    ensures
        r == utc_representable(secs),
{
    chrono::DateTime::from_timestamp(secs, 0).is_some()
}

/// Relies on `chrono::DateTime::to_rfc3339` of the UTC instant.
#[verifier::external_body]
pub(crate) fn format_rfc3339(secs: i64) -> (r: String)
    requires
        utc_representable(secs),
    ensures
        r@ == rfc3339_utc(secs),
{
    match chrono::DateTime::from_timestamp(secs, 0) {
        Some(t) => t.to_rfc3339(),
        None => String::new(),
    }
}

} // verus!
