//! Trusted wrappers around chrono. Timestamps are carried through the
//! library as microseconds since the Unix epoch; chrono is called only to
//! read the wall clock and to render a timestamp as text.

use vstd::prelude::*;

verus! {

/// Last microsecond of year 9999, the upper bound the renderers accept.
pub const MAX_TIMESTAMP_MICROS: i64 = 253_402_300_799_999_999;

/// The RFC 3339 rendering (UTC, `+00:00` offset) of a timestamp in
/// microseconds since the Unix epoch.
pub uninterp spec fn rfc3339_of(micros: i64) -> Seq<char>;

/// The filesystem-safe rendering `YYYY-MM-DDTHH-MM-SSZ` of a timestamp in
/// microseconds since the Unix epoch.
pub uninterp spec fn compact_time_of(micros: i64) -> Seq<char>;

/// Relies on chrono::Utc::now / DateTime::timestamp_micros to read the
/// wall clock; nothing is assumed of the value.
#[verifier::external_body]
pub fn now_micros() -> i64 {
    chrono::Utc::now().timestamp_micros()
}

/// The wall clock, clamped into the range the renderers accept.
pub fn now_micros_clamped() -> (r: i64)
    ensures
        0 <= r <= MAX_TIMESTAMP_MICROS,
{
    let t = now_micros();
    if t < 0 {
        0
    } else if t > MAX_TIMESTAMP_MICROS {
        MAX_TIMESTAMP_MICROS
    } else {
        t
    }
}

/// Relies on chrono DateTime::<Utc>::from_timestamp_micros (documented to
/// return Some for the admitted range) and DateTime::to_rfc3339: the text
/// is a function of the timestamp alone.
#[verifier::external_body]
pub fn rfc3339_utc(micros: i64) -> (r: String)
    requires
        0 <= micros <= MAX_TIMESTAMP_MICROS,
    ensures
        r@ == rfc3339_of(micros),
{
    match chrono::DateTime::<chrono::Utc>::from_timestamp_micros(micros) {
        Some(d) => d.to_rfc3339(),
        None => String::new(),
    }
}

/// Relies on chrono DateTime::<Utc>::from_timestamp_micros and
/// DateTime::format with a fixed valid pattern: the text is a function of
/// the timestamp alone.
#[verifier::external_body]
pub fn compact_time_utc(micros: i64) -> (r: String)
    requires
        0 <= micros <= MAX_TIMESTAMP_MICROS,
    ensures
        r@ == compact_time_of(micros),
{
    match chrono::DateTime::<chrono::Utc>::from_timestamp_micros(micros) {
        Some(d) => d.format("%Y-%m-%dT%H-%M-%SZ").to_string(),
        None => String::new(),
    }
}

} // verus!
