//! The one place where the library reads the wall clock.

use vstd::prelude::*;

verus! {

/// The current time, in milliseconds since the Unix epoch.
///
/// Calls `chrono::Utc::now` and `DateTime::timestamp_millis`. Nothing is
/// claimed of the value: two calls may give any two numbers. chrono panics
/// when the system clock stands before 1970; no argument of the library can
/// bring that about.
#[verifier::external_body]
pub(crate) fn unix_millis_now() -> (now: i64) {
    chrono::Utc::now().timestamp_millis()
}

/// The current time, in seconds since the Unix epoch.
///
/// Calls `chrono::Utc::now` and `DateTime::timestamp`. Nothing is claimed
/// of the value. chrono panics when the system clock stands before 1970;
/// no argument of the library can bring that about.
#[verifier::external_body]
pub(crate) fn unix_seconds_now() -> (now: i64) {
    chrono::Utc::now().timestamp()
}

/// The current UTC time written as year, month, day, hour, minute and
/// second, without anything in between.
///
/// Calls `chrono::Utc::now` and `DateTime::format` with the pattern
/// `%Y%m%d%H%M%S`. Nothing is claimed of the text. chrono panics when the
/// system clock stands before 1970; no argument of the library can bring
/// that about.
#[verifier::external_body]
pub(crate) fn timestamp_now() -> (stamp: String) {
    chrono::Utc::now().format("%Y%m%d%H%M%S").to_string()
}

} // verus!
