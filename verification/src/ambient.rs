//! What the library takes from its surroundings: the clock and fresh
//! identifiers. Nothing is known of these values beyond their type.

use vstd::prelude::*;

verus! {

/// `std::time::SystemTime`: a reading of this machine's clock. Nothing of
/// what it holds is seen here; it is only handed on.
#[verifier::external_type_specification]
#[verifier::external_body]
pub struct ExSystemTime(std::time::SystemTime);

/// Calls `std::time::SystemTime::now`: the time on this machine's clock.
/// Nothing is claimed of the value.
#[verifier::external_body]
fn clock_reading() -> std::time::SystemTime {
    std::time::SystemTime::now()
}

/// Calls `SystemTime::duration_since` with `UNIX_EPOCH`: the time from the
/// start of 1970 to the reading. For a reading before 1970 the call gives
/// an error, which stands here as `None`. Nothing else is claimed.
#[verifier::external_body]
fn time_since_1970(reading: &std::time::SystemTime) -> Option<std::time::Duration> {
    match reading.duration_since(std::time::UNIX_EPOCH) {
        Ok(span) => Some(span),
        Err(_) => None,
    }
}

/// Calls `Duration::as_secs`: the whole seconds of a span of time.
/// Nothing is claimed of the value.
#[verifier::external_body]
fn whole_seconds(span: &std::time::Duration) -> u64 {
    span.as_secs()
}

/// The whole seconds from the start of 1970 to now on this machine's
/// clock, or nothing where the clock stands before 1970.
pub(crate) fn clock_seconds() -> Option<u64> {
    let reading = clock_reading();
    match time_since_1970(&reading) {
        Some(span) => Some(whole_seconds(&span)),
        None => None,
    }
}

/// Calls `uuid::Uuid::new_v4` and writes the identifier out as text.
/// Nothing is claimed of the value.
#[verifier::external_body]
pub(crate) fn fresh_id() -> String {
    uuid::Uuid::new_v4().to_string()
}

} // verus!
