use vstd::prelude::*;

verus! {

/// Relies on `time::OffsetDateTime::now_utc` and its `format` with the
/// well-known RFC3339 description: the current UTC instant as RFC3339 text
/// (empty text if formatting fails). Nothing is promised of a clock
/// reading.
#[verifier::external_body]
pub fn get_now() -> String {
    match time::OffsetDateTime::now_utc().format(&time::format_description::well_known::Rfc3339) {
        Ok(s) => s,
        Err(_) => String::new(),
    }
}

/// Relies on `time::OffsetDateTime::now_utc` and `unix_timestamp_nanos`:
/// the current UTC instant as nanoseconds since the Unix epoch. Nothing is
/// promised of a clock reading.
#[verifier::external_body]
fn now_unix_nanos() -> i128 {
    time::OffsetDateTime::now_utc().unix_timestamp_nanos()
}

/// A reading of the wall clock on the instant scale the store uses:
/// nanoseconds since the Unix epoch, clamped into `u64`. The store itself
/// keeps its timestamps monotonic whatever this returns.
pub fn now_instant() -> u64 {
    let n = now_unix_nanos();
    if n < 0 {
        0
    } else if n > u64::MAX as i128 {
        u64::MAX
    } else {
        n as u64
    }
}

} // verus!
