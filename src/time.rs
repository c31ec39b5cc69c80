//! The current time as milliseconds since the Unix epoch.
use vstd::prelude::*;

verus! {

#[verifier::external_type_specification]
#[verifier::external_body]
pub struct ExSystemTime(std::time::SystemTime);

/// Relies on `std::time::SystemTime::now`.
#[verifier::external_body]
fn now() -> (r: std::time::SystemTime) {
    std::time::SystemTime::now()
}

/// Relies on `std::time::SystemTime::duration_since` from the epoch: `Ok` with the
/// time since the epoch, or `Err` with the time until it for a time before it.
#[verifier::external_body]
fn since_epoch(t: &std::time::SystemTime) -> (r: Result<core::time::Duration, core::time::Duration>) {
    match t.duration_since(std::time::UNIX_EPOCH) {
        Ok(d) => Ok(d),
        Err(e) => Err(e.duration()),
    }
}

/// Relies on `core::time::Duration::as_millis`.
#[verifier::external_body]
fn whole_millis(d: &core::time::Duration) -> (r: u128) {
    d.as_millis()
}

/// A distance from the epoch in milliseconds as a signed count, negative before
/// the epoch, saturating at the bounds of `i64`.
pub fn signed_millis(ms: u128, after_epoch: bool) -> (r: i64)
    ensures
        after_epoch && ms <= i64::MAX ==> r == ms,
        !after_epoch && ms <= i64::MAX ==> r == -(ms as int),
        after_epoch && ms > i64::MAX ==> r == i64::MAX,
        !after_epoch && ms > i64::MAX ==> r == -i64::MAX,
{
    let m: i64 = if ms > i64::MAX as u128 { i64::MAX } else { ms as i64 };
    if after_epoch { m } else { -m }
}

/// Milliseconds since the Unix epoch, negative before it.
pub fn unix_ms() -> (r: i64)
    ensures
        r >= -i64::MAX,
{
    match since_epoch(&now()) {
        Ok(d) => signed_millis(whole_millis(&d), true),
        Err(d) => signed_millis(whole_millis(&d), false),
    }
}

} // verus!
