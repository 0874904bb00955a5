//! The system clock, read in whole seconds since the Unix epoch.

use vstd::prelude::*;

verus! {

#[verifier::external_type_specification]
#[verifier::external_body]
pub struct ExSystemTime(std::time::SystemTime);

#[verifier::external_type_specification]
#[verifier::external_body]
pub struct ExSystemTimeError(std::time::SystemTimeError);

/// Latest time, in seconds since the epoch, that the library works with:
/// beyond the end of year 262142, the last that chrono can represent.
pub open spec fn latest_timestamp() -> i64 {
    10_000_000_000_000
}

/// Relies on `std::time::SystemTime::now`: the system clock's reading.
#[verifier::external_body]
fn system_now() -> (r: std::time::SystemTime) {
    std::time::SystemTime::now()
}

/// Relies on `SystemTime::duration_since` with `UNIX_EPOCH`: an error when
/// the reading lies before the epoch.
#[verifier::external_body]
fn since_epoch(t: &std::time::SystemTime) -> (r: Result<
    core::time::Duration,
    std::time::SystemTimeError,
>) {
    t.duration_since(std::time::UNIX_EPOCH)
}

/// Relies on `Duration::as_secs`: the whole seconds of a duration.
#[verifier::external_body]
fn whole_seconds(d: &core::time::Duration) -> (r: u64) {
    d.as_secs()
}

/// The current time in seconds since the epoch; `None` when the clock reads
/// before the epoch or past `latest_timestamp`.
pub fn current_time() -> (r: Option<i64>)
    ensures
        r is Some ==> 0 <= r->Some_0 <= latest_timestamp(),
{
    let now = system_now();
    match since_epoch(&now) {
        Ok(d) => {
            let secs = whole_seconds(&d);
            if secs <= 10_000_000_000_000 {
                Some(secs as i64)
            } else {
                None
            }
        },
        Err(_) => None,
    }
}

} // verus!
