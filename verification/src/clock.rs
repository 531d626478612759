//! The wall clock.

use vstd::prelude::*;

verus! {

/// `std::time::SystemTime`, carried through as an opaque value.
#[verifier::external_type_specification]
#[verifier::external_body]
pub struct ExSystemTime(std::time::SystemTime);

/// Calls `std::time::SystemTime::now`. The reading is whatever the machine's
/// clock says, so no clause is stated of it.
#[verifier::external_body]
fn system_now() -> (t: std::time::SystemTime) {
    std::time::SystemTime::now()
}

/// Calls `SystemTime::duration_since` with the Unix epoch; `None` when the
/// reading lies before the epoch. Nothing is stated of the duration: the
/// reading is opaque here.
#[verifier::external_body]
fn since_epoch(t: &std::time::SystemTime) -> (d: Option<core::time::Duration>) {
    t.duration_since(std::time::UNIX_EPOCH).ok()
}

/// Calls `Duration::as_secs`: the whole seconds of a duration. Nothing is
/// stated of it: the duration is opaque here.
#[verifier::external_body]
fn duration_secs(d: &core::time::Duration) -> (secs: u64) {
    d.as_secs()
}

/// Whole seconds since the Unix epoch by the machine's clock, 0 when the clock
/// reads before the epoch. The value is whatever the clock says, so no clause
/// is stated of it.
pub(crate) fn now_unix_secs() -> (secs: u64) {
    let t = system_now();
    match since_epoch(&t) {
        Some(d) => duration_secs(&d),
        None => 0,
    }
}

} // verus!
