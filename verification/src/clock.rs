//! The wall clock, read through the outside time library.
//!
//! Every piece of logic takes the time as a plain argument, so the
//! clock is consulted in exactly one place.

use vstd::prelude::*;

verus! {

/// Relies on chrono's `Utc::now` and `DateTime::timestamp`: the wall
/// clock, read as unix seconds.  Nothing is promised of the value.
/// (chrono itself refuses a host clock set before the epoch, so the
/// value is non-negative in practice; nothing here relies on that.)
#[verifier::external_body]
fn now_unix_seconds() -> i64 {
    chrono::Utc::now().timestamp()
}

/// A signed seconds count clamped to the unsigned range.
pub fn saturate_seconds(t: i64) -> (r: u64)
    ensures
        t >= 0 ==> r == t,
        t < 0 ==> r == 0,
{
    if t >= 0 {
        t as u64
    } else {
        0
    }
}

/// The wall clock, as non-negative unix seconds.
pub fn now_seconds() -> u64 {
    saturate_seconds(now_unix_seconds())
}

} // verus!
