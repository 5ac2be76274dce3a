//! The wall clock, behind one trusted call.  All engine functions take
//! the current time as an explicit argument; this is where callers get
//! it.

use vstd::prelude::*;

verus! {

/// Relies on chrono's `Utc::now` and `DateTime::timestamp`: the seconds
/// since the unix epoch, by the machine's clock.  Nothing is promised of
/// the value: the clock can read anything.
#[verifier::external_body]
fn now_unix_seconds() -> i64 {
    chrono::Utc::now().timestamp()
}

/// The current unix time, clamped to be non-negative so that the
/// bucket arithmetic of the freshness windows is well defined.
pub fn current_time() -> (t: i64)
    ensures
        t >= 0,
{
    let n = now_unix_seconds();
    if n < 0 {
        0
    } else {
        n
    }
}

} // verus!
