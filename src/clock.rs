//! Server time.
use vstd::prelude::*;

verus! {

/// Seconds in a day.
pub const SECONDS_PER_DAY: i64 = 86400;

/// Relies on chrono's `Utc::now` and `DateTime::timestamp`: the current
/// time in whole seconds since the Unix epoch (`Utc::now` panics rather
/// than report a clock set before the epoch).
#[verifier::external_body]
pub(crate) fn now_timestamp() -> (r: i64)
    ensures
        r >= 0,
{
    chrono::Utc::now().timestamp()
}

} // verus!
