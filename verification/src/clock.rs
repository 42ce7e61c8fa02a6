//! The wall clock, read as whole seconds since the Unix epoch.

use vstd::prelude::*;

verus! {

/// Every reading of the clock lies strictly between `-CLOCK_BOUND` and
/// `CLOCK_BOUND`.
pub const CLOCK_BOUND: i64 = 0x1_0000_0000_0000;

/// What holds of every value the clock can return.
pub open spec fn is_clock_reading(now: i64) -> bool {
    -CLOCK_BOUND < now < CLOCK_BOUND
}

/// Calls `chrono::Utc::now().timestamp()`.
///
/// Trusted: the result is a 32-bit day count times 86 400 plus the second of
/// the day, so its magnitude stays below 2^48. Nothing else is claimed, and two
/// readings may differ in either direction. `Utc::now` panics when the system
/// clock is set before 1970.
#[verifier::external_body]
fn unix_now() -> (now: i64)
    ensures
        is_clock_reading(now),
{
    chrono::Utc::now().timestamp()
}

/// The current time in seconds since the Unix epoch.
pub fn current_time() -> (now: i64)
    ensures
        is_clock_reading(now),
{
    unix_now()
}

} // verus!
