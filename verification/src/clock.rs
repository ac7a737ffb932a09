//! The wall clock.

use vstd::prelude::*;
use crate::rule::Timestamp;

verus! {

/// The system time as chrono's `DateTime<Utc>` (`From<SystemTime>`), given as
/// seconds since the Unix epoch (`DateTime::timestamp`) and the nanoseconds
/// within that second (`DateTime::timestamp_subsec_nanos`). chrono turns a
/// time before 1970 into negative seconds and a nanosecond part below one
/// second, so the nanoseconds stay below one second either way. The instant
/// is the machine's clock, so nothing else ties it. chrono's conversion
/// unwraps only for instants beyond its range of about 262,000 years around
/// the epoch, which the system clocks of Linux and Windows cannot reach.
#[verifier::external_body]
pub(crate) fn current_time() -> (r: Timestamp)
    ensures
        r.nanos < 1_000_000_000,
{
    let now = chrono::DateTime::<chrono::Utc>::from(std::time::SystemTime::now());
    Timestamp { secs: now.timestamp(), nanos: now.timestamp_subsec_nanos() }
}

} // verus!
