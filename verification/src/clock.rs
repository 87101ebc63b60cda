//! The wall clock.
use vstd::prelude::*;

verus! {

/// Calls chrono's conversion of `std::time::SystemTime::now()` into a
/// `DateTime<Utc>` and takes its `timestamp()`: the current time as whole
/// seconds since the Unix epoch, negative for a clock set before 1970.
/// Which time it is depends on when the call happens, so nothing is claimed
/// of it. (chrono's conversion panics only for a clock beyond the range of
/// its dates, millions of years away from today.)
#[verifier::external_body]
pub(crate) fn unix_timestamp() -> (t: i64) {
    chrono::DateTime::<chrono::Utc>::from(std::time::SystemTime::now()).timestamp()
}

} // verus!
