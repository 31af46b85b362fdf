//! The wall clock.

use vstd::prelude::*;
use crate::reading::Timestamp;

verus! {

/// Reads the wall clock through `chrono::Utc::now`, and takes the result apart
/// with `DateTime::timestamp` and `DateTime::timestamp_subsec_nanos`.
///
/// Not proved: that the reading lies at or after the Unix epoch and that its
/// fraction is below one second. `Utc::now` builds its result from the time
/// elapsed since the epoch, whose sub-second part is below one second, and
/// does not return for a clock set before the epoch. Nothing else is claimed:
/// two readings may come in any order.
#[verifier::external_body]
pub(crate) fn current_time() -> (r: Timestamp)
    ensures
        r.secs >= 0,
        r.wf(),
{
    let t = chrono::Utc::now();
    Timestamp { secs: t.timestamp(), nanos: t.timestamp_subsec_nanos() }
}

} // verus!
