//! The single "current instant" source: every start/end comparison in
//! the library uses one reading of this clock per logical operation.

use vstd::prelude::*;

verus! {

/// Relies on chrono::Utc::now and DateTime::timestamp_millis: the
/// current time as a count of milliseconds since the Unix epoch.
/// Nothing is assumed of the value — a clock may be set backwards or
/// forwards freely between two readings. (Utc::now itself aborts on a
/// machine whose clock stands before the Unix epoch.)
#[verifier::external_body]
pub(crate) fn now_millis() -> i64 {
    chrono::Utc::now().timestamp_millis()
}

} // verus!
