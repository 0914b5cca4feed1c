use vstd::prelude::*;

use crate::models::Timestamp;

verus! {

/// The current time, `chrono::Utc::now()`, read as its `timestamp()` and
/// `timestamp_subsec_nanos()`. Nothing is stated of the value: it is
/// whatever the clock reads.
#[verifier::external_body]
pub(crate) fn now_utc() -> Timestamp {
    let now = chrono::Utc::now();
    Timestamp { secs: now.timestamp(), nanos: now.timestamp_subsec_nanos() }
}

} // verus!
