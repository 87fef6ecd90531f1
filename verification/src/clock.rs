//! The one window onto the clock: the current instant as an RFC3339 string.

use vstd::prelude::*;

verus! {

/// Relies on chrono's `Utc::now().to_rfc3339()`: the current instant in UTC
/// as an RFC3339 timestamp string. The result depends on the clock, so
/// nothing is promised of it beyond being non-empty. chrono itself panics
/// when the system clock reads before the Unix epoch.
#[verifier::external_body]
pub fn now_rfc3339() -> (r: String)
    ensures
        r@.len() > 0,
{
    chrono::Utc::now().to_rfc3339()
}

} // verus!
