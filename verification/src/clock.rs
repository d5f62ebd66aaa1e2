use vstd::prelude::*;

verus! {

/// Relies on chrono's `Utc::now` and `DateTime::timestamp`: reads the wall
/// clock and returns it as whole seconds since the Unix epoch.  Nothing can be
/// promised of the value; callers hand it to a verified function that is
/// correct for every reading.
#[verifier::external_body]
pub fn now_unix() -> i64 {
    chrono::Utc::now().timestamp()
}

} // verus!
