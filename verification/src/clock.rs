//! Identifiers and timestamps, which come from the machine.

use vstd::prelude::*;

verus! {

/// Calls `uuid::Uuid::new_v4` and renders the id with `to_string`, which writes
/// the hyphenated form of 36 characters. Nothing else is promised of the id.
#[verifier::external_body]
pub(crate) fn new_uuid_string() -> (r: String)
    ensures
        r@.len() == 36,
{
    uuid::Uuid::new_v4().to_string()
}

/// Calls `chrono::Utc::now` and returns its `timestamp`, the seconds since the
/// Unix epoch. Nothing is promised of the value.
#[verifier::external_body]
pub(crate) fn unix_timestamp_now() -> i64 {
    chrono::Utc::now().timestamp()
}

} // verus!
