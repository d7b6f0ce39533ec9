//! The wall clock, read through chrono. Nothing is assumed of the value: the
//! clock may jump either way, and everything built on it states only what
//! holds of every reading.

use vstd::prelude::*;

verus! {

/// Relies on chrono::Local::now and chrono::DateTime::timestamp_millis: the
/// current wall-clock instant as milliseconds since the epoch. No two
/// readings are related in any way the library depends on.
#[verifier::external_body]
pub fn now_millis() -> u64 {
    chrono::Local::now().timestamp_millis() as u64
}

} // verus!
