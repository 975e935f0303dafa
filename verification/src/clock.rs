//! The wall clock. Nothing is known of what it reads, so every function of the
//! library that depends on the time has a twin that takes the time as an argument.

use std::time::{SystemTime, UNIX_EPOCH};
use vstd::prelude::*;

verus! {

/// Milliseconds since the Unix epoch, as `SystemTime::now` of the standard library
/// reads them; `0` if the clock stands before the epoch. Nothing is claimed of the
/// value.
#[verifier::external_body]
pub fn now_millis() -> u64 {
    SystemTime::now().duration_since(UNIX_EPOCH).unwrap_or_default().as_millis() as u64
}

/// Whole seconds since the Unix epoch, read from the same clock; `0` if the clock
/// stands before the epoch. Nothing is claimed of the value.
#[verifier::external_body]
pub(crate) fn now_secs() -> u64 {
    SystemTime::now().duration_since(UNIX_EPOCH).unwrap_or_default().as_secs()
}

} // verus!
