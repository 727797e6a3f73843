//! The environment sources the core consumes: fresh unique identifiers,
//! fresh secrets, and the current time. Each is a thin trusted boundary
//! around an outside call; nothing is promised of the values beyond what
//! holds of every outcome, and every function that takes one of them in
//! does the rest under proof.

use vstd::prelude::*;

verus! {

/// Relies on `uuid::Uuid::new_v4` (and `Uuid::as_u128`, which repacks the
/// sixteen bytes): a freshly drawn random identifier. The value is random,
/// so nothing is stated about it; callers test it for collisions.
#[verifier::external_body]
pub(crate) fn fresh_id() -> (r: u128) {
    uuid::Uuid::new_v4().as_u128()
}

/// Relies on `uuid::Uuid::new_v4` and uuid's `Display` impl, whose
/// hyphenated form is 36 characters: a freshly drawn random secret. The
/// value is random, so only its length is stated.
#[verifier::external_body]
pub(crate) fn fresh_secret() -> (r: String)
    ensures
        r@.len() == 36,
{
    uuid::Uuid::new_v4().to_string()
}

/// Relies on `std::time::SystemTime::now` and `duration_since`: seconds
/// since the Unix epoch by the machine clock, and zero should the clock
/// stand before the epoch. The value depends on the machine, so nothing is
/// stated about it.
#[verifier::external_body]
pub(crate) fn now_seconds() -> (r: u64) {
    match std::time::SystemTime::now().duration_since(std::time::UNIX_EPOCH) {
        Ok(d) => d.as_secs(),
        Err(_) => 0,
    }
}

} // verus!
