//! Calls into the machine: the wall clock, the random source, identifier
//! generation, and the device probes used to detect hardware backends.
//! Every result here depends on the environment, so the contracts state only
//! what holds of every outcome.

use vstd::prelude::*;

verus! {

/// Relies on chrono::Utc::now().timestamp(): non-leap seconds since the Unix
/// epoch. chrono's DateTime is bounded to years within about +/-262000, so
/// the value stays well inside +/- 10^13.
#[verifier::external_body]
pub(crate) fn now_ts() -> (t: i64)
    ensures
        -10_000_000_000_000 <= t <= 10_000_000_000_000,
{
    chrono::Utc::now().timestamp()
}

/// Relies on rand::random: 32 bytes from the thread-local CSPRNG. Nothing is
/// promised of their values.
#[verifier::external_body]
pub(crate) fn random_bytes32() -> (r: Vec<u8>)
    ensures
        r@.len() == 32,
{
    let a: [u8; 32] = rand::random();
    a.to_vec()
}

/// Relies on uuid::Uuid::new_v4 and its hyphenated Display form: a random
/// version-4 UUID rendered as 36 characters. Nothing more is promised.
#[verifier::external_body]
pub(crate) fn uuid_string() -> (r: String)
    ensures
        r@.len() == 36,
{
    uuid::Uuid::new_v4().to_string()
}

/// Relies on std::path::Path::exists: whether the path names something on
/// this machine. Nothing is promised of the result.
#[verifier::external_body]
pub(crate) fn device_exists(path: &str) -> bool {
    std::path::Path::new(path).exists()
}

} // verus!
