//! Trusted-execution-environment (TEE) core: enclave sealing, remote
//! attestation, durable sealed storage, and an attested secure channel.
//!
//! The enclave seals byte data under a derived sealing key, attestation
//! produces and verifies quotes of enclave identity against a policy, sealed
//! storage keeps records decryptable across process restarts, and the secure
//! channel performs mutual attestation, derives a shared session key, and
//! exchanges replay-protected encrypted messages.

use vstd::prelude::*;

pub mod attestation;
pub mod bytesutil;
pub mod commitment;
pub mod enclave;
pub mod hashing;
pub mod keystream;
pub mod platform;
pub mod sealed_storage;
pub mod secure_channel;
pub mod storemap;

verus! {

/// Kinds of failure surfaced by every enclave, storage and channel operation.
#[derive(Debug, Clone)]
pub enum TeeError {
    BackendUnavailable(String),
    KeyNotFound(String),
    SealingError(String),
    IntegrityError(String),
    AttestationError(String),
    EnclaveError(String),
}

} // verus!
