//! Callback interfaces that the host implements and hands to the blocking
//! `serve`, `subscribe`, enrolment and signing calls. Nothing is promised of
//! what a host returns.

use crate::bridge::types::NdnSample;
use vstd::prelude::*;

verus! {

/// Answers Interests under a served prefix: `Some(payload)` satisfies the
/// Interest, `None` drops it.
pub trait NdnInterestHandler: Send + Sync {
    fn handle_interest(&self, name: String) -> Option<Vec<u8>>;
}

/// Receives publications from a subscribed sync group.
pub trait NdnSampleHandler: Send + Sync {
    fn on_sample(&self, sample: NdnSample);
}

/// Supplies the out-of-band PIN during enrolment. Called once, and only after
/// the CA has asked for it.
pub trait NdnPinHandler: Send + Sync {
    fn provide_pin(&self, request_id: String) -> String;
}

/// The user-verification gate of the signing responder. `summary` is rendered
/// from the region to be signed, so that what the user approves is what gets
/// signed.
pub trait NdnApprovalGate: Send + Sync {
    fn approve(&self, summary: String) -> bool;
}

/// The recovery key of the secure restore path. An empty vector refuses.
pub trait NdnRecoverySigner: Send + Sync {
    fn sign(&self, challenge: Vec<u8>) -> Vec<u8>;
}

/// A signing key held in the device enclave.
pub trait NdnEnclaveBackend: Send + Sync {
    /// Whether the key is usable right now.
    fn is_available(&self) -> bool;

    /// The public key as SPKI DER or as a raw SEC1 point; empty if unavailable.
    fn public_key(&self) -> Vec<u8>;

    /// Signs `region` inside the enclave; empty to refuse or on error.
    fn sign(&self, region: Vec<u8>) -> Vec<u8>;
}

} // verus!
