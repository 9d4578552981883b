//! The node as a host in another language drives it.

pub mod ble;
pub mod client;
pub mod codec;
pub mod dashboard;
pub mod discovery;
pub mod engine;
pub mod handlers;
pub mod identity_core;
pub mod node;
pub mod offer;
pub mod radio;
pub mod recovery;
pub mod remote_signer_client;
pub mod sharing;
pub mod signing;
pub mod trust;
pub mod types;
pub mod wifi_aware;
