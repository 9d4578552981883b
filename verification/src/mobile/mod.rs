//! The embedded forwarder's own logic.

pub mod builder;
pub mod engine;
pub mod enroll;
pub mod object_relay;
pub mod supervisor;
pub mod tun;
