//! Verified core of a mobile NDN node: the wire codec, the tunnel and relay
//! state machines, certificate enrolment, the engine's build plan, and the
//! bookkeeping behind the language bindings.
//!
//! Everything here is a function from plain values to plain values. Sockets,
//! clocks, tasks and the forwarder itself belong to the code around it.

pub mod bridge;
pub mod json;
pub mod json_text;
pub mod mobile;
pub mod name;
pub mod peer;
pub mod text;
pub mod tlv;
