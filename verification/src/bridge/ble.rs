//! The seam to a BLE advertising radio. A name inside the frame does the
//! addressing; the sender's address and the signal strength are hints.

use crate::bridge::radio::{address_of, address_view, link_address, signal_strength};
use vstd::prelude::*;

verus! {

/// How many scanned frames wait for the face. The same advertisement is
/// reported many times a second, so frames beyond this are dropped.
pub const SCAN_QUEUE_CAP: usize = 256;

/// The platform's BLE radio.
pub trait NdnBleBackend: Send + Sync {
    /// Transmits `frame` as an advertisement to every scanner in range.
    fn broadcast(&self, frame: Vec<u8>);
}

/// One scanned advertisement.
#[derive(Clone, Debug, PartialEq, Eq)]
pub struct ScannedFrame {
    pub frame: Vec<u8>,
    pub addr: Option<[u8; 6]>,
    pub rssi_dbm: Option<i8>,
}

/// A scanned advertisement as the radio reports it: `addr` may be anything but
/// an address, and an `rssi` of zero is unknown.
pub fn scanned_frame(frame: Vec<u8>, addr: &Vec<u8>, rssi: i32) -> (scanned: ScannedFrame)
    ensures
        scanned.frame == frame,
        address_view(scanned.addr) == address_of(addr@),
        scanned.rssi_dbm is Some <==> rssi != 0 && -128 <= rssi <= 127,
        scanned.rssi_dbm matches Some(dbm) ==> dbm == rssi,
{
    ScannedFrame { frame, addr: link_address(addr), rssi_dbm: signal_strength(rssi) }
}

} // verus!
