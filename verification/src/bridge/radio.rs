//! What the radio seams share: link-layer hints that come with a frame, and what
//! a route over each kind of link costs.

use crate::mobile::engine::{FaceId, Route, RouteView};
use crate::name::Name;
use crate::text;
use vstd::prelude::*;

verus! {

/// A link-layer address, from bytes that are exactly one.
pub open spec fn address_of(bytes: Seq<u8>) -> Option<Seq<u8>> {
    if bytes.len() == 6 {
        Some(bytes)
    } else {
        None
    }
}

/// The view of an optional address.
pub open spec fn address_view(addr: Option<[u8; 6]>) -> Option<Seq<u8>> {
    match addr {
        Some(addr) => Some(addr@),
        None => None,
    }
}

/// A link-layer address, where `bytes` is one; nothing is cut or filled up.
pub fn link_address(bytes: &Vec<u8>) -> (addr: Option<[u8; 6]>)
    ensures
        address_view(addr) == address_of(bytes@),
        addr is Some <==> bytes@.len() == 6,
        addr matches Some(octets) ==> octets@ == bytes@,
{
    if bytes.len() == 6 {
        let addr: [u8; 6] = [bytes[0], bytes[1], bytes[2], bytes[3], bytes[4], bytes[5]];
        assert(addr@ =~= bytes@);
        Some(addr)
    } else {
        None
    }
}

/// A signal strength in dBm, where it is known: zero means unknown, and so does
/// what no radio reports.
pub fn signal_strength(rssi: i32) -> (dbm: Option<i8>)
    ensures
        match dbm {
            Some(r) => r == rssi && r != 0,
            None => rssi == 0 || rssi < -128 || rssi > 127,
        },
{
    if rssi == 0 || rssi < -128 || rssi > 127 {
        None
    } else {
        Some(rssi as i8)
    }
}

/// The kinds of link that are attached while a node runs.
#[derive(Clone, Copy, Debug, PartialEq, Eq, Structural)]
pub enum LinkKind {
    /// A Wi-Fi Direct group.
    WifiDirect,
    /// A Wi-Fi Aware data path, or UDP on a shared network.
    Udp,
    /// The connectionless Wi-Fi Aware radio.
    WifiAware,
    /// BLE advertising.
    Ble,
}

/// What a route over a link costs.
pub open spec fn cost_of(kind: LinkKind) -> u32 {
    match kind {
        LinkKind::WifiDirect => 8,
        LinkKind::Udp => 10,
        LinkKind::WifiAware => 20,
        LinkKind::Ble => 50,
    }
}

/// What a route over a link costs.
pub fn link_cost(kind: LinkKind) -> (cost: u32)
    ensures
        cost == cost_of(kind),
        kind == LinkKind::WifiDirect ==> cost == 8,
        kind == LinkKind::Udp ==> cost == 10,
        kind == LinkKind::WifiAware ==> cost == 20,
        kind == LinkKind::Ble ==> cost == 50,
{
    match kind {
        LinkKind::WifiDirect => 8,
        LinkKind::Udp => 10,
        LinkKind::WifiAware => 20,
        LinkKind::Ble => 50,
    }
}

/// The faster link is preferred: bulk traffic moves onto Wi-Fi Direct before
/// other UDP links, and onto either before the connectionless radios.
pub proof fn law_faster_links_cost_less()
    ensures
        cost_of(LinkKind::WifiDirect) < cost_of(LinkKind::Udp),
        cost_of(LinkKind::Udp) < cost_of(LinkKind::WifiAware),
        cost_of(LinkKind::WifiAware) < cost_of(LinkKind::Ble),
{
}

/// The route that sends `prefix` over the link at `face_id`.
pub fn link_route(prefix: Name, kind: LinkKind, face_id: FaceId) -> (route: Route)
    ensures
        route@ == (RouteView { prefix: prefix@, face_id, cost: cost_of(kind) }),
        route.prefix == prefix,
        route.face_id == face_id,
{
    Route { prefix, face_id, cost: link_cost(kind) }
}

/// The radio that a beacon names.
pub open spec fn radio_of(face: Seq<char>) -> Option<LinkKind> {
    if face == "wifi-aware"@ {
        Some(LinkKind::WifiAware)
    } else if face == "ble"@ {
        Some(LinkKind::Ble)
    } else {
        None
    }
}

/// The radio that a beacon names, if it is one that is routed to.
pub fn radio_named(face: &str) -> (kind: Option<LinkKind>)
    ensures
        kind == radio_of(face@),
        kind == Some(LinkKind::WifiAware) <==> face@ == "wifi-aware"@,
        kind == Some(LinkKind::Ble) <==> face@ == "ble"@,
        kind is Some ==> kind == Some(LinkKind::WifiAware) || kind == Some(LinkKind::Ble),
{
    proof {
        reveal_strlit("wifi-aware");
        reveal_strlit("ble");
        assert("wifi-aware"@.len() != "ble"@.len());
    }
    if text::same(face, "wifi-aware") {
        Some(LinkKind::WifiAware)
    } else if text::same(face, "ble") {
        Some(LinkKind::Ble)
    } else {
        None
    }
}

} // verus!
