//! The settings of an engine, one by one. Each changes what it names and leaves
//! the rest alone.

use crate::mobile::engine::{
    mobile_low_retention, ClientTls, MobileEngineBuilder, MobileStrategy, SecurityProfile,
    SpanRetention, WifiAwareBindings,
};
use crate::mobile::tun::TunConfig;
use crate::name::{text_component, ComponentView, Name};
use vstd::prelude::*;

verus! {

/// Where a node's own trace is served.
pub open spec fn observability_prefix() -> Seq<ComponentView> {
    seq![text_component("localhost"@), text_component("nfd"@), text_component("observability"@)]
}

impl MobileEngineBuilder {
    pub fn cs_capacity_mb(self, mb: usize) -> (b: MobileEngineBuilder)
        ensures
            b == (MobileEngineBuilder { cs_capacity_mb: mb, ..self }),
    {
        MobileEngineBuilder { cs_capacity_mb: mb, ..self }
    }

    pub fn security_profile(self, p: SecurityProfile) -> (b: MobileEngineBuilder)
        ensures
            b == (MobileEngineBuilder { security_profile: p, ..self }),
    {
        MobileEngineBuilder { security_profile: p, ..self }
    }

    /// At least one thread. A single one keeps wake-ups low.
    pub fn pipeline_threads(self, n: usize) -> (b: MobileEngineBuilder)
        ensures
            b.pipeline_threads == (if n == 0 {
                1
            } else {
                n
            }),
            b == (MobileEngineBuilder { pipeline_threads: b.pipeline_threads, ..self }),
    {
        let pipeline_threads: usize = if n == 0 {
            1
        } else {
            n
        };
        MobileEngineBuilder { pipeline_threads, ..self }
    }

    /// The root forwarding strategy.
    pub fn with_strategy(self, strategy: MobileStrategy) -> (b: MobileEngineBuilder)
        ensures
            b == (MobileEngineBuilder { strategy, ..self }),
    {
        MobileEngineBuilder { strategy, ..self }
    }

    /// Joins NDN multicast on `iface`.
    pub fn with_udp_multicast(self, iface: String) -> (b: MobileEngineBuilder)
        ensures
            b == (MobileEngineBuilder { multicast_iface: Some(iface), ..self }),
    {
        MobileEngineBuilder { multicast_iface: Some(iface), ..self }
    }

    pub fn with_unicast_peer(self, addr: String) -> (b: MobileEngineBuilder)
        ensures
            b.unicast_peers@ == self.unicast_peers@.push(addr),
            b == (MobileEngineBuilder { unicast_peers: b.unicast_peers, ..self }),
    {
        let mut b = self;
        b.unicast_peers.push(addr);
        b
    }

    /// A persistent TCP face to a router or gateway.
    pub fn with_tcp_peer(self, addr: String) -> (b: MobileEngineBuilder)
        ensures
            b.tcp_peers@ == self.tcp_peers@.push(addr),
            b == (MobileEngineBuilder { tcp_peers: b.tcp_peers, ..self }),
    {
        let mut b = self;
        b.tcp_peers.push(addr);
        b
    }

    /// A persistent WebSocket face.
    pub fn with_websocket_peer(self, url: String) -> (b: MobileEngineBuilder)
        ensures
            b.ws_peers@ == self.ws_peers@.push(url),
            b == (MobileEngineBuilder { ws_peers: b.ws_peers, ..self }),
    {
        let mut b = self;
        b.ws_peers.push(url);
        b
    }

    /// A serial face.
    pub fn with_serial(self, port: String, baud: u32) -> (b: MobileEngineBuilder)
        ensures
            b.serial_ports@ == self.serial_ports@.push((port, baud)),
            b == (MobileEngineBuilder { serial_ports: b.serial_ports, ..self }),
    {
        let mut b = self;
        b.serial_ports.push((port, baud));
        b
    }

    /// A WebTransport face.
    pub fn with_webtransport_peer(self, url: String, tls: ClientTls) -> (b: MobileEngineBuilder)
        ensures
            b.webtransport_peers@ == self.webtransport_peers@.push((url, tls)),
            b == (MobileEngineBuilder { webtransport_peers: b.webtransport_peers, ..self }),
    {
        let mut b = self;
        b.webtransport_peers.push((url, tls));
        b
    }

    /// Accepts local connections at `path`.
    pub fn with_ipc_listener(self, path: String) -> (b: MobileEngineBuilder)
        ensures
            b == (MobileEngineBuilder { ipc_listen_path: Some(path), ..self }),
    {
        MobileEngineBuilder { ipc_listen_path: Some(path), ..self }
    }

    /// Mounts management, open to whoever reaches it.
    pub fn with_management(self) -> (b: MobileEngineBuilder)
        ensures
            b == (MobileEngineBuilder { enable_management: true, ..self }),
    {
        MobileEngineBuilder { enable_management: true, ..self }
    }

    /// Mounts management for signed commands only.
    pub fn with_management_secured(self) -> (b: MobileEngineBuilder)
        ensures
            b == (MobileEngineBuilder { enable_management: true, secured_mgmt: true, ..self }),
    {
        MobileEngineBuilder { enable_management: true, secured_mgmt: true, ..self }
    }

    pub fn with_log_inspector(self) -> (b: MobileEngineBuilder)
        ensures
            b == (MobileEngineBuilder { log_inspector: true, ..self }),
    {
        MobileEngineBuilder { log_inspector: true, ..self }
    }

    pub fn with_compute_mgmt_backend(self) -> (b: MobileEngineBuilder)
        ensures
            b == (MobileEngineBuilder { compute_mgmt_backend: true, ..self }),
    {
        MobileEngineBuilder { compute_mgmt_backend: true, ..self }
    }

    /// Serves the node's trace at the usual place, with a phone's retention.
    pub fn with_observability(self) -> (b: MobileEngineBuilder)
        ensures
            b.observability matches Some((prefix, _)) && prefix@ == seq![
                crate::name::ComponentView::Generic(vstd::utf8::encode_utf8("localhost"@)),
                crate::name::ComponentView::Generic(vstd::utf8::encode_utf8("nfd"@)),
                crate::name::ComponentView::Generic(vstd::utf8::encode_utf8("observability"@)),
            ],
            b.observability matches Some((prefix, retention)) && prefix@ == observability_prefix()
                && retention == (SpanRetention {
                window_secs: 300,
                max_bytes: 0x10_0000,
                max_spans: 1000,
            }),
            b == (MobileEngineBuilder { observability: b.observability, ..self }),
    {
        let prefix: Name = Name::root().append_str("localhost").append_str("nfd").append_str(
            "observability",
        );
        assert(prefix@ =~= observability_prefix());
        MobileEngineBuilder { observability: Some((prefix, mobile_low_retention())), ..self }
    }

    pub fn with_observability_config(self, prefix: Name, retention: SpanRetention) -> (b:
        MobileEngineBuilder)
        ensures
            b == (MobileEngineBuilder { observability: Some((prefix, retention)), ..self }),
    {
        MobileEngineBuilder { observability: Some((prefix, retention)), ..self }
    }

    /// One more routing protocol.
    pub fn with_routing_protocol(self) -> (b: MobileEngineBuilder)
        requires
            self.routing_protocols < usize::MAX,
        ensures
            b == (MobileEngineBuilder {
                routing_protocols: (self.routing_protocols + 1) as usize,
                ..self
            }),
    {
        let routing_protocols: usize = self.routing_protocols + 1;
        MobileEngineBuilder { routing_protocols, ..self }
    }

    /// Mounts the Wi-Fi Aware coordination face, without bindings.
    pub fn with_wifi_aware(self) -> (b: MobileEngineBuilder)
        ensures
            b.wifi_aware matches Some(nan) && nan.discover@.len() == 0 && nan.advertise@.len() == 0,
            b == (MobileEngineBuilder { wifi_aware: b.wifi_aware, ..self }),
    {
        MobileEngineBuilder {
            wifi_aware: Some(WifiAwareBindings { discover: Vec::new(), advertise: Vec::new() }),
            ..self
        }
    }

    /// Looks for `service` and routes `prefix` to whoever offers it. Does
    /// nothing without Wi-Fi Aware.
    pub fn wifi_aware_discover(self, service: String, prefix: Name) -> (b: MobileEngineBuilder)
        ensures
            match self.wifi_aware {
                None => b == self,
                Some(nan) => b.wifi_aware matches Some(bound) && bound.discover@
                    == nan.discover@.push((service, prefix)) && bound.advertise == nan.advertise,
            },
            b == (MobileEngineBuilder { wifi_aware: b.wifi_aware, ..self }),
    {
        let mut b = self;
        match b.wifi_aware {
            None => {
                b.wifi_aware = None;
            },
            Some(bindings) => {
                let mut nan = bindings;
                nan.discover.push((service, prefix));
                b.wifi_aware = Some(nan);
            },
        }
        b
    }

    /// Offers `service`. Does nothing without Wi-Fi Aware.
    pub fn wifi_aware_advertise(self, service: String) -> (b: MobileEngineBuilder)
        ensures
            match self.wifi_aware {
                None => b == self,
                Some(nan) => b.wifi_aware matches Some(bound) && bound.advertise@
                    == nan.advertise@.push(service) && bound.discover == nan.discover,
            },
            b == (MobileEngineBuilder { wifi_aware: b.wifi_aware, ..self }),
    {
        let mut b = self;
        match b.wifi_aware {
            None => {
                b.wifi_aware = None;
            },
            Some(bindings) => {
                let mut nan = bindings;
                nan.advertise.push(service);
                b.wifi_aware = Some(nan);
            },
        }
        b
    }

    /// Uses the host's discovery protocol.
    pub fn with_discovery_protocol(self) -> (b: MobileEngineBuilder)
        ensures
            b == (MobileEngineBuilder { discovery_protocol: true, ..self }),
    {
        MobileEngineBuilder { discovery_protocol: true, ..self }
    }

    /// Mounts an in-process compute face at `prefix`.
    pub fn with_compute(self, prefix: Name) -> (b: MobileEngineBuilder)
        ensures
            b == (MobileEngineBuilder { compute_prefix: Some(prefix), ..self }),
    {
        MobileEngineBuilder { compute_prefix: Some(prefix), ..self }
    }

    /// Limits rates, from the given policy or from an empty table.
    pub fn with_rate_limit(self, policy_toml: Option<String>) -> (b: MobileEngineBuilder)
        ensures
            b == (MobileEngineBuilder { rate_limit: Some(policy_toml), ..self }),
    {
        MobileEngineBuilder { rate_limit: Some(policy_toml), ..self }
    }

    pub fn with_fec(self) -> (b: MobileEngineBuilder)
        ensures
            b == (MobileEngineBuilder { enable_fec: true, ..self }),
    {
        MobileEngineBuilder { enable_fec: true, ..self }
    }

    /// Mounts the VPN datapath.
    pub fn with_tun(self, config: TunConfig) -> (b: MobileEngineBuilder)
        ensures
            b == (MobileEngineBuilder { tun_config: Some(config), ..self }),
    {
        MobileEngineBuilder { tun_config: Some(config), ..self }
    }

    /// Sends Hello probes as `node_name`, provided that there is a multicast
    /// face.
    pub fn with_discovery(self, node_name: Name) -> (b: MobileEngineBuilder)
        ensures
            b == (MobileEngineBuilder { node_name: Some(node_name), ..self }),
    {
        MobileEngineBuilder { node_name: Some(node_name), ..self }
    }

    /// Keeps the content store on disk.
    pub fn with_persistent_cs(self, path: String) -> (b: MobileEngineBuilder)
        ensures
            b == (MobileEngineBuilder { persistent_cs_path: Some(path), ..self }),
    {
        MobileEngineBuilder { persistent_cs_path: Some(path), ..self }
    }
}

} // verus!
