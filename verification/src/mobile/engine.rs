//! The embedded engine: what a builder's settings come to, which faces are
//! brought up under which ids, how a peer is kept connected, and what survives
//! suspension.

use crate::mobile::tun::TunConfig;
use crate::name::{ComponentView, Name};
use crate::text;
use vstd::prelude::*;

verus! {

/// Number of a face in the forwarder's face table.
pub type FaceId = u64;

/// Packets that may queue on an in-process face.
pub const APP_FACE_QUEUE: usize = 256;

/// Packets that may queue in the forwarding pipeline.
pub const PIPELINE_CHANNEL_CAP: usize = 1024;

/// Forwarding strategy installed at the root of the name tree.
#[derive(Clone, Copy, Debug, PartialEq, Eq, Structural)]
pub enum MobileStrategy {
    /// The single nexthop of lowest cost.
    BestRoute,
    /// Every viable nexthop.
    Multicast,
    /// Forwarding by signal strength.
    Cclf,
}

impl Default for MobileStrategy {
    fn default() -> (strategy: MobileStrategy)
        ensures
            strategy == MobileStrategy::BestRoute,
    {
        MobileStrategy::BestRoute
    }
}

/// How much of incoming Data the engine validates.
#[derive(Clone, Copy, Debug, PartialEq, Eq, Structural)]
pub enum SecurityProfile {
    Default,
    AcceptSigned,
    Disabled,
}

/// How the server of a WebTransport link is authenticated.
#[derive(Clone, Debug, PartialEq, Eq)]
pub enum ClientTls {
    /// By the hash of its certificate.
    CertHashes(Vec<[u8; 32]>),
    /// By the public certificate authorities.
    WebPki,
}

/// How to bring up the face to a peer. Addresses are `"<ip>:<port>"`.
#[derive(Clone, Debug, PartialEq, Eq)]
pub enum PeerSpec {
    UdpUnicast(String),
    Tcp(String),
    WebSocket(String),
    Serial(String, u32),
    WebTransport(String, ClientTls),
}

/// The URI under which a peer is shown.
pub open spec fn peer_uri(spec: PeerSpec) -> Seq<char> {
    match spec {
        PeerSpec::UdpUnicast(addr) => "udp4://"@ + addr@,
        PeerSpec::Tcp(addr) => "tcp4://"@ + addr@,
        PeerSpec::WebSocket(url) => url@,
        PeerSpec::Serial(port, baud) => "serial://"@ + port@ + "?baud="@ + text::decimal(
            baud as nat,
        ),
        PeerSpec::WebTransport(url, _) => url@,
    }
}

impl PeerSpec {
    /// The URI under which this peer is shown.
    pub fn uri(&self) -> (uri: String)
        ensures
            uri@ == peer_uri(*self),
            match *self {
                PeerSpec::UdpUnicast(addr) => uri@ == "udp4://"@ + addr@,
                PeerSpec::Tcp(addr) => uri@ == "tcp4://"@ + addr@,
                PeerSpec::WebSocket(url) => uri@ == url@,
                PeerSpec::Serial(port, baud) => uri@ == "serial://"@ + port@ + "?baud="@
                    + text::decimal(baud as nat),
                PeerSpec::WebTransport(url, _) => uri@ == url@,
            },
    {
        match self {
            PeerSpec::UdpUnicast(addr) => text::concat("udp4://", addr.as_str()),
            PeerSpec::Tcp(addr) => text::concat("tcp4://", addr.as_str()),
            PeerSpec::WebSocket(url) => url.clone(),
            PeerSpec::Serial(port, baud) => {
                let mut uri: String = text::concat3("serial://", port.as_str(), "?baud=");
                text::push_decimal(&mut uri, *baud as u64);
                uri
            },
            PeerSpec::WebTransport(url, _) => url.clone(),
        }
    }
}

/// A handle to a configured peer. Routes are pointed at a peer by this handle,
/// never by a raw face id.
#[derive(Clone, Debug, PartialEq, Eq)]
pub struct PeerRef {
    id: FaceId,
    uri: String,
}

impl PeerRef {
    /// The id of the face to the peer.
    pub closed spec fn face_id(&self) -> FaceId {
        self.id
    }

    /// The peer's URI.
    pub closed spec fn uri_view(&self) -> Seq<char> {
        self.uri@
    }

    /// The peer's URI.
    pub fn uri(&self) -> (uri: &str)
        ensures
            uri@ == self.uri_view(),
    {
        self.uri.as_str()
    }
}

/// How much of a node's own trace is kept.
#[derive(Clone, Copy, Debug, PartialEq, Eq, Structural)]
pub struct SpanRetention {
    pub window_secs: u64,
    pub max_bytes: u64,
    pub max_spans: u64,
}

/// Retention that suits a phone: five minutes, one mebibyte, a thousand spans.
pub fn mobile_low_retention() -> (retention: SpanRetention)
    ensures
        retention == (SpanRetention { window_secs: 300, max_bytes: 0x10_0000, max_spans: 1000 }),
{
    SpanRetention { window_secs: 300, max_bytes: 0x10_0000, max_spans: 1000 }
}

/// Service discovery over Wi-Fi Aware: what to look for, with the prefix to
/// route there, and what to offer.
#[derive(Clone, Debug, PartialEq, Eq)]
pub struct WifiAwareBindings {
    pub discover: Vec<(String, Name)>,
    pub advertise: Vec<String>,
}

/// The settings of an engine. Objects that the host owns (protocols, signers,
/// backends) are represented by whether they were given.
#[derive(Clone, Debug, PartialEq, Eq)]
pub struct MobileEngineBuilder {
    pub cs_capacity_mb: usize,
    pub security_profile: SecurityProfile,
    /// The local IPv4 address that joins the multicast group.
    pub multicast_iface: Option<String>,
    pub unicast_peers: Vec<String>,
    pub tcp_peers: Vec<String>,
    pub ws_peers: Vec<String>,
    pub serial_ports: Vec<(String, u32)>,
    pub webtransport_peers: Vec<(String, ClientTls)>,
    pub ipc_listen_path: Option<String>,
    pub routing_protocols: usize,
    pub discovery_protocol: bool,
    pub node_name: Option<Name>,
    pub strategy: MobileStrategy,
    pub pipeline_threads: usize,
    pub enable_management: bool,
    pub secured_mgmt: bool,
    pub log_inspector: bool,
    pub compute_mgmt_backend: bool,
    pub wifi_aware: Option<WifiAwareBindings>,
    pub observability: Option<(Name, SpanRetention)>,
    pub compute_prefix: Option<Name>,
    /// `Some` enables rate limiting; the policy inside is optional.
    pub rate_limit: Option<Option<String>>,
    pub enable_fec: bool,
    pub tun_config: Option<TunConfig>,
    pub persistent_cs_path: Option<String>,
}

/// Whether `b` holds the settings that suit a phone: an 8 MB store, one
/// pipeline thread, full validation, best-route forwarding, and nothing else.
pub open spec fn is_default_builder(b: MobileEngineBuilder) -> bool {
    &&& b.cs_capacity_mb == 8
    &&& b.security_profile == SecurityProfile::Default
    &&& b.multicast_iface is None
    &&& b.unicast_peers@.len() == 0
    &&& b.tcp_peers@.len() == 0
    &&& b.ws_peers@.len() == 0
    &&& b.serial_ports@.len() == 0
    &&& b.webtransport_peers@.len() == 0
    &&& b.ipc_listen_path is None
    &&& b.routing_protocols == 0
    &&& !b.discovery_protocol
    &&& b.node_name is None
    &&& b.strategy == MobileStrategy::BestRoute
    &&& b.pipeline_threads == 1
    &&& !b.enable_management
    &&& !b.secured_mgmt
    &&& !b.log_inspector
    &&& !b.compute_mgmt_backend
    &&& b.wifi_aware is None
    &&& b.observability is None
    &&& b.compute_prefix is None
    &&& b.rate_limit is None
    &&& !b.enable_fec
    &&& b.tun_config is None
    &&& b.persistent_cs_path is None
}

impl Default for MobileEngineBuilder {
    fn default() -> (builder: MobileEngineBuilder)
        ensures
            is_default_builder(builder),
            builder.cs_capacity_mb == 8,
            builder.pipeline_threads == 1,
            builder.security_profile == SecurityProfile::Default,
            builder.strategy == MobileStrategy::BestRoute,
            !builder.enable_management && !builder.secured_mgmt,
            builder.multicast_iface is None && builder.node_name is None,
            !builder.discovery_protocol && !builder.enable_fec,
            builder.unicast_peers@.len() == 0 && builder.tcp_peers@.len() == 0,
            builder.ws_peers@.len() == 0 && builder.webtransport_peers@.len() == 0,
            builder.serial_ports@.len() == 0 && builder.routing_protocols == 0,
            builder.wifi_aware is None && builder.observability is None,
            builder.compute_prefix is None && builder.rate_limit is None,
            builder.tun_config is None && builder.persistent_cs_path is None,
            builder.ipc_listen_path is None && !builder.log_inspector,
            !builder.compute_mgmt_backend,
    {
        MobileEngineBuilder {
            cs_capacity_mb: 8,
            security_profile: SecurityProfile::Default,
            multicast_iface: None,
            unicast_peers: Vec::new(),
            tcp_peers: Vec::new(),
            ws_peers: Vec::new(),
            serial_ports: Vec::new(),
            webtransport_peers: Vec::new(),
            ipc_listen_path: None,
            routing_protocols: 0,
            discovery_protocol: false,
            node_name: None,
            strategy: MobileStrategy::BestRoute,
            pipeline_threads: 1,
            enable_management: false,
            secured_mgmt: false,
            log_inspector: false,
            compute_mgmt_backend: false,
            wifi_aware: None,
            observability: None,
            compute_prefix: None,
            rate_limit: None,
            enable_fec: false,
            tun_config: None,
            persistent_cs_path: None,
        }
    }
}

/// Which protocol discovers neighbours.
#[derive(Clone, Debug, PartialEq, Eq)]
pub enum DiscoveryChoice {
    /// The one that the host supplied.
    Custom,
    /// Publish and subscribe over Wi-Fi Aware.
    Nan,
    /// Hello probes under this node name.
    Hello(Name),
    /// None.
    Off,
}

/// Whether any Wi-Fi Aware service is to be found or offered.
pub open spec fn has_nan_bindings(b: MobileEngineBuilder) -> bool {
    b.wifi_aware matches Some(nan) && (nan.discover@.len() > 0 || nan.advertise@.len() > 0)
}

/// Whether `choice` is how the engine discovers neighbours: a protocol of the
/// host goes first, then Wi-Fi Aware where it has bindings, then Hello probes.
/// Probes need a node name and a multicast face to go out on; without the face
/// they are silently left out.
pub open spec fn is_discovery_choice(choice: DiscoveryChoice, b: MobileEngineBuilder) -> bool {
    if b.discovery_protocol {
        choice is Custom
    } else if has_nan_bindings(b) {
        choice is Nan
    } else {
        match b.node_name {
            Some(name) if b.multicast_iface is Some => choice matches DiscoveryChoice::Hello(n)
                && n@ == name@,
            _ => choice is Off,
        }
    }
}

/// Where the on-disk content store is kept.
#[derive(Clone, Copy, Debug, PartialEq, Eq, Structural)]
pub enum CsBackend {
    Sqlite,
    Fjall,
}

/// Which on-disk store is used among those built in. Fjall is preferred, except
/// on Android, where it cannot lock its directory.
pub fn cs_backend(has_sqlite: bool, has_fjall: bool, android: bool) -> (backend: Option<CsBackend>)
    ensures
        backend == (if has_sqlite && (android || !has_fjall) {
            Some(CsBackend::Sqlite)
        } else if has_fjall {
            Some(CsBackend::Fjall)
        } else {
            None::<CsBackend>
        }),
{
    if has_sqlite && (android || !has_fjall) {
        Some(CsBackend::Sqlite)
    } else if has_fjall {
        Some(CsBackend::Fjall)
    } else {
        None
    }
}

/// The message where an on-disk store cannot be opened.
pub fn cs_open_error(backend: CsBackend, path: &str, why: &str) -> (msg: String)
    ensures
        msg@ == match backend {
            CsBackend::Sqlite => "failed to open SQLite CS at "@,
            CsBackend::Fjall => "failed to open persistent CS at "@,
        } + path@ + ": "@ + why@,
{
    let head: &str = match backend {
        CsBackend::Sqlite => "failed to open SQLite CS at ",
        CsBackend::Fjall => "failed to open persistent CS at ",
    };
    let at: String = text::concat3(head, path, ": ");
    text::concat(at.as_str(), why)
}

/// The message where a Wi-Fi Aware service cannot be bound.
pub fn nan_binding_error(publishing: bool, why: &str) -> (msg: String)
    ensures
        msg@ == (if publishing {
            "wifi-aware publish: "@
        } else {
            "wifi-aware subscribe: "@
        }) + why@,
{
    text::concat(
        if publishing {
            "wifi-aware publish: "
        } else {
            "wifi-aware subscribe: "
        },
        why,
    )
}

/// What a face is for.
#[derive(Clone, Copy, Debug, PartialEq, Eq, Structural)]
pub enum FaceRole {
    /// The default in-process application face.
    App,
    /// UDP multicast.
    Multicast,
    /// Wi-Fi Aware coordination.
    Nan,
    /// The peer at this place in the list of peers.
    Peer(usize),
    /// In-process compute.
    Compute,
}

/// Number of configured peers.
pub open spec fn peer_count(b: MobileEngineBuilder) -> nat {
    b.unicast_peers@.len() + b.tcp_peers@.len() + b.ws_peers@.len() + b.serial_ports@.len()
        + b.webtransport_peers@.len()
}

/// The configured peers in the order in which they get their face ids: UDP,
/// TCP, WebSocket, serial, WebTransport, each in the order of configuration.
pub open spec fn peer_specs(b: MobileEngineBuilder) -> Seq<PeerSpec> {
    b.unicast_peers@.map_values(|a: String| PeerSpec::UdpUnicast(a)) + b.tcp_peers@.map_values(
        |a: String| PeerSpec::Tcp(a),
    ) + b.ws_peers@.map_values(|u: String| PeerSpec::WebSocket(u)) + b.serial_ports@.map_values(
        |s: (String, u32)| PeerSpec::Serial(s.0, s.1),
    ) + b.webtransport_peers@.map_values(|w: (String, ClientTls)| PeerSpec::WebTransport(w.0, w.1))
}

/// Who may command the engine, and how.
#[derive(Clone, Copy, Debug, PartialEq, Eq, Structural)]
pub struct MgmtAccessPolicy {
    pub ephemeral_allowed: bool,
    pub localhop_disabled: bool,
    pub replay_window_secs: u64,
    pub require_signed_commands: bool,
}

/// How the management dispatcher is mounted.
#[derive(Clone, Copy, Debug, PartialEq, Eq, Structural)]
pub struct ManagementPlan {
    /// Commands are verified by the host's validator, and responses signed by
    /// the host's signer.
    pub authenticated: bool,
    pub require_signed_commands: bool,
    /// A cache of signature times refuses replayed commands.
    pub replay_cache: bool,
    pub runtime_policy: Option<MgmtAccessPolicy>,
    pub security_is_ephemeral: bool,
    /// The settings of the Hello probe can be queried.
    pub discovery_cfg: bool,
    pub log_inspector: bool,
    pub coding_handler: bool,
    pub rate_limit_handler: bool,
    pub compute_handler: bool,
    /// The route that the dispatcher claims for its link-local prefix is taken
    /// back, so that such commands go out to the gateway.
    pub clear_localhop_route: bool,
}

/// The dispatcher that the settings of `b` call for, where neighbours are
/// discovered by Hello probes or not. Secured management demands signed
/// commands, refuses replays, and locks the policy; open management does none
/// of it.
pub open spec fn management_plan(b: MobileEngineBuilder, hello: bool) -> Option<ManagementPlan> {
    if !b.enable_management {
        None
    } else {
        Some(
            ManagementPlan {
                authenticated: b.secured_mgmt,
                require_signed_commands: b.secured_mgmt,
                replay_cache: b.secured_mgmt,
                runtime_policy: if b.secured_mgmt {
                    Some(
                        MgmtAccessPolicy {
                            ephemeral_allowed: false,
                            localhop_disabled: true,
                            replay_window_secs: 120,
                            require_signed_commands: true,
                        },
                    )
                } else {
                    None
                },
                security_is_ephemeral: !b.secured_mgmt,
                discovery_cfg: hello,
                log_inspector: b.log_inspector,
                coding_handler: b.enable_fec,
                rate_limit_handler: b.rate_limit is Some,
                compute_handler: b.compute_mgmt_backend,
                clear_localhop_route: true,
            },
        )
    }
}

/// What to build an engine from.
#[derive(Clone, Debug, PartialEq, Eq)]
pub struct BuildPlan {
    pub cs_capacity_bytes: usize,
    pub pipeline_threads: usize,
    pub security_profile: SecurityProfile,
    pub strategy: MobileStrategy,
    pub persistent_cs_path: Option<String>,
    pub discovery: DiscoveryChoice,
    pub routing_protocols: usize,
    /// The faces that get an id, in the order in which they get it.
    pub roles: Vec<FaceRole>,
    pub multicast_iface: Option<String>,
    pub peers: Vec<PeerSpec>,
    pub wifi_aware: Option<WifiAwareBindings>,
    pub compute_prefix: Option<Name>,
    pub tun_config: Option<TunConfig>,
    pub observability: Option<(Name, SpanRetention)>,
    pub ipc_listen_path: Option<String>,
    pub rate_limit: Option<Option<String>>,
    pub enable_fec: bool,
    pub management: Option<ManagementPlan>,
}

/// The faces of an engine in the order in which they get their ids. The
/// application face comes first; the ids of the multicast face and of Wi-Fi
/// Aware are reserved before the engine runs, those of the peers after.
pub open spec fn face_roles(multicast: bool, nan: bool, peers: nat, compute: bool) -> Seq<FaceRole> {
    seq![FaceRole::App] + (if multicast {
        seq![FaceRole::Multicast]
    } else {
        seq![]
    }) + (if nan {
        seq![FaceRole::Nan]
    } else {
        seq![]
    }) + Seq::new(peers, |i: int| FaceRole::Peer(i as usize)) + (if compute {
        seq![FaceRole::Compute]
    } else {
        seq![]
    })
}

/// Whether `plan` is what the settings of `b` come to.
pub open spec fn is_plan_of(plan: BuildPlan, b: MobileEngineBuilder) -> bool {
    &&& plan.cs_capacity_bytes == b.cs_capacity_mb * 0x10_0000
    &&& plan.pipeline_threads == b.pipeline_threads
    &&& plan.security_profile == b.security_profile
    &&& plan.strategy == b.strategy
    &&& plan.persistent_cs_path == b.persistent_cs_path
    &&& is_discovery_choice(plan.discovery, b)
    &&& plan.routing_protocols == b.routing_protocols
    &&& plan.roles@ == face_roles(
        b.multicast_iface is Some,
        b.wifi_aware is Some,
        peer_count(b),
        b.compute_prefix is Some,
    )
    &&& plan.multicast_iface == b.multicast_iface
    &&& plan.peers@ == peer_specs(b)
    &&& plan.wifi_aware == b.wifi_aware
    &&& plan.compute_prefix == b.compute_prefix
    &&& plan.tun_config == b.tun_config
    &&& plan.observability == b.observability
    &&& plan.ipc_listen_path == b.ipc_listen_path
    &&& plan.rate_limit == b.rate_limit
    &&& plan.enable_fec == b.enable_fec
    &&& plan.management == management_plan(b, plan.discovery is Hello)
}

/// The faces of an engine, in the order in which they get their ids.
fn list_roles(multicast: bool, nan: bool, peers: usize, compute: bool) -> (roles: Vec<FaceRole>)
    ensures
        roles@ == face_roles(multicast, nan, peers as nat, compute),
{
    let mut roles: Vec<FaceRole> = Vec::new();
    roles.push(FaceRole::App);
    if multicast {
        roles.push(FaceRole::Multicast);
    }
    if nan {
        roles.push(FaceRole::Nan);
    }
    let ghost reserved = roles@;
    let mut i: usize = 0;
    while i < peers
        invariant
            i <= peers,
            roles@ == reserved + Seq::new(i as nat, |k: int| FaceRole::Peer(k as usize)),
        decreases peers - i,
    {
        roles.push(FaceRole::Peer(i));
        i = i + 1;
        assert(roles@ =~= reserved + Seq::new(i as nat, |k: int| FaceRole::Peer(k as usize)));
    }
    if compute {
        roles.push(FaceRole::Compute);
    }
    assert(roles@ =~= face_roles(multicast, nan, peers as nat, compute));
    roles
}

/// The peers in the order in which they get their face ids.
fn list_peers(
    unicast: Vec<String>,
    tcp: Vec<String>,
    ws: Vec<String>,
    serial: Vec<(String, u32)>,
    webtransport: Vec<(String, ClientTls)>,
) -> (peers: Vec<PeerSpec>)
    ensures
        peers@ == unicast@.map_values(|a: String| PeerSpec::UdpUnicast(a)) + tcp@.map_values(
            |a: String| PeerSpec::Tcp(a),
        ) + ws@.map_values(|u: String| PeerSpec::WebSocket(u)) + serial@.map_values(
            |s: (String, u32)| PeerSpec::Serial(s.0, s.1),
        ) + webtransport@.map_values(|w: (String, ClientTls)| PeerSpec::WebTransport(w.0, w.1)),
{
    let ghost all_udp = unicast@.map_values(|a: String| PeerSpec::UdpUnicast(a));
    let ghost all_tcp = tcp@.map_values(|a: String| PeerSpec::Tcp(a));
    let ghost all_ws = ws@.map_values(|u: String| PeerSpec::WebSocket(u));
    let ghost all_serial = serial@.map_values(|s: (String, u32)| PeerSpec::Serial(s.0, s.1));
    let ghost all_wt = webtransport@.map_values(
        |w: (String, ClientTls)| PeerSpec::WebTransport(w.0, w.1),
    );
    let mut peers: Vec<PeerSpec> = Vec::new();
    let ghost seq_udp = unicast@;
    for addr in it: unicast
        invariant
            it.seq() == seq_udp,
            all_udp == seq_udp.map_values(|a: String| PeerSpec::UdpUnicast(a)),
            peers@ == all_udp.take(it.index()),
    {
        peers.push(PeerSpec::UdpUnicast(addr));
        assert(peers@ =~= all_udp.take(it.index() + 1));
    }
    assert(peers@ =~= all_udp);
    let ghost seq_tcp = tcp@;
    for addr in it: tcp
        invariant
            it.seq() == seq_tcp,
            all_tcp == seq_tcp.map_values(|a: String| PeerSpec::Tcp(a)),
            peers@ == all_udp + all_tcp.take(it.index()),
    {
        peers.push(PeerSpec::Tcp(addr));
        assert(peers@ =~= all_udp + all_tcp.take(it.index() + 1));
    }
    assert(peers@ =~= all_udp + all_tcp);
    let ghost seq_ws = ws@;
    for url in it: ws
        invariant
            it.seq() == seq_ws,
            all_ws == seq_ws.map_values(|u: String| PeerSpec::WebSocket(u)),
            peers@ == all_udp + all_tcp + all_ws.take(it.index()),
    {
        peers.push(PeerSpec::WebSocket(url));
        assert(peers@ =~= all_udp + all_tcp + all_ws.take(it.index() + 1));
    }
    assert(peers@ =~= all_udp + all_tcp + all_ws);
    let ghost seq_serial = serial@;
    for port in it: serial
        invariant
            it.seq() == seq_serial,
            all_serial == seq_serial.map_values(|s: (String, u32)| PeerSpec::Serial(s.0, s.1)),
            peers@ == all_udp + all_tcp + all_ws + all_serial.take(it.index()),
    {
        peers.push(PeerSpec::Serial(port.0, port.1));
        assert(peers@ =~= all_udp + all_tcp + all_ws + all_serial.take(it.index() + 1));
    }
    assert(peers@ =~= all_udp + all_tcp + all_ws + all_serial);
    let ghost seq_wt = webtransport@;
    for link in it: webtransport
        invariant
            it.seq() == seq_wt,
            all_wt == seq_wt.map_values(
                |w: (String, ClientTls)| PeerSpec::WebTransport(w.0, w.1),
            ),
            peers@ == all_udp + all_tcp + all_ws + all_serial + all_wt.take(it.index()),
    {
        peers.push(PeerSpec::WebTransport(link.0, link.1));
        assert(peers@ =~= all_udp + all_tcp + all_ws + all_serial + all_wt.take(it.index() + 1));
    }
    assert(peers@ =~= all_udp + all_tcp + all_ws + all_serial + all_wt);
    peers
}

impl MobileEngineBuilder {
    /// Which protocol discovers neighbours.
    pub fn discovery_choice(&self) -> (choice: DiscoveryChoice)
        ensures
            is_discovery_choice(choice, *self),
            choice is Custom <==> self.discovery_protocol,
            choice is Nan <==> !self.discovery_protocol && self.wifi_aware is Some && (
            self.wifi_aware->0.discover@.len() > 0 || self.wifi_aware->0.advertise@.len() > 0),
            choice matches DiscoveryChoice::Hello(probing) ==> self.multicast_iface is Some
                && self.node_name is Some && probing@ == self.node_name->0@,
            self.multicast_iface is Some && self.node_name is Some && !(choice is Custom) && !(choice
                is Nan) ==> choice is Hello,
    {
        if self.discovery_protocol {
            return DiscoveryChoice::Custom;
        }
        if let Some(nan) = &self.wifi_aware {
            if nan.discover.len() > 0 || nan.advertise.len() > 0 {
                return DiscoveryChoice::Nan;
            }
        }
        if self.multicast_iface.is_none() {
            return DiscoveryChoice::Off;
        }
        match &self.node_name {
            Some(name) => DiscoveryChoice::Hello(name.duplicate()),
            None => DiscoveryChoice::Off,
        }
    }

    /// How management is mounted.
    pub fn management(&self, hello: bool) -> (plan: Option<ManagementPlan>)
        ensures
            plan == management_plan(*self, hello),
    {
        if !self.enable_management {
            return None;
        }
        let runtime_policy: Option<MgmtAccessPolicy> = if self.secured_mgmt {
            Some(
                MgmtAccessPolicy {
                    ephemeral_allowed: false,
                    localhop_disabled: true,
                    replay_window_secs: 120,
                    require_signed_commands: true,
                },
            )
        } else {
            None
        };
        Some(
            ManagementPlan {
                authenticated: self.secured_mgmt,
                require_signed_commands: self.secured_mgmt,
                replay_cache: self.secured_mgmt,
                runtime_policy,
                security_is_ephemeral: !self.secured_mgmt,
                discovery_cfg: hello,
                log_inspector: self.log_inspector,
                coding_handler: self.enable_fec,
                rate_limit_handler: self.rate_limit.is_some(),
                compute_handler: self.compute_mgmt_backend,
                clear_localhop_route: true,
            },
        )
    }

    /// What these settings come to. The store's capacity in bytes has to fit.
    pub fn build(self) -> (plan: BuildPlan)
        requires
            self.cs_capacity_mb * 0x10_0000 <= usize::MAX,
        ensures
            is_plan_of(plan, self),
    {
        let discovery: DiscoveryChoice = self.discovery_choice();
        let hello: bool = match &discovery {
            DiscoveryChoice::Hello(_) => true,
            _ => false,
        };
        let management: Option<ManagementPlan> = self.management(hello);
        let multicast: bool = self.multicast_iface.is_some();
        let nan: bool = self.wifi_aware.is_some();
        let compute: bool = self.compute_prefix.is_some();
        let peers: Vec<PeerSpec> = list_peers(
            self.unicast_peers,
            self.tcp_peers,
            self.ws_peers,
            self.serial_ports,
            self.webtransport_peers,
        );
        let roles: Vec<FaceRole> = list_roles(multicast, nan, peers.len(), compute);
        BuildPlan {
            cs_capacity_bytes: self.cs_capacity_mb * 0x10_0000,
            pipeline_threads: self.pipeline_threads,
            security_profile: self.security_profile,
            strategy: self.strategy,
            persistent_cs_path: self.persistent_cs_path,
            discovery,
            routing_protocols: self.routing_protocols,
            roles,
            multicast_iface: self.multicast_iface,
            peers,
            wifi_aware: self.wifi_aware,
            compute_prefix: self.compute_prefix,
            tun_config: self.tun_config,
            observability: self.observability,
            ipc_listen_path: self.ipc_listen_path,
            rate_limit: self.rate_limit,
            enable_fec: self.enable_fec,
            management,
        }
    }
}

/// What an engine keeps of its faces.
pub ghost struct EngineView {
    pub app: FaceId,
    pub multicast: Option<(FaceId, Seq<char>)>,
    pub peers: Seq<(FaceId, PeerSpec)>,
    pub nan: Option<FaceId>,
    pub compute: Option<FaceId>,
    /// How often the network faces have been suspended.
    pub generation: nat,
}

/// How many ids are given out before the peers get theirs.
pub open spec fn reserved_ids(plan: BuildPlan) -> int {
    1 + (if plan.multicast_iface is Some {
        1int
    } else {
        0
    }) + (if plan.wifi_aware is Some {
        1int
    } else {
        0
    })
}

/// How many ids the engine of `plan` needs.
pub open spec fn ids_needed(plan: BuildPlan) -> int {
    reserved_ids(plan) + plan.peers@.len() + (if plan.compute_prefix is Some {
        1int
    } else {
        0
    })
}

/// The engine of `plan` when `ids` are given out in order.
pub open spec fn engine_of(plan: BuildPlan, ids: Seq<FaceId>) -> EngineView {
    EngineView {
        app: ids[0],
        multicast: match plan.multicast_iface {
            Some(iface) => Some((ids[1], iface@)),
            None => None,
        },
        peers: Seq::new(
            plan.peers@.len(),
            |k: int| (ids[reserved_ids(plan) + k], plan.peers@[k]),
        ),
        nan: if plan.wifi_aware is Some {
            Some(ids[reserved_ids(plan) - 1])
        } else {
            None
        },
        compute: if plan.compute_prefix is Some {
            Some(ids[reserved_ids(plan) + plan.peers@.len()])
        } else {
            None
        },
        generation: 0,
    }
}

/// A network face that has to be brought up, with the id it has to have.
pub enum FaceBuild<'a> {
    Multicast { id: FaceId, iface: &'a str },
    Peer { id: FaceId, spec: &'a PeerSpec },
    Nan { id: FaceId },
}

/// A [`FaceBuild`] over mathematical values.
pub ghost enum FaceBuildView {
    Multicast { id: FaceId, iface: Seq<char> },
    Peer { id: FaceId, spec: PeerSpec },
    Nan { id: FaceId },
}

impl<'a> View for FaceBuild<'a> {
    type V = FaceBuildView;

    open spec fn view(&self) -> FaceBuildView {
        match self {
            FaceBuild::Multicast { id, iface } => FaceBuildView::Multicast { id: *id, iface: iface@ },
            FaceBuild::Peer { id, spec } => FaceBuildView::Peer { id: *id, spec: **spec },
            FaceBuild::Nan { id } => FaceBuildView::Nan { id: *id },
        }
    }
}

/// The network faces of an engine, in the order in which they are brought up:
/// multicast, then every peer, then Wi-Fi Aware, each under its own id.
pub open spec fn network_faces(st: EngineView) -> Seq<FaceBuildView> {
    (match st.multicast {
        Some((id, iface)) => seq![FaceBuildView::Multicast { id, iface }],
        None => seq![],
    }) + Seq::new(
        st.peers.len(),
        |k: int| FaceBuildView::Peer { id: st.peers[k].0, spec: st.peers[k].1 },
    ) + (match st.nan {
        Some(id) => seq![FaceBuildView::Nan { id }],
        None => seq![],
    })
}

/// What is kept when the network faces are suspended: everything but the faces'
/// own tasks, which belong to the previous generation.
pub open spec fn suspended(st: EngineView) -> EngineView {
    EngineView { generation: st.generation + 1, ..st }
}

/// A route toward a face.
#[derive(Clone, Debug, PartialEq, Eq)]
pub struct Route {
    pub prefix: Name,
    pub face_id: FaceId,
    pub cost: u32,
}

/// A [`Route`] over mathematical values.
pub ghost struct RouteView {
    pub prefix: Seq<ComponentView>,
    pub face_id: FaceId,
    pub cost: u32,
}

impl View for Route {
    type V = RouteView;

    open spec fn view(&self) -> RouteView {
        RouteView { prefix: self.prefix@, face_id: self.face_id, cost: self.cost }
    }
}

/// The face bookkeeping of a running engine.
pub struct MobileEngine {
    app: FaceId,
    multicast: Option<(FaceId, String)>,
    network_peers: Vec<(FaceId, PeerSpec)>,
    nan: Option<FaceId>,
    compute: Option<FaceId>,
    generation: u64,
}

impl View for MobileEngine {
    type V = EngineView;

    closed spec fn view(&self) -> EngineView {
        EngineView {
            app: self.app,
            multicast: match self.multicast {
                Some((id, iface)) => Some((id, iface@)),
                None => None,
            },
            peers: self.network_peers@,
            nan: self.nan,
            compute: self.compute,
            generation: self.generation as nat,
        }
    }
}

impl MobileEngine {
    /// The settings to start from.
    pub fn builder() -> (builder: MobileEngineBuilder)
        ensures
            is_default_builder(builder),
    {
        MobileEngineBuilder::default()
    }

    /// The engine of `plan`, given an id for each of its roles in order.
    pub fn assemble(plan: BuildPlan, ids: &Vec<FaceId>) -> (engine: MobileEngine)
        requires
            ids@.len() == ids_needed(plan),
        ensures
            engine@ == engine_of(plan, ids@),
    {
        let total: usize = ids.len();
        let app: FaceId = ids[0];
        let mut next: usize = 1;
        let multicast: Option<(FaceId, String)> = match plan.multicast_iface {
            Some(iface) => {
                next = 2;
                Some((ids[1], iface))
            },
            None => None,
        };
        let nan: Option<FaceId> = if plan.wifi_aware.is_some() {
            next = next + 1;
            Some(ids[next - 1])
        } else {
            None
        };
        let ghost first = next as int;
        let ghost specs = plan.peers@;
        let ghost all = Seq::new(specs.len(), |k: int| (ids@[first + k], specs[k]));
        let mut network_peers: Vec<(FaceId, PeerSpec)> = Vec::new();
        for spec in it: plan.peers
            invariant
                it.seq() == specs,
                first + specs.len() <= ids@.len(),
                total == ids@.len(),
                next == first + it.index(),
                all == Seq::new(specs.len(), |k: int| (ids@[first + k], specs[k])),
                network_peers@ == all.take(it.index()),
        {
            network_peers.push((ids[next], spec));
            next = next + 1;
            assert(network_peers@ =~= all.take(it.index() + 1));
        }
        assert(network_peers@ =~= all);
        let compute: Option<FaceId> = if plan.compute_prefix.is_some() {
            Some(ids[next])
        } else {
            None
        };
        let engine = MobileEngine {
            app,
            multicast,
            network_peers,
            nan,
            compute,
            generation: 0,
        };
        assert(engine@.peers =~= engine_of(plan, ids@).peers);
        engine
    }

    /// The id of the default application face.
    pub fn app_face(&self) -> (id: FaceId)
        ensures
            id == self@.app,
    {
        self.app
    }

    /// The id of the multicast face, if there is one.
    pub fn multicast_face(&self) -> (id: Option<FaceId>)
        ensures
            id == match self@.multicast {
                Some((id, _)) => Some(id),
                None => None,
            },
    {
        match &self.multicast {
            Some((id, _)) => Some(*id),
            None => None,
        }
    }

    /// The id of the compute face, if there is one.
    pub fn compute_face(&self) -> (id: Option<FaceId>)
        ensures
            id == self@.compute,
    {
        self.compute
    }

    /// The network faces to bring up, at the start and after a suspension.
    pub fn resume_network_faces<'a>(&'a self) -> (faces: Vec<FaceBuild<'a>>)
        ensures
            faces@.map_values(|f: FaceBuild<'a>| f@) == network_faces(self@),
    {
        let mut faces: Vec<FaceBuild<'a>> = Vec::new();
        match &self.multicast {
            Some((id, iface)) => {
                faces.push(FaceBuild::Multicast { id: *id, iface: iface.as_str() });
            },
            None => {},
        }
        let ghost head = faces@.map_values(|f: FaceBuild<'a>| f@);
        assert(head =~= (match self@.multicast {
            Some((id, iface)) => seq![FaceBuildView::Multicast { id, iface }],
            None => seq![],
        }));
        let ghost all = Seq::new(
            self@.peers.len(),
            |k: int| FaceBuildView::Peer { id: self@.peers[k].0, spec: self@.peers[k].1 },
        );
        let mut i: usize = 0;
        while i < self.network_peers.len()
            invariant
                i <= self.network_peers@.len(),
                self@.peers == self.network_peers@,
                all == Seq::new(
                    self@.peers.len(),
                    |k: int| FaceBuildView::Peer { id: self@.peers[k].0, spec: self@.peers[k].1 },
                ),
                faces@.map_values(|f: FaceBuild<'a>| f@) == head + all.take(i as int),
            decreases self.network_peers@.len() - i,
        {
            let ghost before = faces@;
            let id: FaceId = self.network_peers[i].0;
            faces.push(FaceBuild::Peer { id, spec: &self.network_peers[i].1 });
            i = i + 1;
            proof {
                assert(faces@.map_values(|f: FaceBuild<'a>| f@) =~= before.map_values(
                    |f: FaceBuild<'a>| f@,
                ).push(all[i - 1]));
                assert(head + all.take(i as int) =~= (head + all.take(i - 1)).push(all[i - 1]));
            }
        }
        assert(all.take(i as int) =~= all);
        let ghost before = faces@;
        match self.nan {
            Some(id) => {
                faces.push(FaceBuild::Nan { id });
                assert(faces@.map_values(|f: FaceBuild<'a>| f@) =~= before.map_values(
                    |f: FaceBuild<'a>| f@,
                ).push(FaceBuildView::Nan { id }));
            },
            None => {},
        }
        assert(faces@.map_values(|f: FaceBuild<'a>| f@) =~= network_faces(self@));
        faces
    }

    /// Suspends the network faces: the tasks of the returned generation are to
    /// be cancelled, and everything brought up from now on belongs to the next.
    pub fn suspend_network_faces(&mut self) -> (cancelled: u64)
        requires
            old(self)@.generation < u64::MAX,
        ensures
            cancelled == old(self)@.generation,
            final(self)@ == suspended(old(self)@),
    {
        let cancelled: u64 = self.generation;
        self.generation = cancelled + 1;
        cancelled
    }

    /// The configured peers, in order. Multicast is not among them.
    pub fn peers(&self) -> (peers: Vec<PeerRef>)
        ensures
            peers@.len() == self@.peers.len(),
            forall|k: int|
                0 <= k < peers@.len() ==> (#[trigger] peers@[k]).face_id() == self@.peers[k].0
                    && peers@[k].uri_view() == peer_uri(self@.peers[k].1),
    {
        let mut peers: Vec<PeerRef> = Vec::new();
        let mut i: usize = 0;
        while i < self.network_peers.len()
            invariant
                i <= self.network_peers@.len(),
                self@.peers == self.network_peers@,
                peers@.len() == i,
                forall|k: int|
                    0 <= k < i ==> (#[trigger] peers@[k]).face_id() == self@.peers[k].0
                        && peers@[k].uri_view() == peer_uri(self@.peers[k].1),
            decreases self.network_peers@.len() - i,
        {
            let id: FaceId = self.network_peers[i].0;
            let uri: String = self.network_peers[i].1.uri();
            peers.push(PeerRef { id, uri });
            i = i + 1;
        }
        peers
    }

    /// The route that sends `prefix` to `peer`.
    pub fn route_to_peer(prefix: Name, peer: &PeerRef, cost: u32) -> (route: Route)
        ensures
            route == (Route { prefix, face_id: peer.face_id(), cost }),
    {
        Route { prefix, face_id: peer.id, cost }
    }
}

/// The peers come in this order: UDP, TCP, WebSocket, serial, WebTransport, and
/// among those of a kind in the order of configuration. None is lost.
pub proof fn law_peers_keep_their_order(b: MobileEngineBuilder, i: int)
    ensures
        ({
            let specs = peer_specs(b);
            let tcp_at = b.unicast_peers@.len() as int;
            let ws_at = tcp_at + b.tcp_peers@.len();
            let serial_at = ws_at + b.ws_peers@.len();
            let wt_at = serial_at + b.serial_ports@.len();
            &&& specs.len() == wt_at + b.webtransport_peers@.len()
            &&& specs.len() == peer_count(b)
            &&& 0 <= i < b.unicast_peers@.len() ==> specs[i] == PeerSpec::UdpUnicast(
                b.unicast_peers@[i],
            )
            &&& 0 <= i < b.tcp_peers@.len() ==> specs[tcp_at + i] == PeerSpec::Tcp(b.tcp_peers@[i])
            &&& 0 <= i < b.ws_peers@.len() ==> specs[ws_at + i] == PeerSpec::WebSocket(
                b.ws_peers@[i],
            )
            &&& 0 <= i < b.serial_ports@.len() ==> specs[serial_at + i] == PeerSpec::Serial(
                b.serial_ports@[i].0,
                b.serial_ports@[i].1,
            )
            &&& 0 <= i < b.webtransport_peers@.len() ==> specs[wt_at + i] == PeerSpec::WebTransport(
                b.webtransport_peers@[i].0,
                b.webtransport_peers@[i].1,
            )
        }),
{
}

/// An engine is built from its settings as they are; only the store's capacity is
/// turned from mebibytes into bytes.
pub proof fn law_plan_keeps_the_settings(b: MobileEngineBuilder, plan: BuildPlan)
    requires
        is_plan_of(plan, b),
    ensures
        plan.cs_capacity_bytes == b.cs_capacity_mb * 1024 * 1024,
        plan.pipeline_threads == b.pipeline_threads,
        plan.security_profile == b.security_profile,
        plan.strategy == b.strategy,
        plan.persistent_cs_path == b.persistent_cs_path,
        plan.routing_protocols == b.routing_protocols,
        plan.multicast_iface == b.multicast_iface,
        plan.peers@ == peer_specs(b),
        plan.wifi_aware == b.wifi_aware,
        plan.compute_prefix == b.compute_prefix,
        plan.tun_config == b.tun_config,
        plan.observability == b.observability,
        plan.ipc_listen_path == b.ipc_listen_path,
        plan.rate_limit == b.rate_limit,
        plan.enable_fec == b.enable_fec,
        plan.management is Some <==> b.enable_management,
        plan.management matches Some(m) ==> (m.discovery_cfg <==> plan.discovery is Hello),
        b.discovery_protocol <==> plan.discovery is Custom,
        plan.discovery is Nan <==> !b.discovery_protocol && b.wifi_aware is Some && (
        b.wifi_aware->0.discover@.len() > 0 || b.wifi_aware->0.advertise@.len() > 0),
        plan.discovery matches DiscoveryChoice::Hello(probing) ==> b.multicast_iface is Some
            && b.node_name is Some && probing@ == b.node_name->0@,
        plan.discovery is Off ==> b.multicast_iface is None || b.node_name is None,
{
}

/// An engine that nobody configured keeps eight mebibytes in memory, forwards on
/// one thread to the best route, validates everything it receives, and has no
/// links and no services.
pub proof fn law_defaults_suit_a_phone(b: MobileEngineBuilder)
    requires
        is_default_builder(b),
    ensures
        b.cs_capacity_mb == 8 && b.pipeline_threads == 1,
        b.security_profile == SecurityProfile::Default,
        b.strategy == MobileStrategy::BestRoute,
        peer_specs(b).len() == 0,
        b.multicast_iface is None && b.wifi_aware is None && b.compute_prefix is None,
        b.ipc_listen_path is None && b.routing_protocols == 0,
        b.node_name is None && !b.discovery_protocol,
        management_plan(b, false) is None && !b.secured_mgmt,
        b.tun_config is None && b.rate_limit is None && b.observability is None,
        !b.enable_fec && !b.log_inspector && !b.compute_mgmt_backend,
        b.persistent_cs_path is None,
{
}

/// Each face gets the id that was given out for its role, and keeps what it was
/// configured with: the address of the multicast face, and the peer at its place
/// in the list.
pub proof fn law_faces_get_the_ids_of_their_roles(
    b: MobileEngineBuilder,
    plan: BuildPlan,
    ids: Seq<FaceId>,
    k: int,
)
    requires
        is_plan_of(plan, b),
        ids.len() == ids_needed(plan),
        plan.peers@.len() <= usize::MAX,
        0 <= k < plan.roles@.len(),
    ensures
        ({
            let engine = engine_of(plan, ids);
            &&& ids.len() == plan.roles@.len()
            &&& match plan.roles@[k] {
                FaceRole::App => engine.app == ids[k],
                FaceRole::Multicast => engine.multicast matches Some((id, iface)) && id == ids[k]
                    && b.multicast_iface is Some && iface == b.multicast_iface->0@,
                FaceRole::Nan => engine.nan == Some(ids[k]),
                FaceRole::Peer(i) => i < engine.peers.len() && engine.peers[i as int] == (
                    ids[k],
                    peer_specs(b)[i as int],
                ),
                FaceRole::Compute => engine.compute == Some(ids[k]),
            }
            &&& engine.multicast is Some <==> b.multicast_iface is Some
            &&& engine.nan is Some <==> b.wifi_aware is Some
            &&& engine.compute is Some <==> b.compute_prefix is Some
            &&& engine.peers.len() == peer_specs(b).len()
            &&& engine.generation == 0
        }),
{
    law_peers_keep_their_order(b, 0);
}

/// The network faces are brought up in order, each under its own id: the multicast
/// face where there is one, every peer, and Wi-Fi Aware where it is mounted.
pub proof fn law_network_faces_come_up_in_order(st: EngineView, k: int)
    ensures
        ({
            let faces = network_faces(st);
            let first: int = if st.multicast is Some {
                1
            } else {
                0
            };
            &&& faces.len() == first + st.peers.len() + if st.nan is Some {
                1int
            } else {
                0int
            }
            &&& st.multicast matches Some((id, iface)) ==> faces[0] == (FaceBuildView::Multicast {
                id,
                iface,
            })
            &&& 0 <= k < st.peers.len() ==> faces[first + k] == (FaceBuildView::Peer {
                id: st.peers[k].0,
                spec: st.peers[k].1,
            })
            &&& st.nan matches Some(id) ==> faces.last() == (FaceBuildView::Nan { id })
        }),
{
}

/// A suspension starts the next generation, and touches nothing else.
pub proof fn law_suspension_starts_a_generation(st: EngineView)
    ensures
        suspended(st) == (EngineView { generation: st.generation + 1, ..st }),
{
}

/// Management is mounted exactly where it is enabled. Secured, it locks a policy
/// that takes signed commands only, refuses ephemeral ones, keeps the link-local
/// prefix closed and remembers signatures for two minutes; open, it has no policy.
/// It always gives its link-local route back.
pub proof fn law_management_is_locked_when_secured(b: MobileEngineBuilder, hello: bool)
    ensures
        management_plan(b, hello) is Some <==> b.enable_management,
        management_plan(b, hello) matches Some(plan) ==> {
            &&& plan.runtime_policy is Some <==> b.secured_mgmt
            &&& plan.runtime_policy matches Some(policy) ==> {
                &&& !policy.ephemeral_allowed
                &&& policy.localhop_disabled
                &&& policy.replay_window_secs == 120
                &&& policy.require_signed_commands
            }
            &&& plan.discovery_cfg == hello
            &&& plan.log_inspector == b.log_inspector
            &&& plan.coding_handler == b.enable_fec
            &&& plan.rate_limit_handler == (b.rate_limit is Some)
            &&& plan.compute_handler == b.compute_mgmt_backend
            &&& plan.clear_localhop_route
        },
{
}

/// A suspension loses nothing: every network face comes back under the id it
/// had, so that routes toward it stay valid.
pub proof fn law_faces_survive_suspension(st: EngineView)
    ensures
        network_faces(suspended(st)) == network_faces(st),
        suspended(st).app == st.app,
        suspended(st).peers == st.peers,
        suspended(st).compute == st.compute,
{
}

/// Distinct peers have distinct faces, as long as no id is given out twice.
pub proof fn law_peers_have_their_own_faces(plan: BuildPlan, ids: Seq<FaceId>, i: int, j: int)
    requires
        ids.len() == ids_needed(plan),
        ids.no_duplicates(),
        0 <= i < j < plan.peers@.len(),
    ensures
        engine_of(plan, ids).peers[i].0 != engine_of(plan, ids).peers[j].0,
        engine_of(plan, ids).peers[i].0 != engine_of(plan, ids).app,
{
}

/// Every role of a plan gets the id at its own place.
pub proof fn law_roles_get_their_ids(b: MobileEngineBuilder, plan: BuildPlan, ids: Seq<FaceId>)
    requires
        is_plan_of(plan, b),
        ids.len() == ids_needed(plan),
    ensures
        plan.roles@.len() == ids.len(),
        plan.roles@[0] == FaceRole::App,
        forall|k: int|
            0 <= k < plan.peers@.len() && k <= usize::MAX ==> #[trigger] plan.roles@[reserved_ids(
                plan,
            ) + k] == FaceRole::Peer(k as usize),
        plan.multicast_iface is Some ==> plan.roles@[1] == FaceRole::Multicast,
        plan.wifi_aware is Some ==> plan.roles@[reserved_ids(plan) - 1] == FaceRole::Nan,
        plan.compute_prefix is Some ==> plan.roles@.last() == FaceRole::Compute,
{
}

/// Secured management never takes an unsigned command, and open management
/// never demands a signature.
pub proof fn law_management_authentication(b: MobileEngineBuilder, hello: bool)
    requires
        b.enable_management,
    ensures
        management_plan(b, hello) matches Some(plan) && {
            &&& plan.require_signed_commands == b.secured_mgmt
            &&& plan.authenticated == b.secured_mgmt
            &&& plan.replay_cache == b.secured_mgmt
            &&& plan.security_is_ephemeral == !b.secured_mgmt
        },
{
}

} // verus!
