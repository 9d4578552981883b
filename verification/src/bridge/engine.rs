//! The node as the bindings drive it: what a configuration comes to, when a
//! same-network bulk link to a peer is raised, and what each call needs.

use crate::bridge::types::{
    ErrorView, NdnEngineConfig, NdnError, NdnFaceSpec, NdnSecurityProfile,
};
use crate::mobile::engine::{
    engine_of, ids_needed, is_plan_of, BuildPlan, EngineView, FaceId, MobileEngine,
    MobileEngineBuilder, MobileStrategy, PeerRef, PeerSpec, Route, RouteView, SecurityProfile,
};
use crate::name::Name;
use crate::text;
use vstd::prelude::*;

verus! {

/// The UDP port that both ends of a same-network bulk link bind.
pub const INFRA_PORT: u16 = 7656;

/// What is in front of the last dot of an address, if it has a dot.
pub open spec fn network_part(addr: Seq<char>) -> Option<Seq<char>>
    decreases addr.len(),
{
    if addr.len() == 0 {
        None
    } else if addr.last() == '.' {
        Some(addr.drop_last())
    } else {
        network_part(addr.drop_last())
    }
}

/// Whether two dotted addresses differ at most in their last part.
pub open spec fn shares_subnet(a: Seq<char>, b: Seq<char>) -> bool {
    network_part(a) is Some && network_part(a) == network_part(b)
}

/// Two addresses are on one network exactly where all but what follows the last
/// dot of each is the same; without a dot an address is on none.
pub proof fn law_subnet_is_all_but_the_last_part(
    a: Seq<char>,
    x: Seq<char>,
    b: Seq<char>,
    y: Seq<char>,
)
    requires
        !x.contains('.'),
        !y.contains('.'),
    ensures
        shares_subnet(a.push('.') + x, b.push('.') + y) <==> a == b,
        !shares_subnet(x, b.push('.') + y),
        !shares_subnet(b.push('.') + y, x),
{
    lemma_network_part(a, x);
    lemma_network_part(b, y);
    lemma_no_network_part(x);
}

proof fn lemma_network_part(a: Seq<char>, x: Seq<char>)
    requires
        !x.contains('.'),
    ensures
        network_part(a.push('.') + x) == Some(a),
    decreases x.len(),
{
    let whole = a.push('.') + x;
    if x.len() == 0 {
        assert(whole =~= a.push('.'));
        assert(whole.drop_last() =~= a);
    } else {
        assert(x[x.len() - 1] == x.last());
        assert(whole.last() == x.last());
        assert forall|c: char| x.drop_last().contains(c) implies x.contains(c) by {
            let i = x.drop_last().index_of(c);
            assert(x[i] == c);
        }
        lemma_network_part(a, x.drop_last());
        assert(whole.drop_last() =~= a.push('.') + x.drop_last());
    }
}

proof fn lemma_no_network_part(x: Seq<char>)
    requires
        !x.contains('.'),
    ensures
        network_part(x) is None,
    decreases x.len(),
{
    if x.len() > 0 {
        assert(x[x.len() - 1] == x.last());
        assert forall|c: char| x.drop_last().contains(c) implies x.contains(c) by {
            let i = x.drop_last().index_of(c);
            assert(x[i] == c);
        }
        lemma_no_network_part(x.drop_last());
    }
}

/// Where the last dot of `chars` is.
fn last_dot(chars: &Vec<char>) -> (at: Option<usize>)
    ensures
        match at {
            Some(i) => i < chars@.len() && network_part(chars@) == Some(chars@.take(i as int)),
            None => network_part(chars@) is None,
        },
{
    let mut n: usize = chars.len();
    assert(chars@.take(n as int) =~= chars@);
    while n > 0
        invariant
            n <= chars@.len(),
            network_part(chars@) == network_part(chars@.take(n as int)),
        decreases n,
    {
        assert(chars@.take(n as int).drop_last() =~= chars@.take(n - 1));
        if chars[n - 1] == '.' {
            return Some(n - 1);
        }
        n = n - 1;
    }
    None
}

/// Whether two IPv4 addresses are on the same /24 network: a cheap test for the
/// same access point.
pub fn same_subnet24(a: &str, b: &str) -> (same: bool)
    ensures
        same == shares_subnet(a@, b@),
{
    let x: Vec<char> = text::to_chars(a);
    let y: Vec<char> = text::to_chars(b);
    match (last_dot(&x), last_dot(&y)) {
        (Some(i), Some(j)) => {
            if i != j {
                assert(x@.take(i as int).len() != y@.take(j as int).len());
                return false;
            }
            let mut k: usize = 0;
            while k < i
                invariant
                    k <= i < x@.len(),
                    i < y@.len(),
                    x@ == a@,
                    y@ == b@,
                    network_part(a@) == Some(x@.take(i as int)),
                    network_part(b@) == Some(y@.take(i as int)),
                    forall|m: int| 0 <= m < k ==> x@[m] == y@[m],
                decreases i - k,
            {
                if x[k] != y[k] {
                    assert(x@.take(i as int)[k as int] != y@.take(i as int)[k as int]);
                    return false;
                }
                k = k + 1;
            }
            assert(x@.take(i as int) =~= y@.take(i as int));
            true
        },
        _ => false,
    }
}

/// What a node knows of bulk links over the local network.
pub ghost struct InfraView {
    /// The node's own address on the network, if it has one.
    pub local_addr: Option<Seq<char>>,
    /// The peers to which a link was raised or is being raised, in order.
    pub peers: Seq<Seq<char>>,
    /// A socket bound to the network, not used yet.
    pub socket_fd: Option<i32>,
}

/// Whether a link to `peer` at `addr` is to be raised, where `parses` tells
/// whether the address is one: the node has an address on the same network, no
/// link was raised to this peer, and there is a socket to use.
pub open spec fn should_raise(
    st: InfraView,
    peer: Seq<char>,
    addr: Seq<char>,
    parses: bool,
) -> bool {
    &&& st.local_addr matches Some(local) && shares_subnet(local, addr)
    &&& parses
    &&& !text::has_key(st.peers, peer)
    &&& st.socket_fd is Some
}

/// What is done about a peer that told its address.
#[derive(Clone, Debug, PartialEq, Eq)]
pub enum InfraAction {
    /// Nothing.
    Skip,
    /// Raise a link to this address over this socket.
    Raise { fd: i32, address: String },
}

/// The address and port of a bulk link.
pub open spec fn infra_address(peer_ip: Seq<char>) -> Seq<char> {
    peer_ip + ":"@ + text::decimal(INFRA_PORT as nat)
}

/// Bulk links to peers on the same network.
pub struct InfraLinks {
    local_addr: Option<String>,
    peers: Vec<String>,
    socket_fd: Option<i32>,
}

impl View for InfraLinks {
    type V = InfraView;

    closed spec fn view(&self) -> InfraView {
        InfraView {
            local_addr: text::text_view(self.local_addr),
            peers: text::text_views(self.peers@),
            socket_fd: self.socket_fd,
        }
    }
}

/// The address that a peer would be reached at.
pub fn infra_peer_address(peer_ip: &str) -> (address: String)
    ensures
        address@ == infra_address(peer_ip@),
        address@ == peer_ip@ + ":7656"@,
{
    proof {
        reveal_strlit(":7656");
        reveal_strlit(":");
        reveal_with_fuel(text::decimal, 5);
        assert(text::decimal(7656) =~= seq!['7', '6', '5', '6']);
        assert(peer_ip@ + ":"@ + text::decimal(7656) =~= peer_ip@ + ":7656"@);
    }
    let mut address: String = text::concat(peer_ip, ":");
    text::push_decimal(&mut address, INFRA_PORT as u64);
    address
}

impl InfraLinks {
    pub fn new() -> (links: InfraLinks)
        ensures
            links@ == (InfraView { local_addr: None, peers: Seq::empty(), socket_fd: None }),
    {
        let links = InfraLinks { local_addr: None, peers: Vec::new(), socket_fd: None };
        assert(links@.peers =~= Seq::empty());
        links
    }

    /// The node's own address changed; an empty one means that it has none. A
    /// change gives every peer another chance.
    pub fn set_infra_addr(&mut self, ipv4: String)
        ensures
            ({
                let next = if ipv4@.len() == 0 {
                    None
                } else {
                    Some(ipv4@)
                };
                final(self)@ == (if old(self)@.local_addr == next {
                    old(self)@
                } else {
                    InfraView { local_addr: next, peers: Seq::empty(), ..old(self)@ }
                })
            }),
    {
        let unchanged: bool = match &self.local_addr {
            None => ipv4.as_str().is_empty(),
            Some(addr) => !ipv4.as_str().is_empty() && text::same(addr.as_str(), ipv4.as_str()),
        };
        if unchanged {
            return;
        }
        self.local_addr = if ipv4.as_str().is_empty() {
            None
        } else {
            Some(ipv4)
        };
        self.peers.clear();
        assert(self@.peers =~= Seq::empty());
    }

    /// Takes a socket that is bound to the network, and gives back the one it
    /// replaces, to be closed. Every peer gets another chance.
    pub fn set_infra_socket(&mut self, fd: i32) -> (replaced: Option<i32>)
        ensures
            replaced == old(self)@.socket_fd,
            final(self)@ == (InfraView {
                peers: Seq::empty(),
                socket_fd: Some(fd),
                ..old(self)@
            }),
    {
        let replaced: Option<i32> = self.socket_fd;
        self.socket_fd = Some(fd);
        self.peers.clear();
        assert(self@.peers =~= Seq::empty());
        replaced
    }

    /// Decides about a peer that told its address. `parses` tells whether
    /// [`infra_peer_address`] of it is a socket address. A link that is raised
    /// takes the socket, and is not raised again.
    pub fn maybe_attach_infra_tunnel(&mut self, id: &str, peer_ip: &str, parses: bool) -> (action:
        InfraAction)
        ensures
            should_raise(old(self)@, id@, peer_ip@, parses) ==> {
                &&& action is Raise
                &&& Some(action->Raise_fd) == old(self)@.socket_fd
                &&& action->Raise_address@ == infra_address(peer_ip@)
                &&& final(self)@ == (InfraView {
                    peers: text::with_key(old(self)@.peers, id@),
                    socket_fd: None,
                    ..old(self)@
                })
            },
            !should_raise(old(self)@, id@, peer_ip@, parses) ==> action is Skip && final(self)@
                == old(self)@,
            action matches InfraAction::Raise { fd, address } ==> {
                &&& parses
                &&& old(self)@.local_addr is Some
                &&& old(self)@.socket_fd == Some(fd)
                &&& address@ == peer_ip@ + ":7656"@
                &&& final(self)@.socket_fd is None
            },
    {
        let on_network: bool = match &self.local_addr {
            None => false,
            Some(local) => same_subnet24(local.as_str(), peer_ip),
        };
        if !on_network || !parses || text::contains_sorted(&self.peers, id) {
            return InfraAction::Skip;
        }
        match self.socket_fd {
            None => InfraAction::Skip,
            Some(fd) => {
                text::insert_sorted(&mut self.peers, id.to_owned());
                self.socket_fd = None;
                InfraAction::Raise { fd, address: infra_peer_address(peer_ip) }
            },
        }
    }

    /// The link to a peer could not be raised: it may be tried again.
    pub fn attach_failed(&mut self, id: &str)
        ensures
            final(self)@ == (InfraView {
                peers: text::without_key(old(self)@.peers, id@),
                ..old(self)@
            }),
    {
        text::remove_sorted(&mut self.peers, id);
    }
}

/// A link that is raised uses up the socket, and is not raised again until the
/// address or the socket changes or the attempt fails.
pub proof fn law_link_is_raised_once(
    st: InfraView,
    peer: Seq<char>,
    addr: Seq<char>,
    again: Seq<char>,
    parses: bool,
    fd: Option<i32>,
)
    requires
        text::strictly_sorted(st.peers),
        should_raise(st, peer, addr, parses),
    ensures
        ({
            let raised = InfraView {
                peers: text::with_key(st.peers, peer),
                socket_fd: None,
                ..st
            };
            &&& forall|other: Seq<char>| !should_raise(raised, other, again, parses)
            &&& !should_raise(InfraView { socket_fd: fd, ..raised }, peer, again, parses)
            &&& text::strictly_sorted(raised.peers)
        }),
{
    text::law_with_key_is_sorted(st.peers, peer);
    text::law_search_is_complete(text::with_key(st.peers, peer), peer);
    assert(text::with_key(st.peers, peer).contains(peer));
}

/// A link is raised to a peer exactly where the node has an address on the peer's
/// network and a socket to use, the peer's address is one, and none was raised to
/// this peer since the address or the socket changed.
pub proof fn law_link_is_raised_when_it_can_be(
    st: InfraView,
    peer: Seq<char>,
    addr: Seq<char>,
    parses: bool,
)
    requires
        text::strictly_sorted(st.peers),
    ensures
        should_raise(st, peer, addr, parses) <==> {
            &&& st.local_addr is Some
            &&& shares_subnet(st.local_addr->0, addr)
            &&& parses
            &&& !st.peers.contains(peer)
            &&& st.socket_fd is Some
        },
{
    text::law_search_is_complete(st.peers, peer);
}

/// The features a build was made with.
#[derive(Clone, Copy, Debug, PartialEq, Eq, Structural)]
pub struct Features {
    pub management: bool,
    pub identity: bool,
    pub wifi_aware: bool,
    pub ble: bool,
    pub persistent_cs: bool,
}

/// The engine's validation profile for the bindings' one.
pub open spec fn profile_of(p: NdnSecurityProfile) -> SecurityProfile {
    match p {
        NdnSecurityProfile::Default => SecurityProfile::Default,
        NdnSecurityProfile::AcceptSigned => SecurityProfile::AcceptSigned,
        NdnSecurityProfile::Disabled => SecurityProfile::Disabled,
    }
}

pub fn into_security_profile(p: NdnSecurityProfile) -> (profile: SecurityProfile)
    ensures
        profile == profile_of(p),
        p == NdnSecurityProfile::Default <==> profile == SecurityProfile::Default,
        p == NdnSecurityProfile::AcceptSigned <==> profile == SecurityProfile::AcceptSigned,
        p == NdnSecurityProfile::Disabled <==> profile == SecurityProfile::Disabled,
{
    match p {
        NdnSecurityProfile::Default => SecurityProfile::Default,
        NdnSecurityProfile::AcceptSigned => SecurityProfile::AcceptSigned,
        NdnSecurityProfile::Disabled => SecurityProfile::Disabled,
    }
}

/// Worker threads of the node's runtime: at least one.
pub fn worker_threads(pipeline_threads: u32) -> (n: usize)
    ensures
        n == (if pipeline_threads == 0 {
            1
        } else {
            pipeline_threads as int
        }),
{
    if pipeline_threads == 0 {
        1
    } else {
        pipeline_threads as usize
    }
}

/// The address that a face has to parse, if it has one.
pub open spec fn face_address(face: NdnFaceSpec) -> Option<Seq<char>> {
    match face {
        NdnFaceSpec::Multicast { iface } => Some(iface@),
        NdnFaceSpec::Uplink { address } => Some(address@),
        NdnFaceSpec::Serial { .. } => None,
    }
}

/// The address of the first face whose address does not parse. `parsed` has,
/// for each face, its address in canonical form where it parses.
pub open spec fn first_bad_address(faces: Seq<NdnFaceSpec>, parsed: Seq<Option<String>>) -> Option<
    Seq<char>,
>
    decreases faces.len(),
{
    if faces.len() == 0 {
        None
    } else if face_address(faces[0]) is Some && parsed[0] is None {
        face_address(faces[0])
    } else {
        first_bad_address(faces.skip(1), parsed.skip(1))
    }
}

/// The interface of the last multicast face: a node has one.
pub open spec fn multicast_of(faces: Seq<NdnFaceSpec>, parsed: Seq<Option<String>>) -> Option<
    String,
>
    decreases faces.len(),
{
    if faces.len() == 0 {
        None
    } else {
        match faces.last() {
            NdnFaceSpec::Multicast { .. } => parsed.last(),
            _ => multicast_of(faces.drop_last(), parsed.drop_last()),
        }
    }
}

/// The uplinks, in order.
pub open spec fn uplinks_of(faces: Seq<NdnFaceSpec>, parsed: Seq<Option<String>>) -> Seq<String>
    decreases faces.len(),
{
    if faces.len() == 0 {
        Seq::empty()
    } else {
        let before = uplinks_of(faces.drop_last(), parsed.drop_last());
        match (faces.last(), parsed.last()) {
            (NdnFaceSpec::Uplink { .. }, Some(addr)) => before.push(addr),
            _ => before,
        }
    }
}

/// The serial links, in order.
pub open spec fn serials_of(faces: Seq<NdnFaceSpec>) -> Seq<(Seq<char>, u32)>
    decreases faces.len(),
{
    if faces.len() == 0 {
        Seq::empty()
    } else {
        let before = serials_of(faces.drop_last());
        match faces.last() {
            NdnFaceSpec::Serial { port, baud } => before.push((port@, baud)),
            _ => before,
        }
    }
}

/// Whether a node has a multicast face.
pub open spec fn has_multicast(faces: Seq<NdnFaceSpec>) -> bool {
    exists|i: int| 0 <= i < faces.len() && #[trigger] faces[i] is Multicast
}

/// Whether a node has an uplink.
pub open spec fn has_uplink(faces: Seq<NdnFaceSpec>) -> bool {
    exists|i: int| 0 <= i < faces.len() && #[trigger] faces[i] is Uplink
}

/// What a node is built from, and which default routes it gets.
#[derive(Clone, Debug, PartialEq, Eq)]
pub struct EnginePlan {
    pub builder: MobileEngineBuilder,
    /// `/` goes to the multicast face.
    pub route_multicast: bool,
    /// `/` goes to every peer.
    pub route_peers: bool,
    /// What a default route costs.
    pub route_cost: u32,
}

/// The ports and speeds of serial links.
pub open spec fn serial_views(list: Seq<(String, u32)>) -> Seq<(Seq<char>, u32)> {
    list.map_values(|s: (String, u32)| (s.0@, s.1))
}

/// Whether `plan` is what `config` comes to. A node that can broadcast tries
/// all its links at once and sends what it cannot serve to the group; one with
/// an uplink sends it there too.
pub open spec fn is_engine_plan(
    plan: EnginePlan,
    config: NdnEngineConfig,
    features: Features,
    parsed: Seq<Option<String>>,
    node_name: Option<Name>,
) -> bool {
    let faces = config.faces@;
    let b = plan.builder;
    &&& b.cs_capacity_mb == config.cs_capacity_mb
    &&& b.pipeline_threads == (if config.pipeline_threads == 0 {
        1
    } else {
        config.pipeline_threads as int
    })
    &&& b.security_profile == profile_of(config.security_profile)
    &&& b.enable_management == features.management
    &&& !b.secured_mgmt
    &&& b.multicast_iface == multicast_of(faces, parsed)
    &&& b.tcp_peers@ == uplinks_of(faces, parsed)
    &&& serial_views(b.serial_ports@) == serials_of(faces)
    &&& b.node_name == (if config.node_name is Some {
        node_name
    } else {
        None
    })
    &&& b.persistent_cs_path == (if features.persistent_cs {
        config.persistent_cs_path
    } else {
        None
    })
    &&& b.strategy == (if has_multicast(faces) {
        MobileStrategy::Multicast
    } else {
        MobileStrategy::BestRoute
    })
    &&& b.unicast_peers@.len() == 0 && b.ws_peers@.len() == 0 && b.webtransport_peers@.len() == 0
    &&& b.ipc_listen_path is None && b.routing_protocols == 0 && !b.discovery_protocol
    &&& !b.log_inspector && !b.compute_mgmt_backend && b.wifi_aware is None
    &&& b.observability is None && b.compute_prefix is None && b.rate_limit is None
    &&& !b.enable_fec && b.tun_config is None
    &&& plan.route_multicast == has_multicast(faces)
    &&& plan.route_peers == has_uplink(faces)
    &&& plan.route_cost == 0
}

/// The route that sends everything to `face_id`.
pub open spec fn root_route(face_id: FaceId, cost: u32) -> RouteView {
    RouteView { prefix: Seq::empty(), face_id, cost }
}

/// The default routes of a node: the root goes to the multicast face where the
/// plan wants that and there is one, and then to each peer where the plan wants
/// that. There are no others.
pub open spec fn default_routes_of(plan: EnginePlan, engine: EngineView) -> Seq<RouteView> {
    (match engine.multicast {
        Some((id, _)) if plan.route_multicast => seq![root_route(id, plan.route_cost)],
        _ => seq![],
    }) + (if plan.route_peers {
        Seq::new(
            engine.peers.len(),
            |k: int| root_route(engine.peers[k].0, plan.route_cost),
        )
    } else {
        seq![]
    })
}

/// The routes of a list, each by its view.
pub open spec fn route_views(list: Seq<Route>) -> Seq<RouteView> {
    list.map_values(|r: Route| r@)
}

/// The default routes that `plan` gives a node with the faces of `engine`.
pub fn default_routes(plan: &EnginePlan, engine: &MobileEngine) -> (routes: Vec<Route>)
    ensures
        route_views(routes@) == default_routes_of(*plan, engine@),
        routes@.len() == default_routes_of(*plan, engine@).len(),
        forall|i: int|
            0 <= i < routes@.len() ==> (#[trigger] routes@[i]).prefix@.len() == 0
                && routes@[i].cost == plan.route_cost && routes@[i].face_id == default_routes_of(
                *plan,
                engine@,
            )[i].face_id,
{
    let mut routes: Vec<Route> = Vec::new();
    assert(route_views(routes@) =~= Seq::<RouteView>::empty());
    if plan.route_multicast {
        match engine.multicast_face() {
            Some(face_id) => {
                routes.push(Route { prefix: Name::root(), face_id, cost: plan.route_cost });
                assert(route_views(routes@) =~= seq![root_route(face_id, plan.route_cost)]);
            },
            None => {},
        }
    }
    let ghost first = route_views(routes@);
    if plan.route_peers {
        let ghost all = Seq::new(
            engine@.peers.len(),
            |k: int| root_route(engine@.peers[k].0, plan.route_cost),
        );
        let peers: Vec<PeerRef> = engine.peers();
        let mut i: usize = 0;
        while i < peers.len()
            invariant
                i <= peers@.len(),
                peers@.len() == engine@.peers.len(),
                forall|k: int|
                    0 <= k < peers@.len() ==> (#[trigger] peers@[k]).face_id()
                        == engine@.peers[k].0,
                all == Seq::new(
                    engine@.peers.len(),
                    |k: int| root_route(engine@.peers[k].0, plan.route_cost),
                ),
                route_views(routes@) == first + all.take(i as int),
            decreases peers@.len() - i,
        {
            let ghost before = routes@;
            routes.push(MobileEngine::route_to_peer(Name::root(), &peers[i], plan.route_cost));
            i = i + 1;
            proof {
                assert(route_views(routes@) =~= route_views(before).push(all[i - 1]));
                assert(first + all.take(i as int) =~= (first + all.take(i - 1)).push(all[i - 1]));
            }
        }
        assert(all.take(i as int) =~= all);
    }
    assert(route_views(routes@) =~= default_routes_of(*plan, engine@));
    assert forall|i: int| 0 <= i < routes@.len() implies (#[trigger] routes@[i]).prefix@.len() == 0
        && routes@[i].cost == plan.route_cost && routes@[i].face_id == default_routes_of(
        *plan,
        engine@,
    )[i].face_id by {
        assert(route_views(routes@)[i] == routes@[i]@);
    }
    routes
}

/// Whether a node has a serial link.
pub open spec fn has_serial(faces: Seq<NdnFaceSpec>) -> bool {
    exists|i: int| 0 <= i < faces.len() && #[trigger] faces[i] is Serial
}

proof fn lemma_all_addresses_parse(faces: Seq<NdnFaceSpec>, parsed: Seq<Option<String>>, i: int)
    requires
        faces.len() == parsed.len(),
        first_bad_address(faces, parsed) is None,
        0 <= i < faces.len(),
    ensures
        face_address(faces[i]) is Some ==> parsed[i] is Some,
    decreases faces.len(),
{
    if i > 0 {
        lemma_all_addresses_parse(faces.skip(1), parsed.skip(1), i - 1);
    }
}

proof fn lemma_faces_of(faces: Seq<NdnFaceSpec>, parsed: Seq<Option<String>>)
    requires
        faces.len() == parsed.len(),
        forall|i: int|
            0 <= i < faces.len() && face_address(faces[i]) is Some ==> #[trigger] parsed[i] is Some,
    ensures
        multicast_of(faces, parsed) is Some <==> has_multicast(faces),
        uplinks_of(faces, parsed).len() > 0 <==> has_uplink(faces),
        serials_of(faces).len() > 0 <==> has_serial(faces),
    decreases faces.len(),
{
    if faces.len() > 0 {
        let n = faces.len() - 1;
        assert forall|i: int|
            0 <= i < n && face_address(faces.drop_last()[i]) is Some implies (
        #[trigger] parsed.drop_last()[i]) is Some by {
            assert(parsed[i] == parsed.drop_last()[i]);
        }
        lemma_faces_of(faces.drop_last(), parsed.drop_last());
        lemma_faces_grow(faces, parsed, n);
        assert(faces.take(n + 1) =~= faces);
        assert(faces.take(n) =~= faces.drop_last());
        assert(parsed[n] == parsed.last());
        assert(faces[n] == faces.last());
        let before = faces.drop_last();
        if has_serial(before) {
            let k = choose|k: int| 0 <= k < before.len() && #[trigger] before[k] is Serial;
            assert(faces[k] is Serial);
        }
        if has_serial(faces) {
            let k = choose|k: int| 0 <= k < faces.len() && #[trigger] faces[k] is Serial;
            if k < n {
                assert(before[k] is Serial);
            }
        }
    }
}

/// A configuration is refused for the address of its first face that does not
/// parse; serial links have none.
pub proof fn law_first_bad_address_is_reported(
    faces: Seq<NdnFaceSpec>,
    parsed: Seq<Option<String>>,
    k: int,
)
    requires
        faces.len() == parsed.len(),
    ensures
        first_bad_address(faces, parsed) is None <==> (forall|i: int|
            0 <= i < faces.len() && !(#[trigger] faces[i] is Serial) ==> parsed[i] is Some),
        0 <= k < faces.len() && !(faces[k] is Serial) && parsed[k] is None && (forall|i: int|
            0 <= i < k && !(#[trigger] faces[i] is Serial) ==> parsed[i] is Some)
            ==> first_bad_address(faces, parsed) == Some(
            match faces[k] {
                NdnFaceSpec::Multicast { iface } => iface@,
                NdnFaceSpec::Uplink { address } => address@,
                NdnFaceSpec::Serial { port, .. } => port@,
            },
        ),
    decreases faces.len(),
{
    if faces.len() > 0 {
        let rest = faces.skip(1);
        let rest_parsed = parsed.skip(1);
        law_first_bad_address_is_reported(rest, rest_parsed, k - 1);
        assert forall|i: int| 0 <= i < rest.len() implies #[trigger] rest[i] == faces[i + 1]
            && rest_parsed[i] == parsed[i + 1] by {}
        if forall|i: int| 0 <= i < faces.len() && !(#[trigger] faces[i] is Serial) ==> parsed[i] is Some {
            assert(faces[0] is Serial || parsed[0] is Some);
            assert forall|i: int|
                0 <= i < rest.len() && !(#[trigger] rest[i] is Serial) implies rest_parsed[i] is Some by {
                assert(faces[i + 1] is Serial || parsed[i + 1] is Some);
            }
        }
        if first_bad_address(faces, parsed) is None {
            assert forall|i: int|
                0 <= i < faces.len() && !(#[trigger] faces[i] is Serial) implies parsed[i] is Some by {
                if i > 0 {
                    assert(rest[i - 1] is Serial || rest_parsed[i - 1] is Some);
                }
            }
        }
        if 0 < k < faces.len() && !(faces[k] is Serial) && parsed[k] is None && (forall|i: int|
            0 <= i < k && !(#[trigger] faces[i] is Serial) ==> parsed[i] is Some) {
            assert(faces[0] is Serial || parsed[0] is Some);
            assert forall|i: int|
                0 <= i < k - 1 && !(#[trigger] rest[i] is Serial) implies rest_parsed[i] is Some by {
                assert(faces[i + 1] is Serial || parsed[i + 1] is Some);
            }
            assert(rest[k - 1] == faces[k]);
        }
    }
}

/// Each face that is configured brings one link, in order: an uplink one TCP
/// peer, a serial face one serial link with its port and speed, and the last
/// multicast face is the one that counts.
pub proof fn law_faces_become_links(
    faces: Seq<NdnFaceSpec>,
    parsed: Seq<Option<String>>,
    face: NdnFaceSpec,
    addr: String,
)
    requires
        faces.len() == parsed.len(),
    ensures
        ({
            let more = faces.push(face);
            let more_parsed = parsed.push(Some(addr));
            match face {
                NdnFaceSpec::Multicast { .. } => {
                    &&& multicast_of(more, more_parsed) == Some(addr)
                    &&& uplinks_of(more, more_parsed) == uplinks_of(faces, parsed)
                    &&& serials_of(more) == serials_of(faces)
                },
                NdnFaceSpec::Uplink { .. } => {
                    &&& multicast_of(more, more_parsed) == multicast_of(faces, parsed)
                    &&& uplinks_of(more, more_parsed) == uplinks_of(faces, parsed).push(addr)
                    &&& serials_of(more) == serials_of(faces)
                },
                NdnFaceSpec::Serial { port, baud } => {
                    &&& multicast_of(more, more_parsed) == multicast_of(faces, parsed)
                    &&& uplinks_of(more, more_parsed) == uplinks_of(faces, parsed)
                    &&& serials_of(more) == serials_of(faces).push((port@, baud))
                },
            }
        }),
        multicast_of(Seq::empty(), Seq::empty()) is None,
        uplinks_of(Seq::empty(), Seq::empty()).len() == 0,
        serials_of(Seq::empty()).len() == 0,
{
    assert(faces.push(face).drop_last() =~= faces);
    assert(parsed.push(Some(addr)).drop_last() =~= parsed);
}

/// A node is built from what its configuration says and nothing else: its store,
/// its threads, of which there is at least one, its validation, its links, its
/// name, and management where that is built in, open to whoever reaches it.
pub proof fn law_plan_follows_its_configuration(
    plan: EnginePlan,
    config: NdnEngineConfig,
    features: Features,
    parsed: Seq<Option<String>>,
    node_name: Option<Name>,
)
    requires
        is_engine_plan(plan, config, features, parsed, node_name),
    ensures
        plan.builder.cs_capacity_mb == config.cs_capacity_mb,
        config.pipeline_threads > 0 ==> plan.builder.pipeline_threads == config.pipeline_threads,
        config.pipeline_threads == 0 ==> plan.builder.pipeline_threads == 1,
        config.security_profile == NdnSecurityProfile::Default <==> plan.builder.security_profile
            == SecurityProfile::Default,
        config.security_profile == NdnSecurityProfile::Disabled <==> plan.builder.security_profile
            == SecurityProfile::Disabled,
        plan.builder.enable_management <==> features.management,
        !plan.builder.secured_mgmt,
        plan.builder.multicast_iface == multicast_of(config.faces@, parsed),
        plan.builder.tcp_peers@ == uplinks_of(config.faces@, parsed),
        plan.builder.serial_ports@.len() == serials_of(config.faces@).len(),
        forall|i: int|
            0 <= i < plan.builder.serial_ports@.len() ==> (#[trigger] plan.builder.serial_ports@[i]).0@
                == serials_of(config.faces@)[i].0 && plan.builder.serial_ports@[i].1 == serials_of(
                config.faces@,
            )[i].1,
        config.node_name is Some ==> plan.builder.node_name == node_name,
        config.node_name is None ==> plan.builder.node_name is None,
        features.persistent_cs ==> plan.builder.persistent_cs_path == config.persistent_cs_path,
        !features.persistent_cs ==> plan.builder.persistent_cs_path is None,
        (exists|i: int| 0 <= i < config.faces@.len() && #[trigger] config.faces@[i] is Multicast)
            ==> plan.builder.strategy == MobileStrategy::Multicast && plan.route_multicast,
        (forall|i: int| 0 <= i < config.faces@.len() ==> !(#[trigger] config.faces@[i] is Multicast))
            ==> plan.builder.strategy == MobileStrategy::BestRoute && !plan.route_multicast,
        plan.route_peers <==> (exists|i: int|
            0 <= i < config.faces@.len() && #[trigger] config.faces@[i] is Uplink),
        plan.route_cost == 0,
        plan.builder.unicast_peers@.len() == 0,
        plan.builder.ws_peers@.len() == 0,
        plan.builder.webtransport_peers@.len() == 0,
        plan.builder.wifi_aware is None,
        plan.builder.tun_config is None,
        plan.builder.rate_limit is None,
        plan.builder.ipc_listen_path is None,
{
    let listed = serial_views(plan.builder.serial_ports@);
    assert forall|i: int| 0 <= i < plan.builder.serial_ports@.len() implies (
    #[trigger] plan.builder.serial_ports@[i]).0@ == serials_of(config.faces@)[i].0
        && plan.builder.serial_ports@[i].1 == serials_of(config.faces@)[i].1 by {
        assert(listed[i] == serials_of(config.faces@)[i]);
    }
}

/// What a node cannot serve goes out at no cost, and only there: to the
/// multicast face if and only if the node has one, and, where it has an uplink,
/// to every peer. The first peers are the uplinks in order, and a node without
/// a serial link has no others.
pub proof fn law_default_routes(
    plan: EnginePlan,
    config: NdnEngineConfig,
    features: Features,
    parsed: Seq<Option<String>>,
    node_name: Option<Name>,
    build: BuildPlan,
    ids: Seq<FaceId>,
)
    requires
        config.faces@.len() == parsed.len(),
        first_bad_address(config.faces@, parsed) is None,
        is_engine_plan(plan, config, features, parsed, node_name),
        is_plan_of(build, plan.builder),
        ids.len() == ids_needed(build),
    ensures
        ({
            let faces = config.faces@;
            let engine = engine_of(build, ids);
            let routes = default_routes_of(plan, engine);
            let uplinks = uplinks_of(faces, parsed);
            let to_group: nat = if has_multicast(faces) {
                1
            } else {
                0
            };
            &&& engine.multicast is Some <==> has_multicast(faces)
            &&& has_multicast(faces) ==> routes[0] == root_route((engine.multicast->0).0, 0)
            &&& uplinks.len() > 0 <==> has_uplink(faces)
            &&& routes.len() == to_group + (if has_uplink(faces) {
                engine.peers.len()
            } else {
                0
            })
            &&& has_uplink(faces) ==> forall|k: int|
                0 <= k < engine.peers.len() ==> routes[to_group + k] == root_route(
                    (#[trigger] engine.peers[k]).0,
                    0,
                )
            &&& uplinks.len() <= engine.peers.len()
            &&& forall|k: int|
                0 <= k < uplinks.len() ==> (#[trigger] engine.peers[k]).1 == PeerSpec::Tcp(
                    uplinks[k],
                )
            &&& !has_serial(faces) ==> engine.peers.len() == uplinks.len()
        }),
{
    let faces = config.faces@;
    assert forall|i: int| 0 <= i < faces.len() && face_address(faces[i]) is Some implies (
    #[trigger] parsed[i]) is Some by {
        lemma_all_addresses_parse(faces, parsed, i);
    }
    lemma_faces_of(faces, parsed);
    assert(serial_views(plan.builder.serial_ports@).len() == plan.builder.serial_ports@.len());
}

proof fn lemma_faces_grow(faces: Seq<NdnFaceSpec>, parsed: Seq<Option<String>>, i: int)
    requires
        0 <= i < faces.len(),
        faces.len() == parsed.len(),
    ensures
        faces.take(i + 1).drop_last() == faces.take(i),
        parsed.take(i + 1).drop_last() == parsed.take(i),
        faces.take(i + 1).last() == faces[i],
        parsed.take(i + 1).last() == parsed[i],
        has_multicast(faces.take(i + 1)) == (has_multicast(faces.take(i)) || faces[i] is Multicast),
        has_uplink(faces.take(i + 1)) == (has_uplink(faces.take(i)) || faces[i] is Uplink),
{
    let now = faces.take(i + 1);
    let before = faces.take(i);
    assert(now.drop_last() =~= before);
    assert(parsed.take(i + 1).drop_last() =~= parsed.take(i));
    assert(now[i] == faces[i]);
    if has_multicast(before) {
        let k = choose|k: int| 0 <= k < before.len() && #[trigger] before[k] is Multicast;
        assert(now[k] is Multicast);
    }
    if has_multicast(now) {
        let k = choose|k: int| 0 <= k < now.len() && #[trigger] now[k] is Multicast;
        if k < i {
            assert(before[k] is Multicast);
        }
    }
    if has_uplink(before) {
        let k = choose|k: int| 0 <= k < before.len() && #[trigger] before[k] is Uplink;
        assert(now[k] is Uplink);
    }
    if has_uplink(now) {
        let k = choose|k: int| 0 <= k < now.len() && #[trigger] now[k] is Uplink;
        if k < i {
            assert(before[k] is Uplink);
        }
    }
}

/// What `config` comes to. `parsed` has, for each face in order, its address in
/// canonical form, or `None` where it does not parse; `node_name` is the name
/// that the configured node name denotes, if it is one.
pub fn build_engine(
    config: NdnEngineConfig,
    features: Features,
    parsed: &Vec<Option<String>>,
    node_name: Option<Name>,
) -> (plan: Result<EnginePlan, NdnError>)
    requires
        parsed@.len() == config.faces@.len(),
    ensures
        match first_bad_address(config.faces@, parsed@) {
            Some(addr) => plan is Err && plan->Err_0@ == (ErrorView::InvalidAddress { addr }),
            None => match config.node_name {
                Some(text) if node_name is None => plan is Err && plan->Err_0@ == (
                ErrorView::InvalidName { name: text@ }),
                _ => plan is Ok && is_engine_plan(plan->Ok_0, config, features, parsed@, node_name),
            },
        },
{
    let mut builder: MobileEngineBuilder = MobileEngine::builder().cs_capacity_mb(
        config.cs_capacity_mb as usize,
    ).pipeline_threads(config.pipeline_threads as usize).security_profile(
        into_security_profile(config.security_profile),
    );
    if features.management {
        builder = builder.with_management();
    }
    let ghost base = builder;
    let ghost faces = config.faces@;
    let mut had_uplink: bool = false;
    let mut had_multicast: bool = false;
    let mut i: usize = 0;
    proof {
        assert(faces.skip(0) =~= faces);
        assert(parsed@.skip(0) =~= parsed@);
        assert(faces.take(0).len() == 0);
        assert(serial_views(builder.serial_ports@) =~= serials_of(faces.take(0)));
        assert(builder.tcp_peers@ =~= uplinks_of(faces.take(0), parsed@.take(0)));
    }
    for face in it: config.faces
        invariant
            it.seq() == faces,
            i == it.index(),
            faces.len() == parsed@.len(),
            first_bad_address(faces, parsed@) == first_bad_address(
                faces.skip(i as int),
                parsed@.skip(i as int),
            ),
            builder.multicast_iface == multicast_of(faces.take(i as int), parsed@.take(i as int)),
            builder.tcp_peers@ == uplinks_of(faces.take(i as int), parsed@.take(i as int)),
            serial_views(builder.serial_ports@) == serials_of(faces.take(i as int)),
            builder == (MobileEngineBuilder {
                multicast_iface: builder.multicast_iface,
                tcp_peers: builder.tcp_peers,
                serial_ports: builder.serial_ports,
                ..base
            }),
            had_multicast == has_multicast(faces.take(i as int)),
            had_uplink == has_uplink(faces.take(i as int)),
    {
        let count: usize = parsed.len();
        proof {
            lemma_faces_grow(faces, parsed@, i as int);
            assert(faces.skip(i as int)[0] == faces[i as int]);
            assert(parsed@.skip(i as int)[0] == parsed@[i as int]);
            assert(faces.skip(i as int).skip(1) =~= faces.skip(i + 1));
            assert(parsed@.skip(i as int).skip(1) =~= parsed@.skip(i + 1));
        }
        match face {
            NdnFaceSpec::Multicast { iface } => {
                match &parsed[i] {
                    None => return Err(NdnError::invalid_addr(iface.as_str())),
                    Some(addr) => {
                        builder = builder.with_udp_multicast(addr.clone());
                    },
                }
                had_multicast = true;
            },
            NdnFaceSpec::Uplink { address } => {
                match &parsed[i] {
                    None => return Err(NdnError::invalid_addr(address.as_str())),
                    Some(addr) => {
                        builder = builder.with_tcp_peer(addr.clone());
                    },
                }
                had_uplink = true;
            },
            NdnFaceSpec::Serial { port, baud } => {
                let ghost before = builder.serial_ports@;
                builder = builder.with_serial(port, baud);
                assert(serial_views(builder.serial_ports@) =~= serial_views(before).push(
                    (port@, baud),
                ));
            },
        }
        i = i + 1;
    }
    proof {
        assert(faces.take(faces.len() as int) =~= faces);
        assert(parsed@.take(faces.len() as int) =~= parsed@);
        assert(faces.skip(faces.len() as int).len() == 0);
    }
    match config.node_name {
        None => {},
        Some(text) => match node_name {
            None => return Err(NdnError::invalid_name(text.as_str())),
            Some(name) => {
                builder = builder.with_discovery(name);
            },
        },
    }
    if features.persistent_cs {
        if let Some(path) = config.persistent_cs_path {
            builder = builder.with_persistent_cs(path);
        }
    }
    if had_multicast {
        builder = builder.with_strategy(MobileStrategy::Multicast);
    }
    Ok(
        EnginePlan {
            builder,
            route_multicast: had_multicast,
            route_peers: had_uplink,
            route_cost: 0,
        },
    )
}

} // verus!
