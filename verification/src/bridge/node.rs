//! The calls on a node: what each one needs before the forwarder is asked, what
//! it leaves behind, and how its failures are reported.

use crate::bridge::discovery::{
    node_prefix_text, noted, peer_node_prefix, DiscoveryState, DiscoveryView, PeerView, Sighting,
};
use crate::bridge::engine::{should_raise, Features, InfraAction, InfraLinks, InfraView};
use crate::bridge::offer::{OfferBoard, OfferView};
use crate::bridge::sharing::{
    is_offered, nothing_shared, offer_error, offered, offers_text, withdrawn, Sharing, SharingView,
};
use crate::bridge::types::{app_error_view, AppError, ErrorView, NdnData, NdnError};
use crate::name::{text_component, Name};
use crate::text;
use vstd::prelude::*;

verus! {

/// Segment size of a relayed object.
pub const RELAY_CHUNK: u64 = 8192;

/// Why a fetch did not come to an answer.
#[derive(Clone, Debug, PartialEq, Eq)]
pub enum FetchFailure {
    /// What was asked for is not a name.
    BadName,
    /// The forwarding hint is not a name.
    BadHint(String),
    /// The engine is shut down.
    NoEngine,
    /// The application layer failed.
    App(AppError),
}

/// How a failed fetch of `name` is reported.
pub open spec fn fetch_error(name: Seq<char>, failure: FetchFailure) -> ErrorView {
    match failure {
        FetchFailure::BadName => ErrorView::InvalidName { name },
        FetchFailure::BadHint(hint) => ErrorView::InvalidName { name: hint@ },
        FetchFailure::NoEngine => ErrorView::Engine { msg: "engine is shut down"@ },
        FetchFailure::App(e) => app_error_view(e, name),
    }
}

fn report_fetch(name: &str, failure: FetchFailure) -> (error: NdnError)
    ensures
        error@ == fetch_error(name@, failure),
{
    match failure {
        FetchFailure::BadName => NdnError::invalid_name(name),
        FetchFailure::BadHint(hint) => NdnError::invalid_name(hint.as_str()),
        FetchFailure::NoEngine => NdnError::engine("engine is shut down"),
        FetchFailure::App(e) => NdnError::from_app(e, name),
    }
}

/// The answer to a fetch: the packet's name and content.
pub fn fetch(name: &str, outcome: Result<(String, Option<Vec<u8>>), FetchFailure>) -> (data: Result<
    NdnData,
    NdnError,
>)
    ensures
        match outcome {
            Ok((packet, content)) => data is Ok && data->Ok_0.name == packet
                && data->Ok_0.content@ == match content {
                Some(bytes) => bytes@,
                None => Seq::<u8>::empty(),
            },
            Err(failure) => data is Err && data->Err_0@ == fetch_error(name@, failure),
        },
{
    match outcome {
        Ok((packet, content)) => Ok(NdnData::from_packet(packet, content)),
        Err(failure) => Err(report_fetch(name, failure)),
    }
}

/// The answer to a fetch of content alone: of one packet, of a whole object, or
/// of a verified object.
pub fn get(name: &str, outcome: Result<Vec<u8>, FetchFailure>) -> (content: Result<
    Vec<u8>,
    NdnError,
>)
    ensures
        match outcome {
            Ok(bytes) => content == Ok::<Vec<u8>, NdnError>(bytes),
            Err(failure) => content is Err && content->Err_0@ == fetch_error(name@, failure),
        },
{
    match outcome {
        Ok(bytes) => Ok(bytes),
        Err(failure) => Err(report_fetch(name, failure)),
    }
}

/// The name under which a subscriber takes part in a sync group.
pub fn subscriber_name(group: Name, process_id: u32) -> (name: Name)
    ensures
        name@ == group@.push(text_component("node-"@ + text::decimal(process_id as nat))),
{
    let mut node: String = "node-".to_owned();
    text::push_decimal(&mut node, process_id as u64);
    group.append_str(node.as_str())
}

/// A port number out of the 32 bits it comes in; the upper half is dropped.
pub fn port_of(peer_port: u32) -> (port: u16)
    ensures
        port == peer_port % 0x1_0000,
{
    (peer_port % 0x1_0000) as u16
}

/// Where an application handle comes from.
#[derive(Clone, Copy, Debug, PartialEq, Eq, Structural)]
pub enum HandleSource {
    /// The one that came with the engine.
    Primary,
    /// A fresh one of the engine.
    Fresh,
}

/// What a node keeps.
pub ghost struct NodeView {
    pub running: bool,
    pub primary_handle: bool,
    pub discovery: Option<DiscoveryView>,
    pub sharing: SharingView,
    pub links: InfraView,
}

/// What follows from a beacon.
#[derive(Clone, Debug, PartialEq, Eq)]
pub struct BeaconActions {
    /// Point this node prefix at the radio the peer was heard on.
    pub route: Option<String>,
    /// Raise a bulk link.
    pub link: InfraAction,
}

/// The node behind the bindings.
pub struct NdnEngine {
    running: bool,
    primary_handle: bool,
    discovery: Option<DiscoveryState>,
    sharing: Sharing,
    links: InfraLinks,
}

impl View for NdnEngine {
    type V = NodeView;

    closed spec fn view(&self) -> NodeView {
        NodeView {
            running: self.running,
            primary_handle: self.primary_handle,
            discovery: match self.discovery {
                Some(state) => Some(state@),
                None => None,
            },
            sharing: self.sharing@,
            links: self.links@,
        }
    }
}

/// A node whose engine has just been built.
pub open spec fn fresh_node() -> NodeView {
    NodeView {
        running: true,
        primary_handle: true,
        discovery: None,
        sharing: nothing_shared(),
        links: InfraView { local_addr: None, peers: Seq::empty(), socket_fd: None },
    }
}

/// The presence of a node that has heard nobody.
pub open spec fn alone(node_id: Seq<char>, label: Seq<char>) -> DiscoveryView {
    DiscoveryView { local_id: node_id, local_label: label, peers: Seq::<PeerView>::empty() }
}

/// What a call fails with that needs a running engine.
pub open spec fn shut_down() -> ErrorView {
    ErrorView::Engine { msg: "engine is shut down"@ }
}

/// `node` after its engine was shut down.
pub open spec fn shut(node: NodeView) -> NodeView {
    NodeView { running: false, ..node }
}

/// `node` after a consumer asked for a handle.
pub open spec fn handle_taken(node: NodeView) -> NodeView {
    NodeView { primary_handle: false, ..node }
}

/// The handle that the next consumer gets.
pub open spec fn next_handle(node: NodeView) -> Result<HandleSource, ErrorView> {
    if node.primary_handle {
        Ok(HandleSource::Primary)
    } else if node.running {
        Ok(HandleSource::Fresh)
    } else {
        Err(shut_down())
    }
}

/// Whether a beacon of `id` gets a route to its sender.
pub open spec fn beacon_is_routed(node: NodeView, id: Seq<char>, prefix_parses: bool) -> bool {
    id.len() > 0 && node.discovery is Some && prefix_parses && node.running
}

/// What stands in the way of a bulk face to a peer, if anything does. `kind`
/// names the address.
pub open spec fn bulk_face_error(
    node: NodeView,
    node_id: Seq<char>,
    prefix_parses: bool,
    kind: Seq<char>,
    peer_ip: Seq<char>,
    addr_parses: bool,
) -> Option<ErrorView> {
    if !prefix_parses {
        Some(ErrorView::InvalidName { name: node_prefix_text(node_id) })
    } else if !addr_parses {
        Some(ErrorView::Engine { msg: "unparseable "@ + kind + " '"@ + peer_ip + "'"@ })
    } else if !node.running {
        Some(shut_down())
    } else {
        None
    }
}

/// Whether `ready` is the go-ahead, or the error that stands in the way.
pub open spec fn is_go_ahead(ready: Result<bool, NdnError>, error: Option<ErrorView>) -> bool {
    match error {
        Some(error) => ready is Err && ready->Err_0@ == error,
        None => ready == Ok::<bool, NdnError>(true),
    }
}

/// A node that was shut down is of no more use: beside the handle that came with
/// the engine it hands out none, no bulk face is attached to it, and no beacon is
/// routed.
pub proof fn law_shut_down_node_is_unusable(
    node: NodeView,
    id: Seq<char>,
    kind: Seq<char>,
    peer_ip: Seq<char>,
    prefix_parses: bool,
    addr_parses: bool,
)
    ensures
        next_handle(handle_taken(shut(node))) == Err::<HandleSource, ErrorView>(shut_down()),
        bulk_face_error(shut(node), id, prefix_parses, kind, peer_ip, addr_parses) is Some,
        !beacon_is_routed(shut(node), id, prefix_parses),
{
}

/// The first consumer gets the handle that came with the engine, even after a
/// shutdown, and every other one a fresh handle for as long as the engine runs;
/// asking for one changes nothing else, and neither does a shutdown.
pub proof fn law_handles_are_given_out(node: NodeView)
    ensures
        node.primary_handle ==> next_handle(node) == Ok::<HandleSource, ErrorView>(
            HandleSource::Primary,
        ),
        !node.primary_handle && node.running ==> next_handle(node) == Ok::<HandleSource, ErrorView>(
            HandleSource::Fresh,
        ),
        !node.primary_handle && !node.running ==> next_handle(node) == Err::<
            HandleSource,
            ErrorView,
        >(ErrorView::Engine { msg: "engine is shut down"@ }),
        handle_taken(node) == (NodeView { primary_handle: false, ..node }),
        shut(node) == (NodeView { running: false, ..node }),
        shut(shut(node)) == shut(node),
{
}

/// What stands in the way of a bulk face is told in this order: a node id that
/// makes no name, an address that is none, an engine that does not run.
pub proof fn law_bulk_face_checks_in_order(
    node: NodeView,
    id: Seq<char>,
    kind: Seq<char>,
    peer_ip: Seq<char>,
)
    ensures
        forall|addr_parses: bool| #[trigger]
            bulk_face_error(node, id, false, kind, peer_ip, addr_parses) == Some(
                ErrorView::InvalidName { name: "/ndn/node"@ + "/"@ + id },
            ),
        bulk_face_error(node, id, true, kind, peer_ip, false) == Some(
            ErrorView::Engine { msg: "unparseable "@ + kind + " '"@ + peer_ip + "'"@ },
        ),
        bulk_face_error(node, id, true, kind, peer_ip, true) == if node.running {
            None
        } else {
            Some(ErrorView::Engine { msg: "engine is shut down"@ })
        },
{
}

/// A beacon is routed exactly where it has an id that makes a name, discovery has
/// started, and the engine runs.
pub proof fn law_beacons_are_routed(node: NodeView, id: Seq<char>)
    ensures
        !beacon_is_routed(node, id, false),
        id.len() == 0 ==> !beacon_is_routed(node, id, true),
        node.discovery is None ==> !beacon_is_routed(node, id, true),
        id.len() > 0 && node.discovery is Some && node.running ==> beacon_is_routed(node, id, true),
{
}

/// A call goes ahead exactly where nothing stands in its way, and otherwise fails
/// with just that.
pub proof fn law_errors_are_passed_on(ready: Result<bool, NdnError>, error: ErrorView)
    ensures
        is_go_ahead(ready, None) <==> ready == Ok::<bool, NdnError>(true),
        is_go_ahead(ready, Some(error)) <==> (ready matches Err(e) && e@ == error),
{
}

/// A failed fetch names what was asked for, or the hint that was no name, and a
/// failure of the application layer is reported as such.
pub proof fn law_failed_fetch_is_reported(name: Seq<char>, hint: String, e: AppError)
    ensures
        fetch_error(name, FetchFailure::BadName) == (ErrorView::InvalidName { name }),
        fetch_error(name, FetchFailure::BadHint(hint)) == (ErrorView::InvalidName { name: hint@ }),
        fetch_error(name, FetchFailure::NoEngine) == (ErrorView::Engine {
            msg: "engine is shut down"@,
        }),
        e is Timeout ==> fetch_error(name, FetchFailure::App(e)) == (ErrorView::Timeout { name }),
        e matches AppError::Nacked { reason: Some(reason) } ==> fetch_error(
            name,
            FetchFailure::App(e),
        ) == (ErrorView::Nacked { name, reason: reason@ }),
        e matches AppError::Connection(msg) ==> fetch_error(name, FetchFailure::App(e)) == (
        ErrorView::Engine { msg: msg@ }),
{
}

impl NdnEngine {
    pub fn new() -> (node: NdnEngine)
        ensures
            node@ == fresh_node(),
            node@.running && node@.primary_handle && node@.discovery is None,
            node@.sharing.board is None && node@.sharing.received == 0 && node@.sharing.total == 0,
            node@.links.local_addr is None && node@.links.peers.len() == 0
                && node@.links.socket_fd is None,
    {
        NdnEngine {
            running: true,
            primary_handle: true,
            discovery: None,
            sharing: Sharing::new(),
            links: InfraLinks::new(),
        }
    }

    /// Whether the engine runs.
    pub fn is_running(&self) -> (running: bool)
        ensures
            running == self@.running,
    {
        self.running
    }

    /// Shuts the engine down, and says whether there was one to drain.
    pub fn shutdown(&mut self) -> (was_running: bool)
        ensures
            was_running == old(self)@.running,
            final(self)@ == shut(old(self)@),
    {
        let was_running: bool = self.running;
        self.running = false;
        was_running
    }

    /// Fails where the engine is shut down.
    pub fn require_engine(&self) -> (running: Result<bool, NdnError>)
        ensures
            is_go_ahead(running, if self@.running { None } else { Some(shut_down()) }),
    {
        if self.running {
            Ok(true)
        } else {
            Err(NdnError::engine("engine is shut down"))
        }
    }

    /// A handle for a consumer: the primary one the first time, even after a
    /// shutdown; after that fresh ones, as long as the engine runs.
    pub fn take_consumer_handle(&mut self) -> (source: Result<HandleSource, NdnError>)
        ensures
            final(self)@ == handle_taken(old(self)@),
            match next_handle(old(self)@) {
                Ok(handle) => source == Ok::<HandleSource, NdnError>(handle),
                Err(error) => source is Err && source->Err_0@ == error,
            },
    {
        if self.primary_handle {
            self.primary_handle = false;
            return Ok(HandleSource::Primary);
        }
        match self.require_engine() {
            Ok(_) => Ok(HandleSource::Fresh),
            Err(error) => Err(error),
        }
    }

    /// Starts discovery under this presence, in place of any before it. The
    /// returned prefix is the node's own.
    pub fn start_discovery(&mut self, node_id: String, label: String) -> (prefix: String)
        ensures
            prefix@ == node_prefix_text(node_id@),
            final(self)@ == (NodeView { discovery: Some(alone(node_id@, label@)), ..old(self)@ }),
            final(self)@.discovery == Some(
                (DiscoveryView {
                    local_id: node_id@,
                    local_label: label@,
                    peers: Seq::<PeerView>::empty(),
                }),
            ),
    {
        let prefix: String = peer_node_prefix(node_id.as_str());
        self.discovery = Some(DiscoveryState::new(node_id, label));
        prefix
    }

    /// Takes in a peer's beacon. An empty address means that the beacon carried
    /// none. `prefix_parses` and `addr_parses` tell whether the peer's prefix is
    /// a name and its address one. Nothing comes of a beacon without an id, or
    /// before discovery has started; routes and links come of it only while the
    /// engine runs.
    pub fn note_peer(
        &mut self,
        id: String,
        label: String,
        face: String,
        rssi: i32,
        infra_addr: String,
        now_ms: u64,
        prefix_parses: bool,
        addr_parses: bool,
    ) -> (actions: BeaconActions)
        ensures
            ({
                let infra = if infra_addr@.len() == 0 {
                    None
                } else {
                    Some(infra_addr@)
                };
                let s = Sighting {
                    id: id@,
                    label: label@,
                    face: face@,
                    rssi_dbm: rssi as int,
                    infra_addr: infra,
                    now_ms: now_ms as int,
                };
                let reachable = beacon_is_routed(old(self)@, id@, prefix_parses);
                let raise = reachable && infra is Some && should_raise(
                    old(self)@.links,
                    id@,
                    infra_addr@,
                    addr_parses,
                );
                &&& final(self)@.discovery == match old(self)@.discovery {
                    Some(st) if id@.len() > 0 => Some(noted(st, s)),
                    other => other,
                }
                &&& actions.route is Some <==> reachable
                &&& actions.route matches Some(prefix) ==> prefix@ == node_prefix_text(id@)
                &&& actions.link is Raise <==> raise
                &&& raise ==> Some(actions.link->Raise_fd) == old(self)@.links.socket_fd
                    && actions.link->Raise_address@ == crate::bridge::engine::infra_address(
                    infra_addr@,
                )
                &&& final(self)@.links == (if raise {
                    InfraView {
                        peers: text::with_key(old(self)@.links.peers, id@),
                        socket_fd: None,
                        ..old(self)@.links
                    }
                } else {
                    old(self)@.links
                })
                &&& final(self)@ == (NodeView {
                    discovery: final(self)@.discovery,
                    links: final(self)@.links,
                    ..old(self)@
                })
            }),
    {
        if id.as_str().is_empty() {
            return BeaconActions { route: None, link: InfraAction::Skip };
        }
        match self.discovery.take() {
            None => BeaconActions { route: None, link: InfraAction::Skip },
            Some(table) => {
                let mut route: Option<String> = None;
                let mut link: InfraAction = InfraAction::Skip;
                if prefix_parses && self.running {
                    route = Some(peer_node_prefix(id.as_str()));
                    if !infra_addr.as_str().is_empty() {
                        link = self.links.maybe_attach_infra_tunnel(
                            id.as_str(),
                            infra_addr.as_str(),
                            addr_parses,
                        );
                    }
                }
                let infra: Option<String> = if infra_addr.as_str().is_empty() {
                    None
                } else {
                    Some(infra_addr)
                };
                let mut state = table;
                state.note_peer(id, label, face, rssi, infra, now_ms);
                self.discovery = Some(state);
                BeaconActions { route, link }
            },
        }
    }

    /// See [`InfraLinks::attach_failed`].
    pub fn attach_failed(&mut self, id: &str)
        ensures
            final(self)@ == (NodeView {
                links: InfraView {
                    peers: text::without_key(old(self)@.links.peers, id@),
                    ..old(self)@.links
                },
                ..old(self)@
            }),
    {
        self.links.attach_failed(id);
    }

    /// See [`InfraLinks::set_infra_addr`].
    pub fn set_infra_addr(&mut self, ipv4: String)
        ensures
            ({
                let next = if ipv4@.len() == 0 {
                    None
                } else {
                    Some(ipv4@)
                };
                final(self)@ == (NodeView {
                    links: if old(self)@.links.local_addr == next {
                        old(self)@.links
                    } else {
                        InfraView { local_addr: next, peers: Seq::empty(), ..old(self)@.links }
                    },
                    ..old(self)@
                })
            }),
    {
        self.links.set_infra_addr(ipv4);
    }

    /// See [`InfraLinks::set_infra_socket`].
    pub fn set_infra_socket(&mut self, fd: i32) -> (replaced: Option<i32>)
        ensures
            replaced == old(self)@.links.socket_fd,
            final(self)@ == (NodeView {
                links: InfraView {
                    peers: Seq::empty(),
                    socket_fd: Some(fd),
                    ..old(self)@.links
                },
                ..old(self)@
            }),
    {
        self.links.set_infra_socket(fd)
    }

    /// The nearby peers as JSON, if discovery has started.
    pub fn peers_dataset(&mut self, now_ms: u64) -> (json: Option<String>)
        ensures
            match old(self)@.discovery {
                Some(st) => {
                    &&& json is Some
                    &&& json->0@ == crate::bridge::discovery::dataset_json(
                        crate::bridge::discovery::pruned(st, now_ms as int),
                        now_ms as int,
                    )
                    &&& final(self)@ == (NodeView {
                        discovery: Some(crate::bridge::discovery::pruned(st, now_ms as int)),
                        ..old(self)@
                    })
                },
                None => json is None && final(self)@ == old(self)@,
            },
    {
        match self.discovery.take() {
            None => None,
            Some(table) => {
                let mut state = table;
                let json: String = state.snapshot_json(now_ms);
                self.discovery = Some(state);
                Some(json)
            },
        }
    }

    /// See [`Sharing::start_offer_board`].
    pub fn start_offer_board(&mut self, features: Features, board: Result<OfferBoard, NdnError>) -> (
    started: Result<bool, NdnError>)
        ensures
            if !features.identity {
                started is Err && started->Err_0@ == (ErrorView::Engine {
                    msg: "identity feature not enabled in this build"@,
                }) && final(self)@ == old(self)@
            } else {
                match board {
                    Ok(board) => started == Ok::<bool, NdnError>(true) && final(self)@ == (NodeView {
                        sharing: SharingView { board: Some(board@), ..old(self)@.sharing },
                        ..old(self)@
                    }),
                    Err(error) => started == Err::<bool, NdnError>(error) && final(self)@
                        == old(self)@,
                }
            },
    {
        self.sharing.start_offer_board(features, board)
    }

    /// Offers a file on the board, which has to be up.
    pub fn add_offer(
        &mut self,
        file_id: String,
        display_name: String,
        mime: String,
        size: u64,
        uri: String,
    ) -> (name: Result<String, NdnError>)
        ensures
            match offer_error(old(self)@.sharing, file_id@) {
                Some(error) => name is Err && name->Err_0@ == error && final(self)@ == old(self)@,
                None => name is Ok && name->Ok_0@ == uri@ && final(self)@ == (NodeView {
                    sharing: offered(
                        old(self)@.sharing,
                        OfferView {
                            file_id: file_id@,
                            display_name: display_name@,
                            mime: mime@,
                            name: uri@,
                            size: size as nat,
                        },
                    ),
                    ..old(self)@
                }),
            },
    {
        self.sharing.add_offer(file_id, display_name, mime, size, uri)
    }

    /// Stops offering a file, and says whether it was offered.
    pub fn remove_offer(&mut self, file_id: &str) -> (removed: Result<bool, NdnError>)
        ensures
            removed == Ok::<bool, NdnError>(is_offered(old(self)@.sharing, file_id@)),
            final(self)@ == (NodeView {
                sharing: withdrawn(old(self)@.sharing, file_id@),
                ..old(self)@
            }),
    {
        self.sharing.remove_offer(file_id)
    }

    /// The current offers as JSON.
    pub fn list_offers(&self) -> (json: String)
        ensures
            json@ == offers_text(self@.sharing),
    {
        self.sharing.list_offers()
    }

    /// A fetch begins: its progress is counted from zero.
    pub fn begin_fetch(&mut self)
        ensures
            final(self)@ == (NodeView {
                sharing: SharingView { received: 0, total: 0, ..old(self)@.sharing },
                ..old(self)@
            }),
    {
        self.sharing.begin_fetch();
    }

    /// Progress of the fetch under way.
    pub fn on_fetch_progress(&mut self, received: u64, total: u64)
        ensures
            final(self)@ == (NodeView {
                sharing: SharingView { received, total, ..old(self)@.sharing },
                ..old(self)@
            }),
    {
        self.sharing.on_fetch_progress(received, total);
    }

    /// Segments received so far.
    pub fn fetch_progress_received(&self) -> (n: u64)
        ensures
            n == self@.sharing.received,
    {
        self.sharing.progress().0
    }

    /// Segments of the object being fetched; zero until that is known.
    pub fn fetch_progress_total(&self) -> (n: u64)
        ensures
            n == self@.sharing.total,
    {
        self.sharing.progress().1
    }

    /// Whether a Wi-Fi Aware face can be attached.
    pub fn attach_wifi_aware(&self, features: Features) -> (attached: Result<bool, NdnError>)
        ensures
            is_go_ahead(
                attached,
                if !features.wifi_aware {
                    Some(ErrorView::Engine { msg: "wifi-aware feature not enabled"@ })
                } else if !self@.running {
                    Some(shut_down())
                } else {
                    None
                },
            ),
    {
        if !features.wifi_aware {
            return Err(NdnError::engine("wifi-aware feature not enabled"));
        }
        self.require_engine()
    }

    /// Whether a BLE advertising face can be attached.
    pub fn attach_ble(&self, features: Features) -> (attached: Result<bool, NdnError>)
        ensures
            is_go_ahead(
                attached,
                if !features.ble {
                    Some(ErrorView::Engine { msg: "ble feature not enabled"@ })
                } else if !self@.running {
                    Some(shut_down())
                } else {
                    None
                },
            ),
    {
        if !features.ble {
            return Err(NdnError::engine("ble feature not enabled"));
        }
        self.require_engine()
    }

    /// Whether a bulk face to a peer can be attached: the peer's prefix has to
    /// be a name, its address one, and the engine running. `kind` names the
    /// address in the error.
    fn check_bulk_face(
        &self,
        node_id: &str,
        prefix_parses: bool,
        kind: &str,
        peer_ip: &str,
        addr_parses: bool,
    ) -> (ready: Result<bool, NdnError>)
        ensures
            is_go_ahead(
                ready,
                bulk_face_error(self@, node_id@, prefix_parses, kind@, peer_ip@, addr_parses),
            ),
    {
        if !prefix_parses {
            let prefix: String = peer_node_prefix(node_id);
            return Err(NdnError::invalid_name(prefix.as_str()));
        }
        if !addr_parses {
            let head: String = text::concat3("unparseable ", kind, " '");
            let msg: String = text::concat3(head.as_str(), peer_ip, "'");
            return Err(NdnError::engine(msg.as_str()));
        }
        self.require_engine()
    }

    /// Whether a Wi-Fi Aware data path to a peer can be attached.
    pub fn attach_ndp_face(
        &self,
        node_id: &str,
        prefix_parses: bool,
        peer_ip: &str,
        addr_parses: bool,
    ) -> (ready: Result<bool, NdnError>)
        ensures
            is_go_ahead(
                ready,
                bulk_face_error(
                    self@,
                    node_id@,
                    prefix_parses,
                    "NDP peer IPv6"@,
                    peer_ip@,
                    addr_parses,
                ),
            ),
    {
        self.check_bulk_face(node_id, prefix_parses, "NDP peer IPv6", peer_ip, addr_parses)
    }

    /// Whether a Wi-Fi Direct face to a peer can be attached.
    pub fn attach_wifi_direct_face(
        &self,
        node_id: &str,
        prefix_parses: bool,
        peer_ip: &str,
        addr_parses: bool,
    ) -> (ready: Result<bool, NdnError>)
        ensures
            is_go_ahead(
                ready,
                bulk_face_error(
                    self@,
                    node_id@,
                    prefix_parses,
                    "Wi-Fi Direct peer ip"@,
                    peer_ip@,
                    addr_parses,
                ),
            ),
    {
        self.check_bulk_face(node_id, prefix_parses, "Wi-Fi Direct peer ip", peer_ip, addr_parses)
    }

    /// Whether a Wi-Fi Direct group can be joined.
    pub fn attach_wifi_direct_multicast_face(&self, local_ip: &str, addr_parses: bool) -> (ready:
        Result<bool, NdnError>)
        ensures
            is_go_ahead(
                ready,
                bulk_face_error(
                    self@,
                    ""@,
                    true,
                    "Wi-Fi Direct local IPv4"@,
                    local_ip@,
                    addr_parses,
                ),
            ),
    {
        self.check_bulk_face("", true, "Wi-Fi Direct local IPv4", local_ip, addr_parses)
    }

    /// Whether the node can become the producer of record of an object. Which
    /// check fails first decides the error.
    pub fn register_object_relay(
        &self,
        features: Features,
        public_name: &str,
        public_parses: bool,
        source_prefix: &str,
        source_parses: bool,
        has_identity: bool,
    ) -> (ready: Result<bool, NdnError>)
        ensures
            ready is Ok <==> features.identity && public_parses && source_parses && has_identity
                && self@.running,
            ready is Ok ==> ready == Ok::<bool, NdnError>(true),
            ready matches Err(error) ==> error@ == (if !features.identity {
                ErrorView::Engine { msg: "identity feature not enabled in this build"@ }
            } else if !public_parses {
                ErrorView::InvalidName { name: public_name@ }
            } else if !source_parses {
                ErrorView::InvalidName { name: source_prefix@ }
            } else if !has_identity {
                ErrorView::Engine {
                    msg: "no operator identity loaded — cannot sign relayed object"@,
                }
            } else {
                ErrorView::Engine { msg: "engine shut down"@ }
            }),
    {
        if !features.identity {
            return Err(NdnError::engine("identity feature not enabled in this build"));
        }
        if !public_parses {
            return Err(NdnError::invalid_name(public_name));
        }
        if !source_parses {
            return Err(NdnError::invalid_name(source_prefix));
        }
        if !has_identity {
            return Err(
                NdnError::engine("no operator identity loaded — cannot sign relayed object"),
            );
        }
        if !self.running {
            return Err(NdnError::engine("engine shut down"));
        }
        Ok(true)
    }
}

/// How a failure of the forwarder to attach a face is reported; `what` names the
/// attempt.
pub fn attach_error(what: &str, why: &str) -> (error: NdnError)
    ensures
        error@ == (ErrorView::Engine { msg: what@ + ": "@ + why@ }),
{
    let msg: String = text::concat3(what, ": ", why);
    NdnError::engine(msg.as_str())
}

} // verus!
