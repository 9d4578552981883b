use ndn_mobile::bridge::client::{CongestionStrategy, NdnClient};
use ndn_mobile::bridge::discovery::{new_state, peer_node_prefix, DiscoveryState};
use ndn_mobile::bridge::engine::{
    build_engine, default_routes, infra_peer_address, into_security_profile, same_subnet24,
    worker_threads, Features, InfraAction, InfraLinks,
};
use ndn_mobile::bridge::node::{
    attach_error, fetch, get, port_of, subscriber_name, FetchFailure, HandleSource, NdnEngine,
};
use ndn_mobile::bridge::offer::{
    first_answer, keep_recent, offers_json, segment_count, ContentRequest, ContentStream,
    OfferBoard, OfferEntry, StreamAction,
};
use ndn_mobile::bridge::types::{
    AppError, NdnEngineConfig, NdnError, NdnFaceSpec, NdnSecurityProfile,
};
use ndn_mobile::bridge::radio::{link_cost, link_route, radio_named, LinkKind};
use ndn_mobile::mobile::engine::{FaceId, MobileEngine, MobileStrategy, Route, SecurityProfile};
use ndn_mobile::name::{Component, Name};

fn name(text: &str) -> Name {
    let mut n = Name::root();
    for part in text.split('/').filter(|p| !p.is_empty()) {
        n = n.append_str(part);
    }
    n
}

fn engine_error(msg: &str) -> NdnError {
    NdnError::Engine { msg: msg.to_string() }
}

fn s(text: &str) -> String {
    text.to_string()
}

const ALL: Features =
    Features { management: true, identity: true, wifi_aware: true, ble: true, persistent_cs: true };
const NONE: Features = Features {
    management: false,
    identity: false,
    wifi_aware: false,
    ble: false,
    persistent_cs: false,
};

#[test]
fn discovery_dataset_lists_noted_peers() {
    let mut engine = NdnEngine::new();
    assert_eq!(engine.peers_dataset(0), None);
    assert_eq!(engine.start_discovery(s("node-a"), s("Alice's S23")), "/ndn/node/node-a");
    engine.note_peer(s("node-b"), s("Bob's Pixel"), s("ble"), -55, s(""), 0, true, true);
    engine.note_peer(s("node-c"), s("Carol"), s("wifi-aware"), -70, s(""), 0, true, true);
    // Our own id and empty ids never list.
    engine.note_peer(s("node-a"), s("me"), s("ble"), 0, s(""), 0, true, true);
    engine.note_peer(s(""), s("ghost"), s("ble"), 0, s(""), 0, true, true);

    let json = engine.peers_dataset(0).expect("fetch the discovery dataset");
    assert!(json.contains("\"id\":\"node-b\""), "{json}");
    assert!(json.contains("Bob's Pixel"), "{json}");
    assert!(json.contains("\"id\":\"node-c\""), "{json}");
    assert!(json.contains("\"ble\""));
    assert!(json.contains("\"rssi\":-55"));
    // node-a is us: it appears under "self", never in the peers array.
    let peers_part = json.split("\"peers\":").nth(1).expect("peers array");
    assert!(!peers_part.contains("node-a"), "self must not be a peer: {json}");
    assert!(!json.contains("ghost"), "empty-id peer must not appear");
    engine.shutdown();
}

#[test]
fn dataset_is_json() {
    let mut engine = NdnEngine::new();
    engine.start_discovery(s("self-1"), s("Anchor"));
    engine.note_peer(s("peer-9"), s("Pixel"), s("nan"), -58, s(""), 0, true, true);
    engine.note_peer(s("peer-9"), s(""), s("ble"), -52, s(""), 40, true, true);
    assert_eq!(
        engine.peers_dataset(50).unwrap(),
        "{\"self\":{\"id\":\"self-1\",\"label\":\"Anchor\"},\"peers\":[{\"id\":\"peer-9\",\
         \"label\":\"Pixel\",\"faces\":[\"ble\",\"nan\"],\"rssi\":-52,\"age_ms\":10}]}"
    );
}

#[test]
fn silent_peers_are_dropped() {
    let mut state: DiscoveryState = new_state(s("me"), s("M\"e"));
    state.note_peer(s("a"), s(""), s(""), 0, Some(s("10.0.0.2")), 100);
    state.note_peer(s("b"), s("B"), s("ble"), 1, None, 200);
    state.note_peer(s(""), s("x"), s("ble"), 1, None, 200);
    state.note_peer(s("a"), s("A"), s("nan"), -7, None, 300);
    assert_eq!(
        state.snapshot_json(30_200),
        "{\"self\":{\"id\":\"me\",\"label\":\"M\\\"e\"},\"peers\":[{\"id\":\"a\",\"label\":\"A\",\
         \"faces\":[\"nan\"],\"rssi\":-7,\"age_ms\":29900,\"infra\":\"10.0.0.2\"}]}"
    );
    assert!(state.snapshot_json(30_300).contains("\"peers\":[]"));
    assert_eq!(peer_node_prefix("p"), "/ndn/node/p");
}

#[test]
fn beacons_route_and_raise_links() {
    let mut engine = NdnEngine::new();
    // Nothing comes of a beacon before discovery, or without an id.
    let early = engine.note_peer(s("p"), s(""), s(""), 0, s(""), 0, true, true);
    assert_eq!((early.route, early.link), (None, InfraAction::Skip));
    engine.start_discovery(s("me"), s("Me"));
    let none = engine.note_peer(s(""), s(""), s(""), 0, s("10.0.0.2"), 0, true, true);
    assert_eq!((none.route, none.link), (None, InfraAction::Skip));
    engine.set_infra_addr(s("10.0.0.1"));
    assert_eq!(engine.set_infra_socket(7), None);
    assert_eq!(engine.set_infra_socket(8), Some(7));
    let far = engine.note_peer(s("p"), s(""), s(""), 0, s("10.0.1.2"), 0, true, true);
    assert_eq!(far.route.as_deref(), Some("/ndn/node/p"));
    assert_eq!(far.link, InfraAction::Skip);
    let near = engine.note_peer(s("p"), s(""), s(""), 0, s("10.0.0.2"), 0, true, true);
    assert_eq!(near.link, InfraAction::Raise { fd: 8, address: s("10.0.0.2:7656") });
    // Once is enough, until it failed.
    engine.set_infra_socket(9);
    engine.note_peer(s("p"), s(""), s(""), 0, s("10.0.0.2"), 0, true, true);
    engine.attach_failed("p");
    engine.shutdown();
    let down = engine.note_peer(s("p"), s(""), s(""), 0, s("10.0.0.2"), 0, true, true);
    assert_eq!((down.route, down.link), (None, InfraAction::Skip));
}

#[test]
fn links_need_the_same_network_and_a_socket() {
    assert!(same_subnet24("192.168.1.2", "192.168.1.77"));
    assert!(!same_subnet24("192.168.1.2", "192.168.2.2"));
    assert!(!same_subnet24("localhost", "localhost"));
    assert_eq!(infra_peer_address("10.0.0.2"), "10.0.0.2:7656");
    let mut links = InfraLinks::new();
    assert_eq!(links.maybe_attach_infra_tunnel("p", "10.0.0.2", true), InfraAction::Skip);
    links.set_infra_addr(s("10.0.0.1"));
    assert_eq!(links.maybe_attach_infra_tunnel("p", "10.0.0.2", true), InfraAction::Skip);
    links.set_infra_socket(3);
    assert_eq!(links.maybe_attach_infra_tunnel("p", "10.0.0.2", false), InfraAction::Skip);
    assert_eq!(
        links.maybe_attach_infra_tunnel("p", "10.0.0.2", true),
        InfraAction::Raise { fd: 3, address: s("10.0.0.2:7656") }
    );
    assert_eq!(links.maybe_attach_infra_tunnel("q", "10.0.0.3", true), InfraAction::Skip);
}

#[test]
fn offers_are_listed_in_order() {
    let mut engine = NdnEngine::new();
    let add = |e: &mut NdnEngine, id: &str| {
        e.add_offer(s(id), s("A b"), s("text/plain"), 5, s("/me/file/x"))
    };
    assert_eq!(
        add(&mut engine, "b"),
        Err(engine_error("offer board not started — call start_offer_board first"))
    );
    assert_eq!(engine.remove_offer("b"), Ok(false));
    assert_eq!(engine.list_offers(), "{\"node\":\"\",\"offers\":[]}");
    let board = || OfferBoard::new("n1", Some((name("/ndn/node/n1"), s("/ndn/node/n1"))), name("/me"));
    assert_eq!(
        engine.start_offer_board(NONE, board()),
        Err(engine_error("identity feature not enabled in this build"))
    );
    assert_eq!(
        engine.start_offer_board(ALL, OfferBoard::new("n 1", None, name("/me"))),
        Err(NdnError::InvalidName { name: s("/ndn/node/n 1") })
    );
    assert_eq!(engine.start_offer_board(ALL, board()), Ok(true));
    assert_eq!(add(&mut engine, ""), Err(engine_error("offer file_id must not be empty")));
    assert_eq!(add(&mut engine, "b"), Ok(s("/me/file/x")));
    assert_eq!(add(&mut engine, "a"), Ok(s("/me/file/x")));
    let one = |id: &str| {
        format!(
            "{{\"file_id\":\"{id}\",\"display_name\":\"A b\",\"mime\":\"text/plain\",\"size\":5,\
             \"name\":\"/me/file/x\"}}"
        )
    };
    assert_eq!(
        engine.list_offers(),
        format!("{{\"node\":\"/ndn/node/n1\",\"offers\":[{},{}]}}", one("a"), one("b"))
    );
    assert_eq!(engine.remove_offer("a"), Ok(true));
    assert_eq!(engine.remove_offer("a"), Ok(false));
    assert_eq!(
        engine.list_offers(),
        format!("{{\"node\":\"/ndn/node/n1\",\"offers\":[{}]}}", one("b"))
    );
}

#[test]
fn board_names_and_manifest_history() {
    let mut board =
        OfferBoard::new("n1", Some((name("/ndn/node/n1"), s("/ndn/node/n1"))), name("/me")).unwrap();
    assert_eq!(board.cert_name(), name("/ndn/node/n1/cert"));
    assert_eq!(board.manifest_name(), name("/ndn/node/n1/offers"));
    assert_eq!(board.object_name("f"), name("/me/file/f"));
    assert_eq!(OfferBoard::content_name("f"), name("/localhost/ripple/content/f"));
    let empty = board.manifests()[0].clone();
    assert_eq!(empty, "{\"node\":\"/ndn/node/n1\",\"offers\":[]}");
    for i in 0..5 {
        board.add_offer(format!("f{i}"), s(""), s(""), 0, s("/u")).unwrap();
    }
    assert_eq!(board.manifests().len(), 6);
    assert_eq!(board.manifests()[5], empty);
    assert_eq!(board.manifests()[0], board.list_offers());
    assert!(board.remove_offer("f0"));
    assert_eq!(board.manifests().len(), 6);
    assert_ne!(board.manifests()[5], empty);
    assert!(!board.remove_offer("f0"));
}

#[test]
fn json_strings_are_escaped() {
    let entry = OfferEntry {
        file_id: s("a\"\\"),
        display_name: s("x\n\r\t\u{1}y"),
        mime: s("ü"),
        name: s("/n"),
        size: 18_446_744_073_709_551_615,
    };
    assert_eq!(
        offers_json("/n", &vec![entry]),
        "{\"node\":\"/n\",\"offers\":[{\"file_id\":\"a\\\"\\\\\",\"display_name\":\"x\\n\\r\\t y\",\
         \"mime\":\"ü\",\"size\":18446744073709551615,\"name\":\"/n\"}]}"
    );
}

#[test]
fn content_is_streamed_in_order_within_the_budget() {
    assert_eq!(segment_count(0), 0);
    assert_eq!(segment_count(8192), 1);
    assert_eq!(segment_count(8193), 2);
    let segment = |seg: u64| name("/localhost/ripple/content/a").append_segment(seg);
    let mut stream = ContentStream::new(name("/localhost/ripple/content/a"), 2);
    assert_eq!(stream.next(), StreamAction::AwaitBudget);
    assert_eq!(stream.on_interest(None), ContentRequest::OneShot);
    assert_eq!(stream.on_interest(Some(0)), ContentRequest::Granted);
    assert_eq!(stream.next(), StreamAction::Send(segment(0)));
    assert_eq!(stream.next(), StreamAction::AwaitBudget);
    stream.on_interest(Some(9));
    assert_eq!(stream.next(), StreamAction::Send(segment(1)));
    assert_eq!(stream.next(), StreamAction::Send(segment(2)));
    assert_eq!(stream.next(), StreamAction::Done);
    let mut stopped = ContentStream::new(name("/localhost/ripple/content/a"), 2);
    stopped.on_interest(Some(9));
    stopped.stop();
    assert_eq!(stopped.next(), StreamAction::Done);
    assert_eq!(first_answer(vec![None, Some(vec![1]), Some(vec![2])]), Some(vec![1]));
    assert_eq!(first_answer(vec![None]), None);
    let mut kept: Vec<u32> = Vec::new();
    for version in 0..8u32 {
        keep_recent(&mut kept, version);
    }
    assert_eq!(kept, vec![7, 6, 5, 4, 3, 2]);
}

#[test]
fn handles_and_shutdown() {
    let mut engine = NdnEngine::new();
    assert!(engine.is_running());
    assert_eq!(engine.take_consumer_handle(), Ok(HandleSource::Primary));
    assert_eq!(engine.take_consumer_handle(), Ok(HandleSource::Fresh));
    assert_eq!(engine.require_engine(), Ok(true));
    assert!(engine.shutdown());
    assert!(!engine.shutdown());
    assert_eq!(engine.take_consumer_handle(), Err(engine_error("engine is shut down")));
    assert_eq!(engine.require_engine(), Err(engine_error("engine is shut down")));
    let mut fresh = NdnEngine::new();
    fresh.shutdown();
    assert_eq!(fresh.take_consumer_handle(), Ok(HandleSource::Primary));
}

#[test]
fn attaching_faces() {
    let mut engine = NdnEngine::new();
    assert_eq!(engine.attach_wifi_aware(ALL), Ok(true));
    assert_eq!(
        engine.attach_wifi_aware(NONE),
        Err(engine_error("wifi-aware feature not enabled"))
    );
    assert_eq!(engine.attach_ble(ALL), Ok(true));
    assert_eq!(engine.attach_ble(NONE), Err(engine_error("ble feature not enabled")));
    assert_eq!(engine.attach_ndp_face("p", true, "fe80::1", true), Ok(true));
    assert_eq!(
        engine.attach_ndp_face("p q", false, "x", false),
        Err(NdnError::InvalidName { name: s("/ndn/node/p q") })
    );
    assert_eq!(
        engine.attach_ndp_face("p", true, "x", false),
        Err(engine_error("unparseable NDP peer IPv6 'x'"))
    );
    assert_eq!(
        engine.attach_wifi_direct_face("p", true, "x", false),
        Err(engine_error("unparseable Wi-Fi Direct peer ip 'x'"))
    );
    assert_eq!(
        engine.attach_wifi_direct_multicast_face("x", false),
        Err(engine_error("unparseable Wi-Fi Direct local IPv4 'x'"))
    );
    assert_eq!(engine.attach_wifi_direct_multicast_face("1.2.3.4", true), Ok(true));
    engine.shutdown();
    assert_eq!(
        engine.attach_wifi_direct_face("p", true, "1.2.3.4", true),
        Err(engine_error("engine is shut down"))
    );
    assert_eq!(engine.attach_ble(ALL), Err(engine_error("engine is shut down")));
    assert_eq!(attach_error("attach NDP face", "busy"), engine_error("attach NDP face: busy"));
    assert_eq!(port_of(0x1_0001), 1);
}

#[test]
fn relaying_needs_names_and_an_identity() {
    let mut engine = NdnEngine::new();
    let call = |e: &NdnEngine, f: Features, a: bool, b: bool, id: bool| {
        e.register_object_relay(f, "/pub", a, "/src", b, id)
    };
    assert_eq!(call(&engine, ALL, true, true, true), Ok(true));
    assert_eq!(
        call(&engine, NONE, true, true, true),
        Err(engine_error("identity feature not enabled in this build"))
    );
    assert_eq!(
        call(&engine, ALL, false, false, true),
        Err(NdnError::InvalidName { name: s("/pub") })
    );
    assert_eq!(
        call(&engine, ALL, true, false, true),
        Err(NdnError::InvalidName { name: s("/src") })
    );
    assert_eq!(
        call(&engine, ALL, true, true, false),
        Err(engine_error("no operator identity loaded — cannot sign relayed object"))
    );
    engine.shutdown();
    assert_eq!(call(&engine, ALL, true, true, true), Err(engine_error("engine shut down")));
}

#[test]
fn fetches_and_their_failures() {
    let data = fetch("/a", Ok((s("/a/1"), Some(vec![1])))).unwrap();
    assert_eq!((data.name, data.content), (s("/a/1"), vec![1]));
    assert_eq!(get("/a", Ok(vec![2])), Ok(vec![2]));
    let fail = |f: FetchFailure| get("/a", Err(f)).unwrap_err();
    assert_eq!(fail(FetchFailure::BadName), NdnError::InvalidName { name: s("/a") });
    assert_eq!(fail(FetchFailure::BadHint(s("h"))), NdnError::InvalidName { name: s("h") });
    assert_eq!(fail(FetchFailure::NoEngine), engine_error("engine is shut down"));
    let app = |e: AppError| fail(FetchFailure::App(e));
    assert_eq!(app(AppError::Timeout), NdnError::Timeout { name: s("/a") });
    assert_eq!(
        app(AppError::Nacked { reason: None }),
        NdnError::Nacked { name: s("/a"), reason: s("Unspecified") }
    );
    assert_eq!(
        app(AppError::Nacked { reason: Some(s("NoRoute")) }),
        NdnError::Nacked { name: s("/a"), reason: s("NoRoute") }
    );
    assert_eq!(app(AppError::Closed), engine_error("connection closed"));
    assert_eq!(app(AppError::Connection(s("c"))), engine_error("c"));
    assert_eq!(app(AppError::Protocol(s("p"))), engine_error("p"));
    assert_eq!(app(AppError::Unverified(s("u"))), engine_error("verification failed: u"));
    assert_eq!(
        subscriber_name(name("/g"), 42),
        name("/g").append_component(Component::Generic(b"node-42".to_vec()))
    );
}

#[test]
fn error_messages() {
    assert_eq!(
        NdnError::Timeout { name: s("/a") }.message(),
        "timeout waiting for data: /a"
    );
    assert_eq!(
        NdnError::Nacked { name: s("/a"), reason: s("r") }.message(),
        "interest nacked (r): /a"
    );
    assert_eq!(engine_error("x").message(), "engine error: x");
    assert_eq!(NdnError::InvalidName { name: s("x") }.message(), "invalid NDN name: x");
    assert_eq!(NdnError::InvalidAddress { addr: s("x") }.message(), "invalid address: x");
    assert_eq!(NdnError::Identity { msg: s("x") }.message(), "identity error: x");
}

#[test]
fn client_strategy_and_progress() {
    let mut client = NdnClient::new();
    assert_eq!(client.congestion_strategy(), CongestionStrategy::Aimd);
    assert_eq!(client.set_congestion_strategy(Some(CongestionStrategy::Cubic)), Ok(true));
    assert_eq!(
        client.set_congestion_strategy(None),
        Err(engine_error("congestion strategy must be 'aimd' or 'cubic'"))
    );
    assert_eq!(client.congestion_strategy(), CongestionStrategy::Cubic);
    client.on_fetch_progress(3, 9);
    assert_eq!((client.fetch_progress_received(), client.fetch_progress_total()), (3, 9));
    client.begin_fetch();
    assert_eq!((client.fetch_progress_received(), client.fetch_progress_total()), (0, 0));
    assert_eq!(client.list_offers(), "{\"node\":\"\",\"offers\":[]}");
    assert_eq!(client.remove_offer("x"), Ok(false));
    assert!(client.add_offer(s("x"), s(""), s(""), 0, s("/u")).is_err());
    let board = OfferBoard::new("n", Some((name("/n"), s("/n"))), name("/me"));
    assert_eq!(client.start_offer_board(ALL, board), Ok(true));
    assert_eq!(client.add_offer(s("x"), s(""), s(""), 0, s("/u")), Ok(s("/u")));
    assert_eq!(client.remove_offer("x"), Ok(true));
    let mut engine = NdnEngine::new();
    engine.on_fetch_progress(1, 2);
    assert_eq!((engine.fetch_progress_received(), engine.fetch_progress_total()), (1, 2));
    engine.begin_fetch();
    assert_eq!(engine.fetch_progress_total(), 0);
}

fn config(faces: Vec<NdnFaceSpec>) -> NdnEngineConfig {
    NdnEngineConfig {
        cs_capacity_mb: 1,
        security_profile: NdnSecurityProfile::AcceptSigned,
        faces,
        node_name: None,
        pipeline_threads: 0,
        persistent_cs_path: Some(s("/cs")),
    }
}

#[test]
fn node_configurations() {
    let plan = build_engine(config(Vec::new()), NONE, &Vec::new(), None).unwrap();
    assert!(!plan.route_multicast && !plan.route_peers);
    assert_eq!(plan.builder.strategy, MobileStrategy::BestRoute);
    assert_eq!(plan.builder.security_profile, SecurityProfile::AcceptSigned);
    assert_eq!(plan.builder.pipeline_threads, 1);
    assert_eq!(plan.builder.persistent_cs_path, None);
    assert!(!plan.builder.enable_management);
    let faces = vec![
        NdnFaceSpec::Uplink { address: s("1.2.3.4:6363") },
        NdnFaceSpec::Multicast { iface: s("10.0.0.1") },
        NdnFaceSpec::Serial { port: s("/dev/x"), baud: 115200 },
        NdnFaceSpec::Multicast { iface: s("10.0.0.2") },
    ];
    let parsed =
        vec![Some(s("1.2.3.4:6363")), Some(s("10.0.0.1")), None, Some(s("10.0.0.2"))];
    let mut named = config(faces.clone());
    named.node_name = Some(s("/me"));
    let plan = build_engine(named.clone(), ALL, &parsed, Some(name("/me"))).unwrap();
    assert!(plan.route_multicast && plan.route_peers);
    assert_eq!(plan.builder.strategy, MobileStrategy::Multicast);
    assert_eq!(plan.builder.tcp_peers, vec![s("1.2.3.4:6363")]);
    assert_eq!(plan.builder.multicast_iface, Some(s("10.0.0.2")));
    assert_eq!(plan.builder.serial_ports, vec![(s("/dev/x"), 115200)]);
    assert_eq!(plan.builder.node_name, Some(name("/me")));
    assert_eq!(plan.builder.persistent_cs_path, Some(s("/cs")));
    assert!(plan.builder.enable_management);
    assert_eq!(
        build_engine(named, ALL, &parsed, None),
        Err(NdnError::InvalidName { name: s("/me") })
    );
    let bad = vec![None, None, None, None];
    assert_eq!(
        build_engine(config(faces), ALL, &bad, None),
        Err(NdnError::InvalidAddress { addr: s("1.2.3.4:6363") })
    );
    assert_eq!(worker_threads(0), 1);
    assert_eq!(worker_threads(4), 4);
    assert_eq!(into_security_profile(NdnSecurityProfile::Disabled), SecurityProfile::Disabled);
}

/// The default routes of a node with these faces, whose ids count from one.
fn routes_of(faces: Vec<NdnFaceSpec>) -> Vec<Route> {
    let parsed: Vec<Option<String>> = faces.iter().map(|_| Some(s("addr"))).collect();
    let plan = build_engine(config(faces), NONE, &parsed, None).unwrap();
    assert_eq!(plan.route_cost, 0);
    let build = plan.builder.clone().build();
    let ids: Vec<FaceId> = (1..=build.roles.len() as u64).collect();
    default_routes(&plan, &MobileEngine::assemble(build, &ids))
}

#[test]
fn default_routes_go_to_the_group_and_to_every_peer() {
    let to = |face_id: FaceId| Route { prefix: Name::root(), face_id, cost: 0 };
    let multicast = || NdnFaceSpec::Multicast { iface: s("10.0.0.1") };
    let uplink = || NdnFaceSpec::Uplink { address: s("1.2.3.4:6363") };
    let serial = || NdnFaceSpec::Serial { port: s("/dev/x"), baud: 115200 };
    assert_eq!(routes_of(Vec::new()), Vec::new());
    assert_eq!(routes_of(vec![multicast()]), vec![to(2)]);
    assert_eq!(routes_of(vec![uplink(), uplink()]), vec![to(2), to(3)]);
    assert_eq!(routes_of(vec![uplink(), multicast(), uplink()]), vec![to(2), to(3), to(4)]);
    // A serial link alone is no way out.
    assert_eq!(routes_of(vec![serial()]), Vec::new());
    assert_eq!(routes_of(vec![serial(), multicast()]), vec![to(2)]);
}

#[test]
fn faster_links_are_preferred() {
    assert_eq!(
        (
            link_cost(LinkKind::WifiDirect),
            link_cost(LinkKind::Udp),
            link_cost(LinkKind::WifiAware),
            link_cost(LinkKind::Ble),
        ),
        (8, 10, 20, 50)
    );
    assert_eq!(radio_named("wifi-aware"), Some(LinkKind::WifiAware));
    assert_eq!(radio_named("ble"), Some(LinkKind::Ble));
    assert_eq!(radio_named("lora"), None);
    assert_eq!(
        link_route(name("/ndn/node/x"), LinkKind::Udp, 7),
        Route { prefix: name("/ndn/node/x"), face_id: 7, cost: 10 }
    );
}
