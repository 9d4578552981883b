use ndn_mobile::mobile::engine::{
    cs_backend, cs_open_error, mobile_low_retention, nan_binding_error, ClientTls, CsBackend,
    DiscoveryChoice, FaceBuild, FaceId, FaceRole, MobileEngine, MobileStrategy, PeerSpec,
    SecurityProfile,
};
use ndn_mobile::mobile::supervisor::{PeerSupervisor, SupervisorAction, SupervisorEvent};
use ndn_mobile::mobile::tun::TunConfig;
use ndn_mobile::name::Name;

fn name(text: &str) -> Name {
    Name::root().append_str(text)
}

fn ids(n: u64) -> Vec<FaceId> {
    (1..=n).collect()
}

#[test]
fn plan_defaults() {
    let plan = MobileEngine::builder().build();
    assert_eq!(plan.strategy, MobileStrategy::BestRoute);
    assert_eq!(plan.cs_capacity_bytes, 8 * 1024 * 1024);
    assert_eq!(plan.pipeline_threads, 1);
    assert_eq!(plan.security_profile, SecurityProfile::Default);
    assert_eq!(plan.roles, vec![FaceRole::App]);
    assert_eq!(plan.management, None);
    assert_eq!(plan.discovery, DiscoveryChoice::Off);
}

#[test]
fn plan_takes_the_strategy() {
    let plan = MobileEngine::builder().with_strategy(MobileStrategy::Multicast).build();
    assert_eq!(plan.strategy, MobileStrategy::Multicast);
}

#[test]
fn unicast_peer_has_a_uri_and_a_route() {
    let plan = MobileEngine::builder().with_unicast_peer("127.0.0.1:6363".to_string()).build();
    let engine = MobileEngine::assemble(plan, &ids(2));
    let peers = engine.peers();
    assert_eq!(peers.len(), 1);
    assert_eq!(peers[0].uri(), "udp4://127.0.0.1:6363");
    let route = MobileEngine::route_to_peer(name("ndn"), &peers[0], 10);
    assert_eq!((route.face_id, route.cost), (2, 10));
    assert_eq!(route.prefix, name("ndn"));
}

#[test]
fn two_peers_have_two_faces() {
    let plan = MobileEngine::builder()
        .with_unicast_peer("127.0.0.1:6363".to_string())
        .with_unicast_peer("127.0.0.1:6364".to_string())
        .build();
    let engine = MobileEngine::assemble(plan, &ids(3));
    let peers = engine.peers();
    let a = MobileEngine::route_to_peer(name("x"), &peers[0], 0).face_id;
    let b = MobileEngine::route_to_peer(name("x"), &peers[1], 0).face_id;
    assert_ne!(a, b);
    assert_ne!(a, engine.app_face());
}

#[test]
fn faces_keep_their_ids_over_a_suspension() {
    let plan = MobileEngine::builder()
        .with_udp_multicast("192.168.1.2".to_string())
        .with_wifi_aware()
        .with_tcp_peer("10.0.0.1:6363".to_string())
        .build();
    let mut engine = MobileEngine::assemble(plan, &ids(4));
    let before = engine.peers();
    assert_eq!(engine.suspend_network_faces(), 0);
    assert_eq!(engine.suspend_network_faces(), 1);
    assert_eq!(engine.peers(), before);
    let faces = engine.resume_network_faces();
    assert_eq!(faces.len(), 3);
    assert!(matches!(
        faces[0],
        FaceBuild::Multicast { id: 2, iface: "192.168.1.2" }
    ));
    assert!(matches!(faces[1], FaceBuild::Peer { id: 4, .. }));
    assert!(matches!(faces[2], FaceBuild::Nan { id: 3 }));
}

#[test]
fn wifi_aware_face_keeps_its_id() {
    let plan = MobileEngine::builder().with_wifi_aware().build();
    assert_eq!(plan.roles, vec![FaceRole::App, FaceRole::Nan]);
    let mut engine = MobileEngine::assemble(plan, &ids(2));
    engine.suspend_network_faces();
    let faces = engine.resume_network_faces();
    assert!(matches!(faces[0], FaceBuild::Nan { id: 2 }));
}

#[test]
fn webtransport_peer_is_planned() {
    let url = "https://127.0.0.1:4433/ndn".to_string();
    let plan = MobileEngine::builder()
        .with_webtransport_peer(url.clone(), ClientTls::CertHashes(vec![[7u8; 32]]))
        .build();
    assert_eq!(
        plan.peers,
        vec![PeerSpec::WebTransport(url.clone(), ClientTls::CertHashes(vec![[7u8; 32]]))]
    );
    let engine = MobileEngine::assemble(plan, &ids(2));
    assert_eq!(engine.peers()[0].uri(), url);
}

#[test]
fn peers_are_ordered_by_kind() {
    let plan = MobileEngine::builder()
        .with_serial("/dev/tty1".to_string(), 9600)
        .with_websocket_peer("ws://h/ndn".to_string())
        .with_tcp_peer("10.0.0.1:6363".to_string())
        .with_unicast_peer("10.0.0.2:6363".to_string())
        .with_compute(name("fn"))
        .build();
    let uris: Vec<String> = plan.peers.iter().map(|p| p.uri()).collect();
    assert_eq!(
        uris,
        vec![
            "udp4://10.0.0.2:6363",
            "tcp4://10.0.0.1:6363",
            "ws://h/ndn",
            "serial:///dev/tty1?baud=9600"
        ]
    );
    assert_eq!(
        plan.roles,
        vec![
            FaceRole::App,
            FaceRole::Peer(0),
            FaceRole::Peer(1),
            FaceRole::Peer(2),
            FaceRole::Peer(3),
            FaceRole::Compute
        ]
    );
    let engine = MobileEngine::assemble(plan, &ids(6));
    assert_eq!(engine.compute_face(), Some(6));
}

#[test]
fn secured_management_demands_signatures() {
    let plan = MobileEngine::builder().with_management_secured().build();
    let mgmt = plan.management.unwrap();
    assert!(mgmt.require_signed_commands && mgmt.authenticated && mgmt.replay_cache);
    assert!(!mgmt.security_is_ephemeral);
    let policy = mgmt.runtime_policy.unwrap();
    assert!(policy.require_signed_commands && policy.localhop_disabled);
    assert!(!policy.ephemeral_allowed);
    assert_eq!(policy.replay_window_secs, 120);
}

#[test]
fn open_management_demands_none() {
    let plan = MobileEngine::builder().with_management().with_log_inspector().build();
    let mgmt = plan.management.unwrap();
    assert!(!mgmt.require_signed_commands && !mgmt.authenticated && !mgmt.replay_cache);
    assert!(mgmt.security_is_ephemeral && mgmt.log_inspector && mgmt.clear_localhop_route);
    assert_eq!(mgmt.runtime_policy, None);
}

#[test]
fn compute_handler_off_without_backend() {
    let plan = MobileEngine::builder().with_management().build();
    assert!(!plan.management.unwrap().compute_handler);
}

#[test]
fn compute_handler_on_with_backend() {
    let plan = MobileEngine::builder().with_management().with_compute_mgmt_backend().build();
    assert!(plan.management.unwrap().compute_handler);
}

#[test]
fn observability_prefix_and_retention() {
    let plan = MobileEngine::builder().with_observability().build();
    let (prefix, retention) = plan.observability.unwrap();
    assert_eq!(prefix, name("localhost").append_str("nfd").append_str("observability"));
    assert_eq!(retention, mobile_low_retention());
}

#[test]
fn observability_is_off_by_default() {
    assert_eq!(MobileEngine::builder().build().observability, None);
}

#[test]
fn discovery_priorities() {
    let named = || MobileEngine::builder().with_discovery(name("me"));
    // Probes need a multicast face to go out on.
    assert_eq!(named().build().discovery, DiscoveryChoice::Off);
    let multicast = || named().with_udp_multicast("10.0.0.9".to_string());
    assert_eq!(multicast().build().discovery, DiscoveryChoice::Hello(name("me")));
    assert!(multicast().with_management().build().management.unwrap().discovery_cfg);
    let nan = || {
        multicast().with_wifi_aware().wifi_aware_discover("svc".to_string(), name("p"))
    };
    assert_eq!(nan().build().discovery, DiscoveryChoice::Nan);
    assert_eq!(
        multicast().with_wifi_aware().build().discovery,
        DiscoveryChoice::Hello(name("me"))
    );
    assert_eq!(nan().with_discovery_protocol().build().discovery, DiscoveryChoice::Custom);
    // Services are bound only once the radio is there.
    let unbound = MobileEngine::builder().wifi_aware_advertise("svc".to_string()).build();
    assert_eq!(unbound.wifi_aware, None);
}

#[test]
fn settings_reach_the_plan() {
    let plan = MobileEngine::builder()
        .cs_capacity_mb(2)
        .pipeline_threads(0)
        .security_profile(SecurityProfile::Disabled)
        .with_ipc_listener("/run/x.sock".to_string())
        .with_routing_protocol()
        .with_rate_limit(Some("[rate_limit]".to_string()))
        .with_fec()
        .with_tun(TunConfig::new(name("a"), name("b")))
        .with_persistent_cs("/cs".to_string())
        .with_management()
        .build();
    assert_eq!(plan.cs_capacity_bytes, 2 * 1024 * 1024);
    assert_eq!(plan.pipeline_threads, 1);
    assert_eq!(plan.security_profile, SecurityProfile::Disabled);
    assert_eq!(plan.ipc_listen_path.as_deref(), Some("/run/x.sock"));
    assert_eq!(plan.routing_protocols, 1);
    assert_eq!(plan.rate_limit, Some(Some("[rate_limit]".to_string())));
    assert_eq!(plan.tun_config, Some(TunConfig::new(name("a"), name("b"))));
    assert_eq!(plan.persistent_cs_path.as_deref(), Some("/cs"));
    let mgmt = plan.management.unwrap();
    assert!(mgmt.coding_handler && mgmt.rate_limit_handler);
}

#[test]
fn content_store_backends() {
    assert_eq!(cs_backend(true, true, true), Some(CsBackend::Sqlite));
    assert_eq!(cs_backend(true, true, false), Some(CsBackend::Fjall));
    assert_eq!(cs_backend(true, false, false), Some(CsBackend::Sqlite));
    assert_eq!(cs_backend(false, true, true), Some(CsBackend::Fjall));
    assert_eq!(cs_backend(false, false, true), None);
    assert_eq!(
        cs_open_error(CsBackend::Sqlite, "/cs", "locked"),
        "failed to open SQLite CS at /cs: locked"
    );
    assert_eq!(
        cs_open_error(CsBackend::Fjall, "/cs", "locked"),
        "failed to open persistent CS at /cs: locked"
    );
    assert_eq!(nan_binding_error(true, "x"), "wifi-aware publish: x");
    assert_eq!(nan_binding_error(false, "x"), "wifi-aware subscribe: x");
}

#[test]
fn supervisor_backs_off_and_redials() {
    let mut peer = PeerSupervisor::new();
    assert_eq!(peer.action(), SupervisorAction::DialWithin(2000));
    assert_eq!(peer.on_event(SupervisorEvent::FirstAttemptOver), SupervisorAction::CheckFace);
    for pause in [250u64, 500, 1000, 2000, 4000, 8000, 10_000, 10_000] {
        assert_eq!(peer.on_event(SupervisorEvent::Face(false)), SupervisorAction::Dial);
        assert_eq!(
            peer.on_event(SupervisorEvent::Dialed(false)),
            SupervisorAction::Sleep(pause)
        );
        assert_eq!(peer.on_event(SupervisorEvent::Slept), SupervisorAction::CheckFace);
    }
    assert_eq!(peer.on_event(SupervisorEvent::Face(false)), SupervisorAction::Dial);
    assert_eq!(peer.on_event(SupervisorEvent::Dialed(true)), SupervisorAction::Sleep(2000));
    assert_eq!(peer.on_event(SupervisorEvent::Slept), SupervisorAction::CheckFace);
    assert_eq!(peer.on_event(SupervisorEvent::Face(false)), SupervisorAction::CheckFace);
    assert_eq!(peer.on_event(SupervisorEvent::Face(false)), SupervisorAction::Dial);
    assert_eq!(peer.on_event(SupervisorEvent::Dialed(false)), SupervisorAction::Sleep(250));
    assert_eq!(peer.on_event(SupervisorEvent::Cancelled), SupervisorAction::Stop);
    assert_eq!(peer.on_event(SupervisorEvent::Slept), SupervisorAction::Stop);
}
