use ndn_mobile::bridge::ble::scanned_frame;
use ndn_mobile::bridge::dashboard::{
    finish, AnchorInfo, CsInfo, DashboardState, FaceInfo, FibEntry, ForwarderStatus,
    IdentityState, MgmtResponse, NdnDashboardState, NdnIdentityState, NdnMgmtResponse, NextHop,
    PendingApproval, SecurityKeyInfo, StrategyEntry,
};
use ndn_mobile::bridge::radio::{link_address, signal_strength};
use ndn_mobile::bridge::trust::{convert, CapDirection, Capability, NdnTrust, TrustEnvelope};
use ndn_mobile::bridge::types::{NdnError, NdnTrustEnvelope};
use ndn_mobile::bridge::wifi_aware::{followup_frame, NanSeam};
use ndn_mobile::peer::{
    check_args, identity_file, parse_args, parse_command, ArgumentError, Command,
};

fn s(text: &str) -> String {
    text.to_string()
}

#[test]
fn bridges_dashboard_state_to_ffi_view_model() {
    let state = DashboardState {
        status: Some(ForwarderStatus {
            n_faces: 2,
            n_fib: 3,
            n_pit: 0,
            n_cs: 7,
            nfd_version: "ndn-rs".into(),
        }),
        faces: vec![FaceInfo {
            face_id: 256,
            remote_uri: Some("udp4://1.2.3.4:6363".into()),
            local_uri: None,
            persistency: "persistent".into(),
            kind: Some("udp".into()),
            face_scope: 0,
            link_type: 0,
            mtu: Some(1500),
            n_in_interests: 10,
            n_out_interests: 11,
            n_in_data: 12,
            n_out_data: 13,
            n_in_bytes: 100,
            n_out_bytes: 200,
            n_in_nacks: 0,
            n_out_nacks: 0,
            flags: 1,
        }],
        routes: vec![FibEntry {
            prefix: "/ndn".into(),
            nexthops: vec![NextHop { face_id: 256, cost: 0 }],
        }],
        cs: Some(CsInfo {
            capacity_bytes: 65536,
            n_entries: 7,
            used_bytes: 4096,
            hits: 5,
            misses: 2,
            variant: "lru".into(),
        }),
        strategies: vec![StrategyEntry {
            prefix: "/ndn".into(),
            strategy: "/localhost/nfd/strategy/best-route".into(),
        }],
    };

    let vm = NdnDashboardState::from_state(&state);

    let status = vm.status.expect("status bridged");
    assert_eq!(status.n_faces, 2);
    assert_eq!(status.n_cs, 7);
    assert_eq!(status.nfd_version, "ndn-rs");

    assert_eq!(vm.faces.len(), 1);
    assert_eq!(vm.faces[0].face_id, 256);
    assert_eq!(vm.faces[0].remote_uri.as_deref(), Some("udp4://1.2.3.4:6363"));
    assert_eq!(vm.faces[0].mtu, Some(1500));
    assert_eq!(vm.faces[0].n_out_bytes, 200);
    assert_eq!(vm.faces[0].flags, 1);

    assert_eq!(vm.routes.len(), 1);
    assert_eq!(vm.routes[0].prefix, "/ndn");
    assert_eq!(vm.routes[0].nexthops[0].face_id, 256);

    let cs = vm.cs.expect("cs bridged");
    assert_eq!(cs.n_entries, 7);
    assert_eq!(cs.variant, "lru");

    assert_eq!(vm.strategies.len(), 1);
    assert_eq!(vm.strategies[0].strategy, "/localhost/nfd/strategy/best-route");
}

#[test]
fn bridges_mgmt_response_to_ffi() {
    let resp = MgmtResponse {
        status_code: 200,
        status_text: "OK".into(),
        body: vec![0x68, 0x01, 0x02],
    };
    let vm = NdnMgmtResponse::from(resp);
    assert_eq!(vm.status_code, 200);
    assert_eq!(vm.status_text, "OK");
    assert_eq!(vm.body, vec![0x68, 0x01, 0x02]);
}

#[test]
fn bridges_identity_state_to_ffi() {
    let state = IdentityState {
        approvals: vec![PendingApproval {
            request_id: "req-7".into(),
            cert_name: "/lab/eve/devices/cam".into(),
            description: "PIN".into(),
        }],
        identities: vec![SecurityKeyInfo {
            name: "/lab/alice".into(),
            has_cert: true,
            valid_until: "never".into(),
            public_key_b64: "".into(),
            days_to_expiry: None,
        }],
        anchors: vec![AnchorInfo {
            name: "/lab/router-ca/KEY/k0".into(),
            source: Some("mgmt".into()),
        }],
    };
    let vm = NdnIdentityState::from_state(&state);

    assert_eq!(vm.approvals.len(), 1);
    assert_eq!(vm.approvals[0].request_id, "req-7");
    assert_eq!(vm.approvals[0].cert_name, "/lab/eve/devices/cam");
    assert_eq!(vm.approvals[0].description, "PIN");

    assert_eq!(vm.identities.len(), 1);
    assert_eq!(vm.identities[0].name, "/lab/alice");
    assert!(vm.identities[0].has_cert);
    assert_eq!(vm.identities[0].days_to_expiry, None); // "never" is permanent

    assert_eq!(vm.anchors.len(), 1);
    assert_eq!(vm.anchors[0].name, "/lab/router-ca/KEY/k0");
    assert_eq!(vm.anchors[0].source.as_deref(), Some("mgmt"));
}

#[test]
fn refused_commands_are_answers() {
    let refused = MgmtResponse { status_code: 404, status_text: s("nope"), body: vec![] };
    assert_eq!(finish(Ok(refused)).unwrap().status_code, 404);
    assert_eq!(
        finish(Err(s("socket gone"))),
        Err(NdnError::Engine { msg: s("socket gone") })
    );
    let empty = DashboardState {
        status: None,
        faces: vec![],
        routes: vec![],
        cs: None,
        strategies: vec![],
    };
    let vm = NdnDashboardState::from_state(&empty);
    assert!(vm.status.is_none() && vm.cs.is_none() && vm.faces.is_empty());
}

#[test]
fn frames_carry_their_hints() {
    let peer = vec![0x02, 0, 0, 0, 0, 0x7a];
    let got = followup_frame(b"data-wire".to_vec(), &peer, -42);
    assert_eq!(got.frame, b"data-wire");
    assert_eq!(got.peer, Some([0x02, 0, 0, 0, 0, 0x7a]));
    assert_eq!(got.rssi_dbm, Some(-42));
    let scanned = scanned_frame(vec![1], &peer, -60);
    assert_eq!(scanned.addr, Some([0x02, 0, 0, 0, 0, 0x7a]));
    assert_eq!(scanned.rssi_dbm, Some(-60));
}

#[test]
fn unknown_hints_degrade_to_none() {
    let got = followup_frame(b"x".to_vec(), &Vec::new(), 0);
    assert_eq!((got.peer, got.rssi_dbm), (None, None));
    assert_eq!(link_address(&vec![1, 2, 3]), None);
    assert_eq!(link_address(&vec![1; 7]), None);
    assert_eq!(signal_strength(-128), Some(-128));
    assert_eq!(signal_strength(-129), None);
    assert_eq!(signal_strength(127), Some(127));
    assert_eq!(signal_strength(128), None);
}

#[test]
fn matches_drain_once_and_stay_bounded() {
    let mut seam = NanSeam::new();
    let peer = vec![0x02, 0, 0, 0, 0, 0x7a];
    seam.on_match(s("ndn-airdrop"), &peer);
    let matches = seam.drain_matches();
    assert_eq!(matches.len(), 1);
    assert_eq!(matches[0].service, "ndn-airdrop");
    assert_eq!(matches[0].peer, [0x02, 0, 0, 0, 0, 0x7a]);
    assert!(seam.drain_matches().is_empty(), "matches drain once");
    // A short address is dropped, not truncated.
    seam.on_match(s("svc"), &vec![1, 2, 3]);
    assert!(seam.drain_matches().is_empty());
    for i in 0..70 {
        seam.on_match(format!("svc{i}"), &peer);
    }
    let matches = seam.drain_matches();
    assert_eq!(matches.len(), 64);
    assert_eq!(matches[0].service, "svc6");
    assert_eq!(matches[63].service, "svc69");
}

#[test]
fn envelopes_are_shown_as_they_are() {
    assert_eq!(
        convert(NdnTrust::build_delegation(vec![1], vec![2])),
        NdnTrustEnvelope::Delegation { signed_delegation: vec![1], principal_pubkey: vec![2] }
    );
    assert_eq!(
        convert(NdnTrust::build_recovery(vec![1])),
        NdnTrustEnvelope::Recovery { bundle: vec![1] }
    );
    let capability = |is_grant: bool| {
        NdnTrust::build_capability(is_grant, s("/n"), vec![s("/p")], 60, vec![3], Some(vec![4]))
    };
    assert_eq!(
        capability(false),
        TrustEnvelope::Capability(Capability {
            direction: CapDirection::Request,
            namespace: s("/n"),
            scope_patterns: vec![s("/p")],
            ttl_secs: 60,
            nonce: vec![3],
            grant: Some(vec![4]),
        })
    );
    assert_ne!(convert(capability(false)), convert(capability(true)));
    let anchor = TrustEnvelope::Anchor { version: 2, context_content: vec![1] };
    assert_eq!(
        NdnTrust::parse(Ok(anchor)),
        Ok(NdnTrustEnvelope::Anchor { version: 2, context_content: vec![1] })
    );
    let invite = TrustEnvelope::Invite {
        ca_prefix: s("/ca"),
        identity_namespace: s("/i"),
        token: s("t"),
        ttl_secs: None,
    };
    assert_eq!(
        convert(invite),
        NdnTrustEnvelope::Invite {
            ca_prefix: s("/ca"),
            identity_namespace: s("/i"),
            token: s("t"),
            ttl_secs: None,
        }
    );
    assert_eq!(
        convert(TrustEnvelope::Bag { key_name: s("k"), safebag: vec![9] }),
        NdnTrustEnvelope::Bag { key_name: s("k"), safebag: vec![9] }
    );
    assert_eq!(
        NdnTrust::parse(Err(s("bad uri"))),
        Err(NdnError::Engine { msg: s("bad uri") })
    );
}

#[test]
fn peer_command_line() {
    let args = |list: &[&str]| list.iter().map(|a| a.to_string()).collect::<Vec<String>>();
    assert_eq!(parse_args(&args(&[])), None);
    assert_eq!(parse_args(&args(&["via", "1.2.3.4:1", "fetch", "/n"])), None);
    let direct = parse_args(&args(&["10.0.0.1", "publish", "/n", "file"])).unwrap();
    assert!(!direct.via);
    assert_eq!((direct.address.as_str(), direct.name.as_str()), ("10.0.0.1", "/n"));
    let via = parse_args(&args(&["via", "1.2.3.4:1", "fetch", "/n", "out"])).unwrap();
    assert!(via.via);
    assert_eq!((via.command.as_str(), via.path.as_str()), ("fetch", "out"));
    assert_eq!(parse_command("publish"), Some(Command::Publish));
    assert_eq!(parse_command("fetch"), Some(Command::Fetch));
    assert_eq!(parse_command("Fetch"), None);
    assert_eq!(check_args(&via, true, true), Ok(true));
    let message = |r: Result<bool, ArgumentError>| r.unwrap_err().message();
    assert_eq!(message(check_args(&via, false, false)), "bad forwarder addr `1.2.3.4:1`");
    assert_eq!(message(check_args(&direct, false, true)), "bad interface IPv4 `10.0.0.1`");
    assert_eq!(message(check_args(&direct, true, false)), "bad NDN name `/n`");
    assert_eq!(identity_file("//ndn/a/b"), "ndn_a_b");
    assert_eq!(identity_file("/"), "");
}
