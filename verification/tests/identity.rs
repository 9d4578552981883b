use ndn_mobile::bridge::handlers::{NdnApprovalGate, NdnEnclaveBackend, NdnRecoverySigner};
use ndn_mobile::bridge::identity_core::{
    check_enclave, forget_context, identity_of_key, join_context, object_chunk,
    principal_cert_wire, AnchorFailure, CertSource, IdentityCore, LoadedSigner, NewIdentity,
};
use ndn_mobile::bridge::recovery::{
    cert_text, key_text, operational_seed, restored_cert, RestoreOutcome, TEN_YEARS_NS,
};
use ndn_mobile::bridge::remote_signer_client::{
    data_failure, key_name_from_cert, reply_packet, CertFailure, LinkReply, RemoteCert,
    RemoteSignerClient, SignReply,
};
use ndn_mobile::bridge::signing::{
    accept_request, action_filter, announce_prefix, approve, check_patterns, check_recovery_seed,
    enclave_signature, recovery_signature, signing_summary, ActionClass, AnnounceReply,
    CapabilitySet, Decision, DelegatedRequest, DelegationCheck, RevocationCheck, WireSignRequest,
    WireSignResponse,
};
use ndn_mobile::bridge::types::{
    NdnActionClass, NdnContext, NdnDelegationScope, NdnEnrollConfig, NdnError,
    NdnRecoveredIdentity, NdnRevocation,
};
use ndn_mobile::name::{Component, Name};

type Core = IdentityCore<u32, u8>;

fn s(text: &str) -> String {
    text.to_string()
}

fn name(text: &str) -> Name {
    let mut n = Name::root();
    for part in text.split('/').filter(|p| !p.is_empty()) {
        n = n.append_str(part);
    }
    n
}

fn identity_error(msg: &str) -> NdnError {
    NdnError::Identity { msg: msg.to_string() }
}

fn engine_error(msg: &str) -> NdnError {
    NdnError::Engine { msg: msg.to_string() }
}

fn signer(key: &str) -> LoadedSigner<u32> {
    LoadedSigner {
        signer: 7,
        key_name: name(key),
        key_text: key.to_string(),
        cert_name: None,
        public_key: Some(vec![4, 5]),
    }
}

fn new_identity(certificate: Option<Vec<u8>>) -> NewIdentity<u32> {
    NewIdentity {
        signer: signer("/alice/KEY/1"),
        key_name: s("/alice/KEY/1"),
        cert_name: s("/alice/KEY/1/ca/2"),
        certificate,
    }
}

fn config() -> NdnEnrollConfig {
    NdnEnrollConfig {
        ca_prefix: s("/ndn"),
        identity: s("/ndn/mobile/alice"),
        validity_secs: 86_400,
        persist_password: b"pw".to_vec(),
    }
}

#[test]
fn enroll_without_identity_feature_errors_gracefully() {
    let mut core = Core::new(false);
    assert!(matches!(
        core.enroll(&config(), true, true, true, Ok((new_identity(None), Ok(vec![1])))),
        Err(NdnError::Identity { .. })
    ));
    assert!(!core.has_identity());
}

#[test]
fn enrolment_loads_the_identity() {
    let mut core = Core::new(true);
    let ok = || Ok((new_identity(Some(vec![6])), Ok(vec![1])));
    assert_eq!(
        core.enroll(&config(), true, true, false, ok()),
        Err(engine_error("engine is shut down"))
    );
    let result = core.enroll(&config(), true, true, true, ok()).unwrap();
    assert_eq!(result.key_name, "/alice/KEY/1");
    assert_eq!(result.cert_name, "/alice/KEY/1/ca/2");
    assert_eq!(result.certificate, Some(vec![6]));
    assert_eq!(result.safebag, vec![1]);
    assert!(core.has_identity());
    assert_eq!(core.certificate(), Some(&vec![6]));
    core.enroll(&config(), true, true, true, Ok((new_identity(None), Ok(vec![1])))).unwrap();
    assert_eq!(core.certificate(), None);
    core.enroll_with_token(&config(), true, true, ok()).unwrap();
    assert_eq!(core.certificate(), Some(&vec![6]));
    let result = core
        .enroll_with_token_enclave(&config(), true, true, true, Ok(new_identity(None)))
        .unwrap();
    assert_eq!(result.safebag, Vec::<u8>::new());
    assert_eq!(core.certificate(), None);
}

#[test]
fn enrolment_refusals_change_nothing() {
    let mut core = Core::new(true);
    let ok = || Ok((new_identity(None), Ok(vec![1])));
    assert_eq!(
        core.enroll_with_token(&config(), false, false, ok()),
        Err(NdnError::InvalidName { name: s("/ndn") })
    );
    assert_eq!(
        core.enroll_with_token(&config(), true, false, ok()),
        Err(NdnError::InvalidName { name: s("/ndn/mobile/alice") })
    );
    assert_eq!(
        core.enroll_with_token(&config(), true, true, Err(s("refused"))),
        Err(identity_error("refused"))
    );
    assert_eq!(
        core.enroll_with_token(&config(), true, true, Ok((new_identity(None), Err(s("seal"))))),
        Err(identity_error("seal"))
    );
    assert_eq!(
        core.enroll_with_token_enclave(&config(), true, true, false, Ok(new_identity(None))),
        Err(identity_error("enclave key not available (biometry / keystore)"))
    );
    assert_eq!(
        core.generate_identity("bad name", false, ok()),
        Err(NdnError::InvalidName { name: s("bad name") })
    );
    assert!(!core.has_identity());
    assert_eq!(
        Core::new(false).generate_identity("/a", true, ok()),
        Err(identity_error("identity feature not enabled in this build"))
    );
    assert!(core.generate_identity("/a", true, ok()).is_ok());
    assert!(core.has_identity());
}

#[test]
fn loading_keeps_signer_and_certificate() {
    let mut core = Core::new(true);
    assert_eq!(
        core.load_identity(Err(s("bag")), "k", true, Ok(signer("/a/KEY/1")), true, Ok(s("did"))),
        Err(identity_error("bag"))
    );
    assert_eq!(
        core.load_identity(Ok(vec![1]), "k", false, Ok(signer("/a/KEY/1")), true, Ok(s("did"))),
        Err(identity_error("invalid key name: k"))
    );
    assert_eq!(
        core.load_identity(Ok(vec![1]), "k", true, Err(s("pw")), true, Ok(s("did"))),
        Err(identity_error("pw"))
    );
    assert!(!core.has_identity());
    assert_eq!(core.sign(Ok(vec![9])), Err(identity_error("no identity loaded")));
    assert_eq!(
        core.load_identity(Ok(vec![1]), "k", true, Ok(signer("/a/KEY/1")), true, Ok(s("did"))),
        Ok(s("did"))
    );
    assert_eq!(core.certificate(), Some(&vec![1]));
    assert_eq!(core.sign(Ok(vec![9])), Ok(vec![9]));
    assert_eq!(core.sign(Err(s("hw"))), Err(identity_error("hw")));
    assert_eq!(core.current_signer().unwrap().signer, 7);
    // A key without the marker is loaded, but has no principal.
    assert_eq!(
        core.load_identity(Ok(vec![2]), "k", true, Ok(signer("/a/b")), true, Ok(s("did"))),
        Err(identity_error("key name /a/b has no /KEY/ component"))
    );
    assert_eq!(core.certificate(), Some(&vec![2]));
}

#[test]
fn identities_of_keys() {
    assert_eq!(identity_of_key("/ndn/alice/KEY/v=1").as_deref(), Some("/ndn/alice"));
    assert_eq!(identity_of_key("/a/KEY/b/KEY/c").as_deref(), Some("/a"));
    assert_eq!(identity_of_key("/KEY/b").as_deref(), Some(""));
    assert_eq!(identity_of_key("/a/KEY"), None);
    assert_eq!(identity_of_key(""), None);
    let mut core = Core::new(true);
    assert_eq!(core.identity_text(), None);
    assert_eq!(core.principal_text(true, Ok(s("x"))), Err(identity_error("no identity loaded")));
    core.set_identity(signer("/a/KEY/1"));
    assert_eq!(core.identity_text().as_deref(), Some("/a"));
    assert_eq!(core.principal_text(true, Ok(s("x"))), Ok(s("x")));
    assert_eq!(core.principal_text(true, Err(s("y"))), Err(identity_error("y")));
    assert_eq!(
        core.principal_text(false, Ok(s("x"))),
        Err(identity_error("key name /a/KEY/1 has no /KEY/ component"))
    );
    assert_eq!(
        Core::new(false).principal_text(true, Ok(s("x"))),
        Err(identity_error("identity feature not enabled in this build"))
    );
}

#[test]
fn anchors_and_roots() {
    let mut core = Core::new(true);
    assert_eq!(core.pin_trust_anchor(Ok(1)), Ok(true));
    assert_eq!(core.pin_trust_anchor(Ok(2)), Ok(true));
    assert_eq!(
        core.pin_trust_anchor(Err(AnchorFailure::NotData(s("x")))),
        Err(engine_error("trust anchor not a Data: x"))
    );
    assert_eq!(
        core.pin_trust_anchor(Err(AnchorFailure::NotCertificate(s("x")))),
        Err(engine_error("trust anchor not a certificate: x"))
    );
    assert_eq!(core.build_validator(Some(&9)), vec![&1, &2]);
    core.use_remote_signer("/p", true, vec![8], Ok(signer("/a/KEY/1"))).unwrap();
    assert_eq!(core.build_validator(Some(&9)), vec![&9, &1, &2]);
    assert_eq!(core.build_validator(None), vec![&1, &2]);
}

#[test]
fn remote_signer_replaces_the_key() {
    let mut core = Core::new(true);
    assert_eq!(
        core.use_remote_signer("p", false, vec![8], Ok(signer("/a/KEY/1"))),
        Err(NdnError::InvalidName { name: s("p") })
    );
    assert_eq!(
        core.use_remote_signer("/p", true, vec![8], Err(s("no cert"))),
        Err(engine_error("remote signer setup: no cert"))
    );
    assert!(!core.has_identity());
    assert_eq!(core.use_remote_signer("/p", true, vec![8], Ok(signer("/a/KEY/1"))), Ok(true));
    assert_eq!(core.certificate(), Some(&vec![8]));
}

#[test]
fn contexts_and_chunks() {
    let context = NdnContext {
        namespace: s("/home/bob"),
        version: 2,
        anchor_count: 0,
        enforces_hierarchy: true,
    };
    assert_eq!(join_context(Ok(context.clone())), Ok(context));
    assert_eq!(join_context(Err(s("x"))), Err(engine_error("malformed trust context: x")));
    assert_eq!(forget_context("/home/bob", Some(true)), Ok(true));
    assert_eq!(forget_context("x", None), Err(NdnError::InvalidName { name: s("x") }));
    assert_eq!((object_chunk(0), object_chunk(100)), (8192, 100));
}

#[test]
fn sharing_needs_an_identity() {
    let mut core = Core::new(true);
    let call = |c: &Core| c.start_offer_board(Ok(s("/a")), Ok(vec![1]));
    assert_eq!(
        call(&core),
        Err(identity_error("no identity loaded — load one before sharing"))
    );
    core.set_identity(signer("/a/KEY/1"));
    assert_eq!(call(&core), Ok((s("/a"), vec![1])));
    assert_eq!(
        core.start_offer_board(Err(identity_error("p")), Ok(vec![])),
        Err(identity_error("p"))
    );
    assert_eq!(
        core.start_offer_board(Ok(s("/a")), Err(identity_error("c"))),
        Err(identity_error("c"))
    );
}

#[test]
fn enclave_identities() {
    let mut core = Core::new(true);
    assert_eq!(check_enclave(true, &vec![1]), Ok(true));
    let plan = core
        .plan_enclave_identity("/alice", Some(name("/alice")), true, vec![4], 1700, 5)
        .unwrap();
    assert_eq!(plan.key_name, name("/alice/KEY").append_version(1700));
    assert_eq!(plan.cert.cert_name, plan.key_name.clone().append_str("self").append_version(0));
    assert_eq!(plan.cert.public_key, vec![4]);
    assert_eq!(plan.cert.not_before_ns, 5);
    assert_eq!(plan.cert.not_after_ns, 315_360_000_000_000_005);
    let fail = |c: &Core, parsed: Option<Name>, available: bool, key: Vec<u8>| {
        c.plan_enclave_identity("/alice", parsed, available, key, 0, 0).err().unwrap()
    };
    assert_eq!(
        fail(&core, None, true, vec![4]),
        NdnError::InvalidName { name: s("/alice") }
    );
    assert_eq!(
        fail(&core, Some(name("/alice")), false, vec![4]),
        identity_error("enclave key not available (biometry / keystore)")
    );
    assert_eq!(
        fail(&core, Some(name("/alice")), true, vec![]),
        identity_error("enclave returned no public key")
    );
    assert_eq!(
        core.generate_identity_enclave(signer("/a/KEY/1"), s("k"), s("c"), Err(s("x"))),
        Err(identity_error("enclave self-cert failed: x"))
    );
    assert!(!core.has_identity());
    let result = core
        .generate_identity_enclave(signer("/a/KEY/1"), s("k"), s("c"), Ok(vec![6]))
        .unwrap();
    assert_eq!((result.key_name, result.cert_name), (s("k"), s("c")));
    assert_eq!(result.certificate, Some(vec![6]));
    assert!(core.has_identity());
    assert_eq!(core.certificate(), None);
    let mut other = Core::new(true);
    let key = vec![4];
    assert_eq!(
        other.load_identity_enclave("k", false, "c", true, true, &key, signer("/a/KEY/1")),
        Err(NdnError::InvalidName { name: s("k") })
    );
    assert_eq!(
        other.load_identity_enclave("k", true, "c", false, true, &key, signer("/a/KEY/1")),
        Err(NdnError::InvalidName { name: s("c") })
    );
    assert_eq!(
        other.load_identity_enclave("k", true, "c", true, true, &key, signer("/a/KEY/1")),
        Ok(true)
    );
}

#[test]
fn operator_certificates() {
    let mut core = Core::new(true);
    assert_eq!(
        core.principal_cert(0).err().unwrap(),
        identity_error("no identity loaded")
    );
    let mut hidden = signer("/a/KEY/1");
    hidden.public_key = None;
    core.set_identity(hidden);
    assert_eq!(
        core.principal_public_key(),
        Err(identity_error("loaded identity has no exportable public key"))
    );
    core.set_identity(signer("/a/KEY/1"));
    assert_eq!(core.principal_public_key(), Ok(vec![4, 5]));
    match core.principal_cert(10).unwrap() {
        CertSource::Fresh(cert) => {
            assert_eq!(cert.cert_name, name("/a/KEY/1/self").append_version(0));
            assert_eq!(cert.public_key, vec![4, 5]);
            assert_eq!(cert.not_after_ns, 315_360_000_000_000_010);
        }
        CertSource::Stored(_) => panic!("nothing was stored"),
    }
    match core.principal_cert(u64::MAX).unwrap() {
        CertSource::Fresh(cert) => assert_eq!(cert.not_after_ns, u64::MAX),
        CertSource::Stored(_) => panic!("nothing was stored"),
    }
    core.use_remote_signer("/p", true, vec![8], Ok(signer("/a/KEY/1"))).unwrap();
    assert!(matches!(core.principal_cert(0), Ok(CertSource::Stored(w)) if w == vec![8]));
    assert_eq!(principal_cert_wire(Ok(vec![1])), Ok(vec![1]));
    assert_eq!(
        principal_cert_wire(Err(s("x"))),
        Err(identity_error("encode operator cert: x"))
    );
}

/// The certificate that the loaded key is to sign for itself.
fn own_certificate(core: &Core, now_ns: u64) -> (Name, Vec<u8>, u64, u64) {
    match core.principal_cert(now_ns).unwrap() {
        CertSource::Fresh(c) => (c.cert_name, c.public_key, c.not_before_ns, c.not_after_ns),
        CertSource::Stored(_) => panic!("not signed by the key itself"),
    }
}

#[test]
fn a_key_held_here_signs_its_own_certificate() {
    let until = 315_360_000_000_000_007;
    let mut issued = signer("/alice/KEY/1");
    issued.cert_name = Some(name("/alice/KEY/1/ca/2"));
    let enrolled = || NewIdentity {
        signer: LoadedSigner { cert_name: Some(name("/alice/KEY/1/ca/2")), ..signer("/alice/KEY/1") },
        ..new_identity(Some(vec![6]))
    };
    let expected = (name("/alice/KEY/1/ca/2"), vec![4, 5], 7, until);
    let mut core = Core::new(true);
    core.enroll(&config(), true, true, true, Ok((enrolled(), Ok(vec![1])))).unwrap();
    assert_eq!(own_certificate(&core, 7), expected);
    let mut core = Core::new(true);
    core.enroll_with_token(&config(), true, true, Ok((enrolled(), Ok(vec![1])))).unwrap();
    assert_eq!(own_certificate(&core, 7), expected);
    let mut core = Core::new(true);
    core.enroll_with_token_enclave(&config(), true, true, true, Ok(enrolled())).unwrap();
    assert_eq!(own_certificate(&core, 7), expected);
    let mut core = Core::new(true);
    core.generate_identity("/alice", true, Ok((enrolled(), Ok(vec![1])))).unwrap();
    assert_eq!(own_certificate(&core, 7), expected);
    // The issued certificate is still the one that is announced and trusted.
    assert_eq!(core.announce_plan("/p", Some(vec![7])).unwrap().certificate, vec![6]);
    assert_eq!(core.build_validator(Some(&9)), vec![&9]);
    core.load_identity(Ok(vec![1]), "k", true, Ok(issued), true, Ok(s("did"))).unwrap();
    assert_eq!(own_certificate(&core, 7), expected);
    core.load_identity(Ok(vec![1]), "k", true, Ok(signer("/alice/KEY/1")), true, Ok(s("did")))
        .unwrap();
    assert_eq!(own_certificate(&core, 7).0, name("/alice/KEY/1/self").append_version(0));
    // After a remote signer a loaded key signs again for itself.
    core.use_remote_signer("/p", true, vec![8], Ok(signer("/a/KEY/1"))).unwrap();
    assert!(matches!(core.principal_cert(7), Ok(CertSource::Stored(w)) if w == vec![8]));
    core.generate_identity("/alice", true, Ok((enrolled(), Ok(vec![1])))).unwrap();
    assert_eq!(own_certificate(&core, 7), expected);
}

#[test]
fn certificates_never_outlive_their_key() {
    // A key with the certificate `8`, and then another key without one.
    let certified = || {
        let mut core = Core::new(true);
        core.use_remote_signer("/p", true, vec![8], Ok(signer("/old/KEY/1"))).unwrap();
        core
    };
    let mut enclave = signer("/new/KEY/2");
    enclave.cert_name = Some(name("/new/KEY/2/ca/3"));
    enclave.public_key = Some(vec![9]);
    let is_fresh = |core: &Core, cert_name: Name, key: Vec<u8>| {
        assert_eq!(core.certificate(), None);
        assert_eq!(core.build_validator(Some(&1)), Vec::<&u8>::new());
        assert_eq!(core.announce_plan("/p", Some(vec![7])).unwrap().certificate, Vec::<u8>::new());
        match core.principal_cert(0).unwrap() {
            CertSource::Fresh(cert) => {
                assert_eq!((cert.cert_name, cert.public_key), (cert_name, key));
            }
            CertSource::Stored(_) => panic!("another key's certificate"),
        }
    };
    let mut core = certified();
    core.load_identity_enclave("k", true, "c", true, true, &vec![9], enclave).unwrap();
    is_fresh(&core, name("/new/KEY/2/ca/3"), vec![9]);
    let own = || name("/new/KEY/2/self").append_version(0);
    let mut core = certified();
    core.generate_identity_enclave(signer("/new/KEY/2"), s("k"), s("c"), Ok(vec![6])).unwrap();
    is_fresh(&core, own(), vec![4, 5]);
    let mut core = certified();
    core.set_identity(signer("/new/KEY/2"));
    is_fresh(&core, own(), vec![4, 5]);
    let mut core = certified();
    let outcome =
        RestoreOutcome { certified: Ok(vec![1]), recovered: Ok(vec![2]), sealed: Ok(vec![3]) };
    core.restore_with(outcome, signer("/new/KEY/2"), s("k"), s("c")).unwrap();
    is_fresh(&core, own(), vec![4, 5]);
    let mut core = certified();
    core.enroll(&config(), true, true, true, Ok((new_identity(Some(vec![6])), Ok(vec![1]))))
        .unwrap();
    assert_eq!(core.certificate(), Some(&vec![6]));
    // A refused load leaves the key and its certificate.
    let mut core = certified();
    core.load_identity_enclave("k", true, "c", true, false, &vec![9], signer("/new/KEY/2"))
        .unwrap_err();
    assert_eq!(core.certificate(), Some(&vec![8]));
    assert_eq!(core.identity_text().as_deref(), Some("/old"));
}

struct Gate(bool);
impl NdnApprovalGate for Gate {
    fn approve(&self, summary: String) -> bool {
        assert_eq!(summary, "Authorize signing 17 bytes");
        self.0
    }
}

#[test]
fn remote_signer_responds_under_approval_and_denial() {
    let mut core = Core::new(true);
    core.set_identity(signer("/ndn/mobile/alice/KEY/v=1"));
    let request = WireSignRequest { req_id: 42, region: b"a command to sign".to_vec() };

    let approved = approve(Decision::Prompt, &None, &request.region, &Gate(true));
    match core.respond_to_sign_request(request.req_id, approved, Ok(vec![1])).unwrap() {
        WireSignResponse::Approved { req_id, signature } => {
            assert_eq!(req_id, 42);
            assert!(!signature.is_empty());
        }
        WireSignResponse::Denied { .. } => panic!("should be approved"),
    }

    let approved = approve(Decision::Prompt, &None, &request.region, &Gate(false));
    assert!(matches!(
        core.respond_to_sign_request(request.req_id, approved, Ok(vec![1])).unwrap(),
        WireSignResponse::Denied { req_id: 42 }
    ));
}

#[test]
fn sign_requests_need_a_working_identity() {
    let mut core = Core::new(true);
    assert_eq!(
        core.respond_to_sign_request(42, true, Ok(vec![1])),
        Err(identity_error("no identity loaded"))
    );
    core.set_identity(signer("/a/KEY/1"));
    assert_eq!(
        core.respond_to_sign_request(42, true, Err(s("hw"))),
        Ok(WireSignResponse::Denied { req_id: 42 })
    );
    assert_eq!(
        Core::new(false).respond_to_sign_request(42, true, Ok(vec![1])),
        Err(identity_error("identity feature not enabled in this build"))
    );
}

#[test]
fn scoped_grants_bypass_the_gate() {
    struct Never;
    impl NdnApprovalGate for Never {
        fn approve(&self, _summary: String) -> bool {
            panic!("asked although a grant approves")
        }
    }
    assert!(approve(Decision::AutoApprove, &None, &vec![1], &Never));
    assert_eq!(signing_summary(&None, &vec![0; 12]), "Authorize signing 12 bytes");
    assert_eq!(signing_summary(&Some(s("/x")), &vec![]), "Authorize signing for /x");
    let core = Core::new(true);
    let grant = |ttl: u64| core.grant_signing_scope(NdnActionClass::Route, ttl).unwrap();
    assert_eq!(grant(0).ttl_secs, 1);
    assert_eq!(grant(60).ttl_secs, 60);
    assert_eq!(grant(1_000_000).ttl_secs, 86_400);
    assert_eq!(grant(60).action_filter, Some(ActionClass::Route));
    assert_eq!(action_filter(NdnActionClass::Any), None);
    assert_eq!(action_filter(NdnActionClass::ContentStore), Some(ActionClass::ContentStore));
    assert_eq!(core.active_signing_scopes(3), 3);
    assert_eq!(Core::new(false).active_signing_scopes(3), 0);
    assert!(Core::new(false).grant_signing_scope(NdnActionClass::Any, 1).is_err());
}

#[test]
fn served_requests_are_answered_or_denied() {
    let mut core = Core::new(true);
    assert_eq!(
        core.served_response(1, true, Ok(vec![1])),
        WireSignResponse::Denied { req_id: 1 }
    );
    core.set_identity(signer("/a/KEY/1"));
    assert_eq!(
        core.served_response(1, true, Ok(vec![1])),
        WireSignResponse::Approved { req_id: 1, signature: vec![1] }
    );
    assert_eq!(
        core.served_response(1, false, Ok(vec![1])),
        WireSignResponse::Denied { req_id: 1 }
    );
    let request = WireSignRequest { req_id: 1, region: vec![2] };
    assert_eq!(accept_request(Ok(request.clone())), Ok(request));
    assert_eq!(accept_request(Err(s("short"))), Err(identity_error("short")));
}

struct Host(Vec<u8>);
impl NdnRecoverySigner for Host {
    fn sign(&self, _challenge: Vec<u8>) -> Vec<u8> {
        self.0.clone()
    }
}
impl NdnEnclaveBackend for Host {
    fn is_available(&self) -> bool {
        true
    }
    fn public_key(&self) -> Vec<u8> {
        vec![1]
    }
    fn sign(&self, _region: Vec<u8>) -> Vec<u8> {
        self.0.clone()
    }
}

#[test]
fn empty_signatures_are_refusals() {
    assert_eq!(recovery_signature(&Host(vec![3]), vec![1]), Ok(vec![3]));
    assert_eq!(
        recovery_signature(&Host(vec![]), vec![1]),
        Err(s("recovery signer refused (empty signature)"))
    );
    assert_eq!(enclave_signature(&Host(vec![3]), vec![1]), Ok(vec![3]));
    assert_eq!(
        enclave_signature(&Host(vec![]), vec![1]),
        Err(s("enclave refused or unavailable"))
    );
}

#[test]
fn announcements() {
    let mut core = Core::new(true);
    assert_eq!(
        core.announce_plan("p", None).err().unwrap(),
        NdnError::InvalidName { name: s("p") }
    );
    assert_eq!(
        core.announce_plan("/p", Some(vec![7])).err().unwrap(),
        identity_error("no identity loaded")
    );
    core.set_identity(signer("/a/KEY/1"));
    let plan = core.announce_plan("/p", Some(vec![7])).unwrap();
    assert_eq!(plan.command, name("/localhop/nfd/rib/register").append(&[7]));
    assert_eq!(plan.key_locator, name("/a/KEY/1"));
    assert_eq!(plan.certificate, Vec::<u8>::new());
    assert_eq!((plan.lifetime_ms, plan.wait_ms), (10_000, 11_000));
    let mut certified = signer("/a/KEY/1");
    certified.cert_name = Some(name("/a/KEY/1/ca/2"));
    core.use_remote_signer("/p", true, vec![8], Ok(certified)).unwrap();
    let plan = core.announce_plan("/p", Some(vec![7])).unwrap();
    assert_eq!(plan.key_locator, name("/a/KEY/1/ca/2"));
    assert_eq!(plan.certificate, vec![8]);
    assert_eq!(announce_prefix(AnnounceReply::Status(200)), Ok(true));
    assert_eq!(announce_prefix(AnnounceReply::Status(299)), Ok(true));
    assert_eq!(announce_prefix(AnnounceReply::Status(300)), Ok(false));
    assert_eq!(announce_prefix(AnnounceReply::Status(199)), Ok(false));
    assert_eq!(
        announce_prefix(AnnounceReply::SignFailed(s("x"))),
        Err(identity_error("x"))
    );
    assert_eq!(
        announce_prefix(AnnounceReply::NoResponse(s("x"))),
        Err(engine_error("announce: no ControlResponse: x"))
    );
    assert_eq!(
        announce_prefix(AnnounceReply::BadResponse(s("x"))),
        Err(engine_error("announce: bad ControlResponse: x"))
    );
}

#[test]
fn delegations() {
    let mut core = Core::new(true);
    let scope = NdnDelegationScope {
        sign_patterns: vec![s("/a/<>"), s("[["), s("((")],
        unwrap_for: true,
        enroll: false,
        mgmt: true,
    };
    let fine = vec![None, None, None];
    let bad = vec![None, Some(s("E1")), Some(s("E2"))];
    assert_eq!(
        core.add_device("d d", false, &scope, &fine, true, Ok(vec![1])),
        Err(NdnError::InvalidName { name: s("d d") })
    );
    assert_eq!(
        core.add_device("/d", true, &scope, &bad, true, Ok(vec![1])),
        Err(identity_error("invalid sign pattern '[[': E1"))
    );
    assert_eq!(
        core.add_device("/d", true, &scope, &fine, true, Ok(vec![1])),
        Err(identity_error("no identity loaded"))
    );
    core.set_identity(signer("/a/KEY/1"));
    assert_eq!(core.add_device("/d", true, &scope, &fine, true, Ok(vec![1])), Ok(vec![1]));
    assert_eq!(check_patterns(&vec![], &vec![]), Ok(true));
    let granted = CapabilitySet {
        sign: vec![s("/a/<>")],
        unwrap_for: true,
        enroll: false,
        mgmt: true,
    };
    let seen = core.verify_delegation(DelegationCheck::Granted(granted)).unwrap();
    assert_eq!(seen.sign_patterns, vec![s("/a/<>")]);
    assert!(seen.unwrap_for && !seen.enroll && seen.mgmt);
    assert_eq!(
        core.verify_delegation(DelegationCheck::Malformed(s("x"))),
        Err(identity_error("malformed delegation: x"))
    );
    assert_eq!(
        core.verify_delegation(DelegationCheck::Unverified(s("x"))),
        Err(identity_error("delegation did not verify: x"))
    );
}

#[test]
fn delegated_signatures() {
    let mut core = Core::new(true);
    let request = |malformed: Option<&str>, named: bool, unverified: Option<&str>| {
        DelegatedRequest {
            malformed: malformed.map(s),
            named,
            unverified: unverified.map(s),
            signed: Ok(vec![5]),
        }
    };
    assert_eq!(
        core.sign_delegated(request(None, true, None)),
        Err(identity_error("no device identity loaded"))
    );
    core.set_identity(signer("/a/KEY/1"));
    assert_eq!(core.sign_delegated(request(None, true, None)), Ok(vec![5]));
    assert_eq!(
        core.sign_delegated(request(Some("x"), false, Some("y"))),
        Err(identity_error("malformed delegation: x"))
    );
    assert_eq!(
        core.sign_delegated(request(None, false, Some("y"))),
        Err(identity_error("region has no leading Name to scope-check"))
    );
    assert_eq!(
        core.sign_delegated(request(None, true, Some("y"))),
        Err(identity_error("delegation did not verify: y"))
    );
    let mut outside = request(None, true, None);
    outside.signed = Err(s("out of scope"));
    assert_eq!(core.sign_delegated(outside), Err(identity_error("out of scope")));
    assert_eq!(
        core.delegated_region("/n", Some(vec![7, 0]), &vec![1, 2]),
        Ok(vec![7, 0, 1, 2])
    );
    assert_eq!(
        core.delegated_region("n", None, &vec![1]),
        Err(NdnError::InvalidName { name: s("n") })
    );
}

#[test]
fn revocations() {
    let mut core = Core::new(true);
    core.set_identity(signer("/a/KEY/1"));
    assert_eq!(core.revoke_identity(true, Ok(true), None, Ok(vec![1])), Ok(vec![1]));
    assert_eq!(
        core.revoke_identity(true, Err(s("w")), Some(s("c")), Ok(vec![1])),
        Err(identity_error("w"))
    );
    assert_eq!(
        core.revoke_identity(true, Ok(true), Some(s("c")), Err(s("r"))),
        Err(identity_error("c"))
    );
    assert_eq!(
        core.revoke_identity(true, Ok(true), None, Err(s("r"))),
        Err(identity_error("r"))
    );
    let record = NdnRevocation {
        revoked: s("/a/KEY/1"),
        reason: s("compromised"),
        revoked_at_ms: 5,
        self_revocation: true,
    };
    assert_eq!(core.verify_revocation(RevocationCheck::Valid(record.clone())), Ok(record));
    assert_eq!(
        core.verify_revocation(RevocationCheck::Malformed(s("x"))),
        Err(identity_error("malformed revocation: x"))
    );
    assert_eq!(
        core.verify_revocation(RevocationCheck::Unverified(s("x"))),
        Err(identity_error("revocation did not verify: x"))
    );
}

#[test]
fn recovery_keys_have_their_length() {
    let mut core = Core::new(true);
    assert_eq!(check_recovery_seed(&vec![0; 32]), Ok(true));
    assert_eq!(
        check_recovery_seed(&vec![0; 5]),
        Err(identity_error("recovery seed must be 32 bytes (Ed25519), got 5"))
    );
    assert_eq!(
        core.make_recoverable(&vec![0; 33], true, Ok(vec![1])),
        Err(identity_error("recovery key must be 32 bytes (Ed25519), got 33"))
    );
    core.set_identity(signer("/a/KEY/1"));
    assert_eq!(core.make_recoverable(&vec![0; 32], true, Ok(vec![1])), Ok(vec![1]));
}

#[test]
fn restored_keys_have_fresh_random_names() {
    let core = Core::new(true);
    let a = core.restored_key_text("/alice", true).unwrap();
    let b = core.restored_key_text("/alice", true).unwrap();
    assert!(a.starts_with("/alice/KEY/"));
    assert_eq!(a.len(), "/alice/KEY/".len() + 16);
    assert_ne!(a, b);
    assert_eq!(
        core.restored_key_text("x", false),
        Err(NdnError::InvalidName { name: s("x") })
    );
    assert_eq!(key_text("/alice", &vec![0, 0xab]), "/alice/KEY/00ab");
    assert_eq!(cert_text("/alice/KEY/00ab"), "/alice/KEY/00ab/self/v=1");
    let seed = operational_seed(true).unwrap();
    assert_eq!(seed.len(), 32);
    assert_ne!(seed, vec![0; 32]);
    assert_ne!(seed, operational_seed(true).unwrap());
    assert_eq!(operational_seed(false), Err(identity_error("could not build key name")));
}

#[test]
fn restored_certificates() {
    let make = |pkcs8: Result<Vec<u8>, String>, key: Option<Vec<u8>>, parses: bool,
                clock: Result<u64, String>| {
        restored_cert(pkcs8, key, parses, clock).map(|c| {
            (c.pkcs8, c.public_key, c.not_before_ns, c.not_after_ns)
        })
    };
    assert_eq!(
        make(Ok(vec![1]), Some(vec![2]), true, Ok(5)),
        Ok((vec![1], vec![2], 5, 5 + TEN_YEARS_NS))
    );
    assert_eq!(make(Err(s("x")), None, false, Ok(5)), Err(identity_error("pkcs8: x")));
    assert_eq!(
        make(Ok(vec![1]), None, false, Ok(5)),
        Err(identity_error("operational key exposes no public key"))
    );
    assert_eq!(
        make(Ok(vec![1]), Some(vec![2]), false, Ok(5)),
        Err(identity_error("could not build cert name"))
    );
    assert_eq!(
        make(Ok(vec![1]), Some(vec![2]), true, Err(s("clock"))),
        Err(identity_error("clock"))
    );
}

#[test]
fn restores_load_the_key_or_change_nothing() {
    let mut core = Core::new(true);
    let outcome = |a: Result<Vec<u8>, String>, b: Result<Vec<u8>, String>,
                   c: Result<Vec<u8>, String>| RestoreOutcome {
        certified: a,
        recovered: b,
        sealed: c,
    };
    let mut restore = |o: RestoreOutcome| {
        core.restore_with(o, signer("/a/KEY/1"), s("k"), s("c"))
    };
    assert_eq!(
        restore(outcome(Err(s("x")), Ok(vec![]), Ok(vec![]))),
        Err(identity_error("x"))
    );
    assert_eq!(
        restore(outcome(Ok(vec![]), Err(s("refused")), Ok(vec![]))),
        Err(identity_error("refused"))
    );
    assert_eq!(
        restore(outcome(Ok(vec![]), Ok(vec![]), Err(s("x")))),
        Err(identity_error("safebag: x"))
    );
    let restored = restore(outcome(Ok(vec![1]), Ok(vec![2]), Ok(vec![3]))).unwrap();
    assert_eq!((restored.bundle, restored.safebag), (vec![2], vec![3]));
    assert_eq!((restored.key_name, restored.cert_name), (s("k"), s("c")));
    assert!(core.has_identity());
}

#[test]
fn keys_of_certificates() {
    assert_eq!(key_name_from_cert(&name("/a/KEY/1/ca/2")), name("/a/KEY/1"));
    assert_eq!(key_name_from_cert(&name("/a/KEY")), name("/a/KEY"));
    assert_eq!(key_name_from_cert(&name("/a/b")), name("/a/b"));
    assert_eq!(key_name_from_cert(&name("/KEY/KEY/1/x")), name("/KEY/KEY"));
    let typed = Name::root()
        .append_component(Component::Typed { typ: 32, value: b"KEY".to_vec() })
        .append_str("1")
        .append_str("ca");
    assert_eq!(key_name_from_cert(&typed), typed.prefix(2));
}

fn client() -> RemoteSignerClient {
    let cert = RemoteCert { cert_name: name("/a/KEY/1/ca/2"), public_key: vec![4] };
    match RemoteSignerClient::from_cert(name("/p"), Ok(cert)) {
        Ok(client) => client,
        Err(why) => panic!("{}", why),
    }
}

#[test]
fn keyless_signer_reports_its_certificate() {
    let mut c = client();
    assert_eq!(c.prefix(), &name("/p"));
    assert_eq!(c.key_name(), &name("/a/KEY/1"));
    assert_eq!(c.cert_name(), &name("/a/KEY/1/ca/2"));
    assert_eq!(c.public_key(), &vec![4]);
    assert_eq!(c.next_request(vec![1]), WireSignRequest { req_id: 1, region: vec![1] });
    assert_eq!(c.next_request(vec![2]), WireSignRequest { req_id: 2, region: vec![2] });
    let fail = |f: CertFailure| RemoteSignerClient::from_cert(name("/p"), Err(f)).err().unwrap();
    assert_eq!(fail(CertFailure::NotData(s("x"))), "remote signer cert decode: x");
    assert_eq!(fail(CertFailure::NotCertificate(s("x"))), "x");
}

#[test]
fn signatures_come_from_the_matching_reply() {
    let c = client();
    let expected = name("/p/1");
    let reply = |n: &str, answer: Result<WireSignResponse, String>| SignReply::Data {
        name: name(n),
        answer,
    };
    let approved = || Ok(WireSignResponse::Approved { req_id: 1, signature: vec![9] });
    assert_eq!(c.sign(&expected, reply("/p/1", approved())), Ok(vec![9]));
    assert_eq!(
        c.sign(&expected, reply("/p/2", approved())),
        Err(s("remote signer: correlation mismatch"))
    );
    assert_eq!(
        c.sign(&expected, reply("/p/1", Ok(WireSignResponse::Denied { req_id: 1 }))),
        Err(s("remote signer denied the request"))
    );
    assert_eq!(
        c.sign(&expected, reply("/p/1", Err(s("x")))),
        Err(s("remote signer: undecodable reply: x"))
    );
    assert_eq!(
        c.sign(&expected, SignReply::NoReply(s("x"))),
        Err(s("remote signer: no reply: x"))
    );
    assert_eq!(
        c.sign(&expected, SignReply::OwnInterest(s("x"))),
        Err(s("remote signer: own interest: x"))
    );
    assert_eq!(
        c.sign(&expected, SignReply::Undecodable(data_failure("x"))),
        Err(s("remote signer: undecodable Data: data decode: x"))
    );
    assert_eq!(reply_packet(LinkReply::Bare(vec![1])), Ok(vec![1]));
    assert_eq!(reply_packet(LinkReply::Link(Some(vec![2]))), Ok(vec![2]));
    assert_eq!(reply_packet(LinkReply::Link(None)), Err(s("lp packet had no fragment")));
    assert_eq!(reply_packet(LinkReply::Broken(s("x"))), Err(s("lp decode: x")));
}

/// A core that has loaded alice's key from a bag.
fn alice() -> Core {
    let mut core = Core::new(true);
    let key_name = "/ndn/mobile/alice/KEY/v=1";
    core.load_identity(
        Ok(b"cert".to_vec()),
        key_name,
        true,
        Ok(signer(key_name)),
        true,
        Ok(s("did:ndn:alice")),
    )
    .unwrap();
    core
}

#[test]
fn load_identity_then_sign() {
    let key_name = "/ndn/mobile/alice/KEY/v=1";
    let cert = b"cert".to_vec();
    let mut core = Core::new(true);
    assert!(!core.has_identity());
    // Wrong password fails cleanly.
    let wrong = core.load_identity(
        Ok(cert.clone()),
        key_name,
        true,
        Err(s("wrong")),
        true,
        Err(String::new()),
    );
    assert!(wrong.is_err());
    assert!(!core.has_identity());
    core.load_identity(Ok(cert), key_name, true, Ok(signer(key_name)), true, Ok(s("did")))
        .unwrap();
    assert!(core.has_identity());
    // What the signer makes of the command is what comes back.
    let sig = core.sign(Ok(b"a signed command".to_vec())).unwrap();
    assert!(!sig.is_empty());
}

#[test]
fn scoped_grant_auto_approves_bypassing_the_gate() {
    // A gate that always denies, so any approval must come from the scope.
    struct Deny;
    impl NdnApprovalGate for Deny {
        fn approve(&self, _summary: String) -> bool {
            false
        }
    }
    let core = alice();
    let respond = |decision: Decision, region: &str| {
        let request = WireSignRequest { req_id: 7, region: region.as_bytes().to_vec() };
        let approved = approve(decision, &Some(s(region)), &request.region, &Deny);
        core.respond_to_sign_request(request.req_id, approved, Ok(vec![1])).unwrap()
    };
    let route = "/localhost/nfd/rib/register";
    // Before any grant: the denying gate wins.
    assert_eq!(core.active_signing_scopes(0), 0);
    assert!(matches!(respond(Decision::Prompt, route), WireSignResponse::Denied { .. }));
    // Route edits granted for a quarter of an hour are approved all the same.
    let grant = core.grant_signing_scope(NdnActionClass::Route, 900).unwrap();
    assert_eq!((grant.ttl_secs, grant.action_filter), (900, Some(ActionClass::Route)));
    assert_eq!(core.active_signing_scopes(1), 1);
    assert!(matches!(
        respond(Decision::AutoApprove, route),
        WireSignResponse::Approved { req_id: 7, .. }
    ));
    // A sensitive command still falls through to the denying gate.
    let sensitive = "/localhost/nfd/security/anchor-add";
    assert!(matches!(respond(Decision::Prompt, sensitive), WireSignResponse::Denied { .. }));
    // Once stopped, route edits prompt again.
    assert_eq!(core.active_signing_scopes(0), 0);
    assert!(matches!(respond(Decision::Prompt, route), WireSignResponse::Denied { .. }));
}

#[test]
fn add_device_issues_a_verifiable_delegation() {
    let core = alice();
    let did = core.principal_text(true, Ok(s("did:ndn:alice"))).unwrap();
    assert!(!did.is_empty(), "principal DID present");
    assert_eq!(core.identity_text().as_deref(), Some("/ndn/mobile/alice"));
    let pattern = "/ndn/mobile/alice/device/laptop/<**rest>";
    let scope = NdnDelegationScope {
        sign_patterns: vec![s(pattern)],
        unwrap_for: true,
        enroll: false,
        mgmt: false,
    };
    let wire = core
        .add_device(
            "/ndn/mobile/alice/device/laptop",
            true,
            &scope,
            &vec![None],
            true,
            Ok(vec![1, 2]),
        )
        .unwrap();
    assert_eq!(wire, vec![1, 2]);
    let granted = core
        .verify_delegation(DelegationCheck::Granted(CapabilitySet {
            sign: vec![s(pattern)],
            unwrap_for: true,
            enroll: false,
            mgmt: false,
        }))
        .unwrap();
    assert!(granted.unwrap_for);
    assert_eq!(granted.sign_patterns, vec![s(pattern)]);
    // A device outside the principal's namespace is refused.
    let bad = NdnDelegationScope {
        sign_patterns: vec![],
        unwrap_for: false,
        enroll: false,
        mgmt: false,
    };
    assert!(core
        .add_device("/other/device/x", true, &bad, &vec![], true, Err(s("not subordinate")))
        .is_err());
}

#[test]
fn sign_delegated_enforces_a_received_grant() {
    let core = alice();
    // What the device may sign, as the principal at /ndn/lab granted it.
    let view = core
        .verify_delegation(DelegationCheck::Granted(CapabilitySet {
            sign: vec![s("/ndn/lab/device/<**rest>")],
            unwrap_for: false,
            enroll: false,
            mgmt: false,
        }))
        .unwrap();
    assert_eq!(view.sign_patterns.len(), 1);
    let request = |signed: Result<Vec<u8>, String>| DelegatedRequest {
        malformed: None,
        named: true,
        unverified: None,
        signed,
    };
    // /ndn/lab/device/data/1 signs with the device key; /ndn/lab/secret is refused.
    let sig = core.sign_delegated(request(Ok(vec![5]))).expect("in-scope signs");
    assert!(!sig.is_empty());
    assert!(
        core.sign_delegated(request(Err(s("/ndn/lab/secret is outside the grant")))).is_err(),
        "out-of-scope must be refused"
    );
}

#[test]
fn make_recoverable_yields_a_working_backup() {
    let core = alice();
    let bundle = core.make_recoverable(&vec![1u8; 32], true, Ok(vec![7, 7])).unwrap();
    assert_eq!(bundle, vec![7, 7]);
    // A recovery key of another length is rejected.
    assert_eq!(
        core.make_recoverable(&vec![0u8; 16], true, Ok(vec![7, 7])),
        Err(identity_error("recovery key must be 32 bytes (Ed25519), got 16"))
    );
}

/// Restores /ndn/mobile/alice on `device`, with what the recovery key made of it.
fn restore_alice(
    device: &mut Core,
    recovered: Result<Vec<u8>, String>,
) -> Result<NdnRecoveredIdentity, NdnError> {
    let key_name = device.restored_key_text("/ndn/mobile/alice", true)?;
    let seed = operational_seed(true)?;
    assert_eq!(seed.len(), 32);
    let cert_name = cert_text(&key_name);
    let cert = restored_cert(Ok(seed), Some(vec![4, 5]), true, Ok(5))?;
    let outcome = RestoreOutcome {
        certified: Ok(cert.public_key),
        recovered,
        sealed: Ok(b"sealed".to_vec()),
    };
    device.restore_with(outcome, signer(&key_name), key_name.clone(), cert_name)
}

#[test]
fn restore_round_trips_through_a_fresh_device() {
    // Device A commits to a recovery key and gets the bundle.
    let device_a = alice();
    assert_eq!(check_recovery_seed(&vec![4u8; 32]), Ok(true));
    let bundle = device_a.make_recoverable(&vec![4u8; 32], true, Ok(vec![0])).unwrap();
    // Device B has no identity, and restores.
    let mut device_b = Core::new(true);
    assert!(!device_b.has_identity());
    let mut appended = bundle;
    appended.push(1);
    let restored = restore_alice(&mut device_b, Ok(appended)).expect("restore");
    assert!(device_b.has_identity());
    assert!(!device_b.sign(Ok(b"after recovery".to_vec())).unwrap().is_empty());
    // The returned bundle carries the recovery link.
    assert_eq!(restored.bundle, vec![0, 1]);
    assert!(restored.key_name.starts_with("/ndn/mobile/alice/KEY/"));
    assert_eq!(restored.cert_name, cert_text(&restored.key_name));
    // The returned bag reloads on a later launch.
    let mut relaunch = Core::new(true);
    relaunch
        .load_identity(
            Ok(restored.safebag),
            &restored.key_name,
            true,
            Ok(signer(&restored.key_name)),
            true,
            Ok(s("did:ndn:alice")),
        )
        .expect("recovered SafeBag reloads");
    assert!(relaunch.has_identity());
    // A recovery seed of another length is rejected.
    assert!(check_recovery_seed(&vec![0u8; 16]).is_err());
}

#[test]
fn restore_via_callback_recovery_signer() {
    let bundle = alice().make_recoverable(&vec![4u8; 32], true, Ok(vec![0])).unwrap();
    // The recovery key lives behind a callback.
    let with = |callback: &Host| {
        recovery_signature(callback, bundle.clone()).map(|signature| {
            let mut appended = bundle.clone();
            appended.extend(signature);
            appended
        })
    };
    let mut device_b = Core::new(true);
    let restored = restore_alice(&mut device_b, with(&Host(vec![9]))).expect("callback restore");
    assert!(device_b.has_identity());
    assert!(!device_b.sign(Ok(b"x".to_vec())).unwrap().is_empty());
    assert_eq!(restored.bundle.len(), 2);
    // A refusing callback fails the restore.
    let mut device_c = Core::new(true);
    assert_eq!(
        restore_alice(&mut device_c, with(&Host(Vec::new()))),
        Err(identity_error("recovery signer refused (empty signature)"))
    );
    assert!(!device_c.has_identity());
}

#[test]
fn self_revoke_then_verify() {
    let core = alice();
    let key_name = "/ndn/mobile/alice/KEY/v=1";
    assert_eq!(core.current_signer().unwrap().key_text, key_name);
    let wire = core.revoke_identity(true, Ok(true), None, Ok(b"compromised".to_vec())).unwrap();
    assert_eq!(wire, b"compromised".to_vec());
    let rev = core
        .verify_revocation(RevocationCheck::Valid(NdnRevocation {
            revoked: s(key_name),
            reason: s("compromised"),
            revoked_at_ms: 5,
            self_revocation: true,
        }))
        .unwrap();
    assert!(rev.self_revocation);
    assert_eq!(rev.reason, "compromised");
    assert_eq!(rev.revoked, key_name);
    // A wrong key fails verification.
    assert!(core.verify_revocation(RevocationCheck::Unverified(s("signature"))).is_err());
}

#[test]
fn join_list_forget_contexts() {
    // What the keyring holds after each step is what is reported.
    let held = |namespace: &str, version: u64| NdnContext {
        namespace: s(namespace),
        version,
        anchor_count: 0,
        enforces_hierarchy: true,
    };
    let joined = join_context(Ok(held("/home/bob", 2))).unwrap();
    assert_eq!(joined.namespace, "/home/bob");
    assert_eq!(joined.version, 2);
    assert!(joined.enforces_hierarchy);
    let work = join_context(Ok(held("/work/acme", 1))).unwrap();
    assert_eq!((work.namespace.as_str(), work.version), ("/work/acme", 1));
    // Joined again at version 1, the keyring still holds 2.
    let v = join_context(Ok(held("/home/bob", 2))).unwrap();
    assert_eq!(v.version, 2);
    // Forgetting removes one; forgetting again does nothing.
    assert!(forget_context("/home/bob", Some(true)).unwrap());
    assert!(!forget_context("/home/bob", Some(false)).unwrap());
}
