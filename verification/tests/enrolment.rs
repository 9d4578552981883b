use ndn_mobile::mobile::enroll::{
    fresh_key_name, generate_identity, generated_public_key, load_identity, valid_until, CaStatus,
    Challenge, EnrollAction, EnrollConfig, EnrollError, EnrollEvent, EnrolledIdentity, Enrollment,
    Exchange, PinRequest, SafeBagAlgorithm, SealFailure, Stage,
};
use ndn_mobile::name::{Component, Name};

fn name(text: &str) -> Name {
    let mut n = Name::root();
    for part in text.split('/').filter(|p| !p.is_empty()) {
        n = n.append_str(part);
    }
    n
}

fn status(complete: bool, issued: Option<&str>) -> CaStatus {
    CaStatus {
        request_id: Some(vec![0xab, 0x01]),
        complete,
        status_message: Some("sent".to_string()),
        issued: issued.map(name),
    }
}

/// Takes one exchange up to the point where its response is being read.
fn exchange(e: &mut Enrollment, to: &Name, handle_new: bool) {
    assert_eq!(
        e.on_event(EnrollEvent::Built(Ok(vec![1]))),
        EnrollAction::Sign { name: to.clone(), body: vec![1] }
    );
    assert_eq!(e.on_event(EnrollEvent::Signed(Ok(vec![2]))), EnrollAction::Fetch(vec![2]));
    let read = e.on_event(EnrollEvent::Fetched(Ok(Some(vec![3]))));
    assert_eq!(
        read,
        if handle_new {
            EnrollAction::HandleNew(vec![3])
        } else {
            EnrollAction::HandleChallenge(vec![3])
        }
    );
}

fn challenge_name() -> Name {
    name("/ndn/CA/CHALLENGE").append(&[0xab, 0x01])
}

fn params(action: EnrollAction) -> (String, Vec<(String, String)>) {
    match action {
        EnrollAction::BuildChallenge { challenge, params } => (
            challenge,
            params
                .iter()
                .map(|(k, v)| (k.clone(), v.as_str().unwrap().to_string()))
                .collect(),
        ),
        other => panic!("unexpected {:?}", other),
    }
}

#[test]
fn pin_enrolment_asks_once_and_fetches_the_certificate() {
    let mut e = Enrollment::new(name("/ndn"), Challenge::Pin);
    assert_eq!(e.stage(), Stage::Build(Exchange::New));
    exchange(&mut e, &name("/ndn/CA/NEW"), true);
    let trigger = e.on_event(EnrollEvent::Handled(Ok(status(false, None))));
    assert_eq!(params(trigger), ("pin".to_string(), vec![]));
    exchange(&mut e, &challenge_name(), false);
    assert_eq!(
        e.on_event(EnrollEvent::Handled(Ok(status(false, None)))),
        EnrollAction::AskPin(PinRequest {
            request_id: "ab01".to_string(),
            status_message: Some("sent".to_string()),
        })
    );
    // An event that does not belong to the stage changes nothing.
    assert_eq!(e.on_event(EnrollEvent::Built(Ok(vec![9]))), EnrollAction::Wait);
    let submit = e.on_event(EnrollEvent::Pin("1234".to_string()));
    assert_eq!(
        params(submit),
        ("pin".to_string(), vec![("code".to_string(), "1234".to_string())])
    );
    exchange(&mut e, &challenge_name(), false);
    let cert = name("/ndn/alice/KEY/1/ca/2");
    assert_eq!(
        e.on_event(EnrollEvent::Handled(Ok(status(true, Some("/ndn/alice/KEY/1/ca/2"))))),
        EnrollAction::FetchCert(cert.clone())
    );
    assert_eq!(
        e.on_event(EnrollEvent::CertFetched(Some(vec![6]))),
        EnrollAction::Done { cert_name: cert, certificate: Some(vec![6]) }
    );
    assert_eq!(e.stage(), Stage::Finished);
}

#[test]
fn token_enrolment_needs_no_pin() {
    let mut e = Enrollment::new(name("/ndn"), Challenge::Token("t0k".to_string()));
    exchange(&mut e, &name("/ndn/CA/NEW"), true);
    let token = e.on_event(EnrollEvent::Handled(Ok(status(false, None))));
    assert_eq!(
        params(token),
        ("token".to_string(), vec![("token".to_string(), "t0k".to_string())])
    );
    exchange(&mut e, &challenge_name(), false);
    assert_eq!(
        e.on_event(EnrollEvent::Handled(Ok(status(true, Some("/c"))))),
        EnrollAction::FetchCert(name("/c"))
    );
    assert_eq!(
        e.on_event(EnrollEvent::CertFetched(None)),
        EnrollAction::Done { cert_name: name("/c"), certificate: None }
    );
}

#[test]
fn a_ca_that_needs_no_code_ends_after_the_trigger() {
    let mut e = Enrollment::new(name("/ndn"), Challenge::Pin);
    exchange(&mut e, &name("/ndn/CA/NEW"), true);
    e.on_event(EnrollEvent::Handled(Ok(status(false, None))));
    exchange(&mut e, &challenge_name(), false);
    assert_eq!(
        e.on_event(EnrollEvent::Handled(Ok(status(true, Some("/c"))))),
        EnrollAction::FetchCert(name("/c"))
    );
}

fn failure(events: Vec<EnrollEvent>, challenge: Challenge) -> EnrollError {
    let mut e = Enrollment::new(name("/ndn"), challenge);
    let mut last = EnrollAction::Wait;
    for event in events {
        last = e.on_event(event);
    }
    assert_eq!(e.stage(), Stage::Finished);
    match last {
        EnrollAction::Fail(error) => error,
        other => panic!("unexpected {:?}", other),
    }
}

fn steps() -> Vec<EnrollEvent> {
    vec![
        EnrollEvent::Built(Ok(vec![1])),
        EnrollEvent::Signed(Ok(vec![2])),
        EnrollEvent::Fetched(Ok(Some(vec![3]))),
    ]
}

#[test]
fn enrolment_failures() {
    let pin = || Challenge::Pin;
    assert_eq!(
        failure(vec![EnrollEvent::Built(Err("b".to_string()))], pin()),
        EnrollError::Cert("b".to_string())
    );
    assert_eq!(
        failure(
            vec![EnrollEvent::Built(Ok(vec![])), EnrollEvent::Signed(Err("s".to_string()))],
            pin()
        ),
        EnrollError::Sign("s".to_string())
    );
    let two = || vec![EnrollEvent::Built(Ok(vec![])), EnrollEvent::Signed(Ok(vec![]))];
    let mut events = two();
    events.push(EnrollEvent::Fetched(Err("timeout".to_string())));
    assert_eq!(failure(events, pin()), EnrollError::Fetch("NEW: timeout".to_string()));
    let mut events = two();
    events.push(EnrollEvent::Fetched(Ok(None)));
    assert_eq!(failure(events, pin()), EnrollError::EmptyResponse);
    let mut events = steps();
    events.push(EnrollEvent::Handled(Err("h".to_string())));
    assert_eq!(failure(events, pin()), EnrollError::Cert("h".to_string()));
    let mut events = steps();
    let mut no_id = status(false, None);
    no_id.request_id = None;
    events.push(EnrollEvent::Handled(Ok(no_id)));
    assert_eq!(
        failure(events, pin()),
        EnrollError::Cert("no request_id after NEW".to_string())
    );
    // The token exchange, refused in three ways.
    let token = || Challenge::Token("t".to_string());
    let upto = || {
        let mut events = steps();
        events.push(EnrollEvent::Handled(Ok(status(false, None))));
        events
    };
    let mut events = upto();
    events.extend(steps());
    events.push(EnrollEvent::Handled(Ok(status(false, None))));
    assert_eq!(failure(events, token()), EnrollError::Incomplete);
    let mut events = upto();
    events.extend(steps());
    events.push(EnrollEvent::Handled(Ok(status(true, None))));
    assert_eq!(
        failure(events, token()),
        EnrollError::Cert("no issued cert name".to_string())
    );
    let mut events = upto();
    events.extend(two());
    events.push(EnrollEvent::Fetched(Err("x".to_string())));
    assert_eq!(failure(events, token()), EnrollError::Fetch("CHALLENGE token: x".to_string()));
    let mut events = upto();
    events.extend(two());
    events.push(EnrollEvent::Fetched(Err("x".to_string())));
    assert_eq!(failure(events, pin()), EnrollError::Fetch("CHALLENGE trigger: x".to_string()));
    let mut events = upto();
    events.extend(steps());
    events.push(EnrollEvent::Handled(Ok(status(false, None))));
    events.push(EnrollEvent::Pin("1".to_string()));
    events.extend(two());
    events.push(EnrollEvent::Fetched(Err("x".to_string())));
    assert_eq!(failure(events, pin()), EnrollError::Fetch("CHALLENGE submit: x".to_string()));
}

#[test]
fn enrolment_messages() {
    let s = |t: &str| t.to_string();
    assert_eq!(EnrollError::Key(s("a")).message(), "key generation/export: a");
    assert_eq!(EnrollError::Cert(s("a")).message(), "NDNCERT protocol: a");
    assert_eq!(EnrollError::Sign(s("a")).message(), "Interest signing: a");
    assert_eq!(EnrollError::Fetch(s("a")).message(), "fetch from CA failed: a");
    assert_eq!(EnrollError::EmptyResponse.message(), "CA response missing content");
    assert_eq!(
        EnrollError::Incomplete.message(),
        "enrollment did not complete after PIN submission"
    );
    assert_eq!(
        EnrollError::NoCertificate.message(),
        "no issued cert was fetched; SafeBag needs the certificate"
    );
    assert_eq!(
        EnrollError::NotExportable.message(),
        "custodian/enclave key is not exportable to a SafeBag"
    );
    assert_eq!(EnrollError::SafeBag(s("a")).message(), "SafeBag: a");
}

#[test]
fn custodian_provenance_is_not_safebag_exportable() {
    let key_name = name("/ndn/mobile/enclave/KEY").append_version(1);
    let cert = vec![0x06, 0x00];
    let id = EnrolledIdentity::from_custodian(key_name.clone(), key_name.clone(), Some(cert));
    assert!(!id.is_exportable());
    assert!(matches!(id.to_safebag(Ok(b"pw".to_vec())), Err(EnrollError::NotExportable)));
    assert!(matches!(id.certificate_to_seal(), Err(EnrollError::NotExportable)));
    assert_eq!(id.key_name(), &key_name);
}

#[test]
fn software_identity_is_sealed_with_its_certificate() {
    let key = name("/a/KEY").append_version(1);
    let id = EnrolledIdentity::from_software(key.clone(), name("/c"), Some(vec![1, 2]));
    assert!(id.is_exportable());
    assert_eq!(id.certificate(), Some(&vec![1, 2]));
    assert_eq!(id.cert_name(), &name("/c"));
    assert_eq!(id.to_safebag(Ok(vec![7])), Ok(vec![7]));
    assert_eq!(
        id.to_safebag(Err(SealFailure::Key("k".to_string()))),
        Err(EnrollError::Key("k".to_string()))
    );
    assert_eq!(
        id.to_safebag(Err(SealFailure::Bag("b".to_string()))),
        Err(EnrollError::SafeBag("b".to_string()))
    );
    let bare = EnrolledIdentity::from_software(key, name("/c"), None);
    assert_eq!(bare.to_safebag(Ok(vec![7])), Err(EnrollError::NoCertificate));
}

#[test]
fn safebag_round_trip_preserves_signing_identity() {
    let key_name = name("/ndn/mobile/alice/KEY").append_version(1);
    let pkcs8 = vec![9u8; 32];
    let id = EnrolledIdentity::from_software(
        key_name.clone(),
        key_name.clone(),
        Some(b"cert-stub".to_vec()),
    );
    assert_eq!(id.certificate_to_seal(), Ok(&b"cert-stub".to_vec()));
    assert_eq!(id.key_name(), &key_name);
    let bag = id.to_safebag(Ok(pkcs8.clone())).unwrap();
    assert_eq!(
        load_identity(Ok(bag), Ok(SafeBagAlgorithm::EcdsaP256)),
        Ok(pkcs8),
        "restored identity must produce identical signatures",
    );
}

#[test]
fn safebag_wrong_password_is_rejected() {
    // What decrypting with "wrong" a bag that was sealed with "right" comes to.
    assert!(load_identity(Err("wrong".to_string()), Ok(SafeBagAlgorithm::EcdsaP256)).is_err());
}

#[test]
fn only_ecdsa_keys_are_loaded() {
    assert_eq!(load_identity(Ok(vec![1]), Ok(SafeBagAlgorithm::EcdsaP256)), Ok(vec![1]));
    assert_eq!(
        load_identity(Ok(vec![1]), Ok(SafeBagAlgorithm::Ed25519)),
        Err(EnrollError::Key("unsupported key algorithm Ed25519".to_string()))
    );
    assert_eq!(
        load_identity(Ok(vec![1]), Ok(SafeBagAlgorithm::Other("1.2.3".to_string()))),
        Err(EnrollError::Key("unsupported key algorithm 1.2.3".to_string()))
    );
    assert_eq!(
        load_identity(Ok(vec![1]), Err("no oid".to_string())),
        Err(EnrollError::SafeBag("no oid".to_string()))
    );
}

#[test]
fn names_and_validity_of_a_generated_identity() {
    let plan = generate_identity(name("/alice"), 1700, 5, 2);
    assert_eq!(plan.key_name, fresh_key_name(name("/alice"), 1700));
    assert_eq!(
        plan.key_name,
        name("/alice/KEY").append_component(Component::Version(1700))
    );
    assert_eq!(plan.cert_name, plan.key_name.clone().append_str("self").append_version(0));
    assert_eq!((plan.not_before_ns, plan.not_after_ns), (5, 2_000_000_005));
    assert_eq!(valid_until(1, u64::MAX), u64::MAX);
    assert_eq!(generated_public_key(Some(vec![4])), Ok(vec![4]));
    assert_eq!(
        generated_public_key(None),
        Err(EnrollError::Key("generated key has no public key".to_string()))
    );
    let config = EnrollConfig::new(name("/ndn"), name("/alice"));
    assert_eq!(config.validity_secs, 86_400);
    assert_eq!(config.validity_secs(60).validity_secs, 60);
}
