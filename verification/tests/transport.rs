use bloom_triad::containment::{
    check_time, validate_status, NetworkContainmentStatus, TRUSTED_TIME_SOURCE,
};
use bloom_triad::exchange::{operation_for_call, prepare_response};
use bloom_triad::files::{FileFacts, FileKind};
use bloom_triad::hello::{
    digest_of, hello_message, operation_id_of, random_digest, random_operation_id,
    require_peer_uid, signed_hello, verify_hello, ClientHandshake, ServerHandshake,
};
use bloom_triad::quota::{is_read_method, SlidingAdmission};
use bloom_triad::{
    sign_journal_head, sign_request, sign_request_with_journal_head,
    sign_response_with_journal_head, BootEpoch, Digest32, EndpointQuota, Json, LocalIdentity,
    NetworkContainmentGuard, OperationId, PeerAcl, ProtocolError, ProtocolErrorCode,
    ProtocolVersion, SigningKey, Token,
};
use std::path::PathBuf;

fn identity(name: &str, key_byte: u8) -> LocalIdentity {
    LocalIdentity {
        service_id: Token::new(name).unwrap(),
        boot_epoch: BootEpoch::from_bytes([key_byte; 16]),
        application_key_id: Token::new(&format!("{name}-app")).unwrap(),
        signing_key: SigningKey::from_bytes(&[key_byte; 32]),
    }
}

fn acl(identity: &LocalIdentity, uid: u32) -> PeerAcl {
    PeerAcl {
        effective_uid: uid,
        service_id: identity.service_id.clone(),
        boot_epoch: identity.boot_epoch.clone(),
        application_key_id: identity.application_key_id.clone(),
        application_public_key: identity.signing_key.verifying_key(),
    }
}

fn typed(method: &str, body: Json) -> Json {
    Json::Object(vec![
        ("body".to_owned(), body),
        ("method".to_owned(), Json::Text(method.to_owned())),
    ])
}

/// Runs both ends of one handshake; each end sees the other under `uid`.
fn authenticate(
    client: &LocalIdentity,
    server_acl: &PeerAcl,
    server: &LocalIdentity,
    peers: Vec<PeerAcl>,
    uid: u32,
) -> (Result<(), ProtocolError>, Result<PeerAcl, ProtocolError>) {
    let closed = || {
        ProtocolError::new(ProtocolErrorCode::ServiceUnavailable, "the other end hung up")
    };
    let one = peers.len() == 1;
    let started_client = ClientHandshake::start(client, server_acl, uid);
    let started_server = if one {
        ServerHandshake::start(server, &peers[0], uid, random_digest().unwrap())
    } else {
        ServerHandshake::start_one_of(server, peers, uid, random_digest().unwrap())
    };
    let (mut server_side, challenge) = match started_server {
        Ok(started) => started,
        Err(error) => {
            return (
                started_client.map(|_| ()).and(Err(closed())),
                Err(error),
            )
        }
    };
    let mut client_side = match started_client {
        Ok(started) => started,
        Err(error) => return (Err(error), Err(closed())),
    };
    let (answer, counter) = match client_side.take_challenge(&challenge, random_digest().unwrap()) {
        Ok(sent) => sent,
        Err(error) => return (Err(error), Err(closed())),
    };
    if let Err(error) = server_side.take_answer(&answer) {
        return (Err(closed()), Err(error));
    }
    let (answer, peer) = match server_side.take_challenge(&counter) {
        Ok(sent) => sent,
        Err(error) => return (Err(closed()), Err(error)),
    };
    (client_side.take_answer(&answer), Ok(peer))
}

#[test]
fn mutual_challenge_and_uid_acl_succeed() {
    let uid = 501;
    let machine = identity("bloom-machine", 1);
    let broker = identity("bloom-broker", 2);
    let (client, server) = authenticate(
        &machine,
        &acl(&broker, uid),
        &broker,
        vec![acl(&machine, uid)],
        uid,
    );
    client.unwrap();
    server.unwrap();
}

#[test]
fn closed_peer_set_distinguishes_services_sharing_one_uid() {
    let uid = 501;
    let session = identity("bloom-session", 4);
    let broker = identity("bloom-broker", 2);
    let signer = identity("bloom-signer", 3);
    let (client, server) = authenticate(
        &signer,
        &acl(&session, uid),
        &session,
        vec![acl(&broker, uid), acl(&signer, uid)],
        uid,
    );
    client.unwrap();
    assert_eq!(server.unwrap().service_id.as_str(), "bloom-signer");
}

#[test]
fn closed_peer_set_rejects_unpinned_identity_on_allowed_uid() {
    let uid = 501;
    let session = identity("bloom-session", 4);
    let broker = identity("bloom-broker", 2);
    let foreign = identity("foreign-service", 9);
    let (mut server_side, challenge) =
        ServerHandshake::start_one_of(&session, vec![acl(&broker, uid)], uid, random_digest().unwrap())
            .unwrap();
    let mut client_side = ClientHandshake::start(&foreign, &acl(&session, uid), uid).unwrap();
    let (answer, _) = client_side
        .take_challenge(&challenge, random_digest().unwrap())
        .unwrap();
    assert!(matches!(
        server_side.take_answer(&answer),
        Err(ProtocolError {
            code: ProtocolErrorCode::UnauthenticatedPeer,
            ..
        })
    ));
}

#[test]
fn closed_peer_set_rejects_a_uid_that_no_peer_has() {
    let session = identity("bloom-session", 4);
    let broker = identity("bloom-broker", 2);
    let refused =
        ServerHandshake::start_one_of(&session, vec![acl(&broker, 501)], 502, random_digest().unwrap());
    assert!(matches!(
        refused,
        Err(ProtocolError {
            code: ProtocolErrorCode::UnauthenticatedPeer,
            ..
        })
    ));
}

#[test]
fn wrong_application_key_fails_closed() {
    let uid = 501;
    let machine = identity("bloom-machine", 1);
    let broker = identity("bloom-broker", 2);
    let mut wrong_broker_acl = acl(&broker, uid);
    wrong_broker_acl.application_public_key = SigningKey::from_bytes(&[9; 32]).verifying_key();
    let (client, server) = authenticate(
        &machine,
        &wrong_broker_acl,
        &broker,
        vec![acl(&machine, uid)],
        uid,
    );
    assert_eq!(
        client.unwrap_err().code,
        ProtocolErrorCode::UnauthenticatedPeer
    );
    assert!(server.is_err());
}

#[test]
fn wrong_effective_uid_fails_before_application_authentication() {
    let machine = identity("bloom-machine", 1);
    let broker = identity("bloom-broker", 2);
    let client = ClientHandshake::start(&machine, &acl(&broker, 502), 501);
    let server = ServerHandshake::start(&broker, &acl(&machine, 502), 501, random_digest().unwrap());
    assert!(matches!(
        client,
        Err(ProtocolError {
            code: ProtocolErrorCode::UnauthenticatedPeer,
            ..
        })
    ));
    assert!(matches!(
        server,
        Err(ProtocolError {
            code: ProtocolErrorCode::UnauthenticatedPeer,
            ..
        })
    ));
    assert_eq!(
        require_peer_uid(501, 502).unwrap_err().code,
        ProtocolErrorCode::UnauthenticatedPeer
    );
    require_peer_uid(501, 501).unwrap();
}

#[test]
fn machine_cannot_authenticate_to_signer_endpoint() {
    let uid = 501;
    let machine = identity("bloom-machine", 1);
    let broker = identity("bloom-broker", 2);
    let signer = identity("bloom-signer", 3);
    let (client, server) = authenticate(
        &machine,
        &acl(&signer, uid),
        &signer,
        vec![acl(&broker, uid)],
        uid,
    );
    assert!(client.is_err());
    assert_eq!(
        server.unwrap_err().code,
        ProtocolErrorCode::UnauthenticatedPeer
    );
}

#[test]
fn an_answer_to_another_challenge_is_refused() {
    let uid = 501;
    let machine = identity("bloom-machine", 1);
    let broker = identity("bloom-broker", 2);
    let (mut server_side, challenge) =
        ServerHandshake::start(&broker, &acl(&machine, uid), uid, Digest32::from_bytes([1; 32]))
            .unwrap();
    assert_eq!(challenge.challenge, Digest32::from_bytes([1; 32]));
    let replayed = signed_hello(&machine, Digest32::from_bytes([2; 32])).unwrap();
    assert_eq!(
        server_side.take_answer(&replayed).unwrap_err().code,
        ProtocolErrorCode::UnauthenticatedPeer
    );
}

#[test]
fn a_hello_is_bound_to_every_field() {
    let machine = identity("bloom-machine", 1);
    let expected = acl(&machine, 501);
    let hello = signed_hello(&machine, Digest32::from_bytes([3; 32])).unwrap();
    verify_hello(&hello, &expected).unwrap();
    assert_eq!(hello.protocol, ProtocolVersion::current());
    assert_eq!(
        String::from_utf8(hello_message(&hello).unwrap()).unwrap(),
        format!(
            "bloom-local-hello/v1{{\"application_key_id\":\"bloom-machine-app\",\"boot_epoch\":\"{}\",\
             \"challenge\":\"{}\",\"protocol\":{{\"major\":1,\"minor\":1}},\
             \"service_id\":\"bloom-machine\",\"signature\":\"\"}}",
            "01".repeat(16),
            "03".repeat(32)
        )
    );
    let code = |hello: &bloom_triad::HelloChallenge| verify_hello(hello, &expected).unwrap_err().code;

    let mut changed = hello.clone();
    changed.challenge = Digest32::from_bytes([4; 32]);
    assert_eq!(code(&changed), ProtocolErrorCode::UnauthenticatedPeer);
    let mut changed = hello.clone();
    changed.service_id = Token::new("bloom-broker").unwrap();
    assert_eq!(code(&changed), ProtocolErrorCode::UnauthenticatedPeer);
    let mut changed = hello.clone();
    changed.boot_epoch = BootEpoch::from_bytes([9; 16]);
    assert_eq!(code(&changed), ProtocolErrorCode::UnauthenticatedPeer);
    let mut changed = hello.clone();
    changed.protocol.major = 2;
    assert_eq!(code(&changed), ProtocolErrorCode::UnsupportedVersion);
}

#[test]
fn fresh_values_are_not_repeated() {
    let digest = random_digest().unwrap();
    assert_ne!(digest, random_digest().unwrap());
    assert_ne!(digest, Digest32::from_bytes([0; 32]));
    let operation = random_operation_id().unwrap();
    assert_ne!(operation, random_operation_id().unwrap());
    let chosen = operation_for_call(None).unwrap();
    assert_ne!(chosen, operation);
    assert_eq!(operation_for_call(Some(chosen.clone())).unwrap(), chosen);
}

#[test]
fn drawn_bytes_make_the_values_and_none_is_an_error() {
    assert_eq!(
        digest_of(Some([0xab; 32])).unwrap().as_str(),
        "ab".repeat(32)
    );
    assert_eq!(
        operation_id_of(Some([0x05; 32])).unwrap().as_str(),
        "05".repeat(32)
    );
    let error = digest_of(None).unwrap_err();
    assert_eq!(error.code, ProtocolErrorCode::ServiceUnavailable);
    assert_eq!(
        error.message,
        "operating system random numbers are unavailable"
    );
    assert_eq!(operation_id_of(None).unwrap_err(), error);
}

#[test]
fn response_never_extends_an_expired_request_deadline() {
    let machine = identity("bloom-machine", 1);
    let broker = identity("bloom-broker", 2);
    let request = sign_request(
        &machine,
        broker.service_id.clone(),
        OperationId::from_bytes([4; 32]),
        typed("action.validate", Json::Text("05".repeat(32))),
        1,
        2,
    )
    .unwrap();
    let error = prepare_response(
        &broker,
        &request,
        Ok(Json::Text("05".repeat(32))),
        bloom_triad::sealing::now_ms().unwrap(),
        None,
    )
    .unwrap_err();
    assert_eq!(error.code, ProtocolErrorCode::ServiceUnavailable);
}

#[test]
fn broker_signer_envelope_builders_bind_required_journal_heads() {
    let broker = identity("bloom-broker", 2);
    let signer = identity("bloom-signer", 3);
    let broker_acl = acl(&broker, 501);
    let signer_acl = acl(&signer, 502);
    let broker_head = sign_journal_head(&broker, 4, Digest32::from_bytes([4; 32]));
    let request = sign_request_with_journal_head(
        &broker,
        signer.service_id.clone(),
        OperationId::from_bytes([5; 32]),
        typed("signer.readiness", Json::Object(vec![])),
        10,
        20,
        broker_head.clone(),
    )
    .unwrap();
    request
        .verify_typed(
            501,
            &broker_acl.authenticated_for(signer.service_id.clone()),
        )
        .unwrap();
    assert_eq!(request.unsigned.sender_journal_head, Some(broker_head));

    let missing = sign_request(
        &broker,
        signer.service_id.clone(),
        OperationId::from_bytes([6; 32]),
        typed("signer.readiness", Json::Object(vec![])),
        10,
        20,
    )
    .unwrap();
    assert_eq!(
        missing
            .verify_typed(
                501,
                &broker_acl.authenticated_for(signer.service_id.clone())
            )
            .unwrap_err()
            .code,
        ProtocolErrorCode::UnauthenticatedPeer
    );

    let signer_head = sign_journal_head(&signer, 8, Digest32::from_bytes([8; 32]));
    let response = sign_response_with_journal_head(
        &signer,
        &request,
        Ok::<_, ProtocolError>(typed("signer.readiness", Json::Text("ready".to_owned()))),
        11,
        20,
        signer_head.clone(),
    )
    .unwrap();
    response
        .verify_response_to(
            502,
            &signer_acl.authenticated_for(broker.service_id.clone()),
            &request,
        )
        .unwrap();
    assert_eq!(response.unsigned.sender_journal_head, Some(signer_head));
}

#[test]
fn read_status_remains_available_while_mutation_quota_is_exhausted() {
    let mut quota = EndpointQuota::new(1, 10, 1_000, 10, 1_000).unwrap();
    let mutation = quota
        .try_admit(&Token::new("signer.sign").unwrap(), 100)
        .unwrap();
    assert_eq!(
        quota
            .try_admit(&Token::new("signer.sign").unwrap(), 101)
            .unwrap_err()
            .code,
        ProtocolErrorCode::QuotaExceeded
    );
    quota
        .try_admit(&Token::new("operation.status").unwrap(), 102)
        .unwrap();
    quota.release(mutation);
    quota
        .try_admit(&Token::new("signer.sign").unwrap(), 103)
        .unwrap();
}

#[test]
fn endpoint_request_and_journal_windows_fail_closed_independently() {
    let mut request_limited = EndpointQuota::new(2, 1, 100, 10, 100).unwrap();
    request_limited
        .try_admit(&Token::new("operation.status").unwrap(), 10)
        .unwrap();
    assert_eq!(
        request_limited
            .try_admit(&Token::new("operation.status").unwrap(), 11)
            .unwrap_err()
            .code,
        ProtocolErrorCode::QuotaExceeded
    );
    request_limited
        .try_admit(&Token::new("operation.status").unwrap(), 110)
        .unwrap();

    let mut journal_limited = EndpointQuota::new(2, 10, 100, 1, 100).unwrap();
    let first = journal_limited
        .try_admit(&Token::new("signer.sign").unwrap(), 20)
        .unwrap();
    journal_limited.release(first);
    assert_eq!(
        journal_limited
            .try_admit(&Token::new("signer.sign").unwrap(), 21)
            .unwrap_err()
            .code,
        ProtocolErrorCode::QuotaExceeded
    );
}

#[test]
fn quota_limits_must_be_positive() {
    for (mutations, requests, window, admissions, journal_window) in [
        (0, 1, 1, 1, 1),
        (1, 0, 1, 1, 1),
        (1, 1, 0, 1, 1),
        (1, 1, 1, 0, 1),
        (1, 1, 1, 1, 0),
    ] {
        assert!(
            EndpointQuota::new(mutations, requests, window, admissions, journal_window).is_err()
        );
    }
}

#[test]
fn a_window_admits_again_once_its_events_expire() {
    let mut window = SlidingAdmission::new(2, 100);
    window.try_admit(10, "full").unwrap();
    window.try_admit(20, "full").unwrap();
    let refused = window.try_admit(109, "full").unwrap_err();
    assert_eq!(refused.code, ProtocolErrorCode::QuotaExceeded);
    assert_eq!(refused.message, "full");
    window.try_admit(110, "full").unwrap();
    window.try_admit(119, "full").unwrap_err();
    // A clock that stepped back frees nothing.
    window.try_admit(0, "full").unwrap_err();
    window.try_admit(120, "full").unwrap();
}

#[test]
fn status_methods_are_reads() {
    assert!(is_read_method(&Token::new("operation.status").unwrap()));
    assert!(!is_read_method(&Token::new("signer.sign").unwrap()));
}

fn status(
    available: bool,
    trusted_time_source: &str,
    trusted_time_available: bool,
    checked_at_unix_ms: u64,
) -> Result<NetworkContainmentStatus, String> {
    Ok(NetworkContainmentStatus {
        schema: "bloom.macos-platform-status.2".to_owned(),
        login_uid: 501,
        build_digest: Digest32::new(&"11".repeat(32)).unwrap(),
        anchor_sha256: Digest32::new(&"22".repeat(32)).unwrap(),
        trusted_time_source: trusted_time_source.to_owned(),
        automatic_time_enabled: trusted_time_available,
        timed_service_loaded: trusted_time_available,
        trusted_time_available,
        checked_at_unix_ms,
        available,
    })
}

#[test]
fn containment_status_is_exact_build_uid_available_and_fresh() {
    let digest = Digest32::new(&"11".repeat(32)).unwrap();
    validate_status(
        &status(true, TRUSTED_TIME_SOURCE, true, 10_000),
        501,
        &digest,
        12_000,
        3_000,
    )
    .unwrap();
    for rejected in [
        status(false, TRUSTED_TIME_SOURCE, true, 10_000),
        status(true, TRUSTED_TIME_SOURCE, false, 10_000),
        status(true, "peer-supplied-time", true, 10_000),
        status(true, TRUSTED_TIME_SOURCE, true, 8_999),
        status(true, TRUSTED_TIME_SOURCE, true, 13_001),
    ] {
        assert_eq!(
            validate_status(&rejected, 501, &digest, 12_000, 3_000)
                .unwrap_err()
                .code,
            ProtocolErrorCode::ServiceUnavailable
        );
    }
    assert!(validate_status(
        &status(true, TRUSTED_TIME_SOURCE, true, 10_000),
        502,
        &digest,
        12_000,
        3_000
    )
    .is_err());
    assert!(validate_status(
        &status(true, TRUSTED_TIME_SOURCE, true, 10_000),
        501,
        &Digest32::new(&"33".repeat(32)).unwrap(),
        12_000,
        3_000,
    )
    .is_err());
}

fn file(mode: u32, uid: u32) -> FileFacts {
    FileFacts {
        kind: FileKind::Regular,
        device: 1,
        inode: 2,
        mode: 0o100000 | mode,
        uid,
        gid: uid,
        links: 1,
        size: 3,
        modified_secs: 4,
        modified_nanos: 5,
        changed_secs: 6,
        changed_nanos: 7,
    }
}

#[test]
fn containment_guard_reads_only_a_trusted_status() {
    let digest = Digest32::new(&"11".repeat(32)).unwrap();
    let path = PathBuf::from("/run/status.json");
    assert!(NetworkContainmentGuard::new(path.clone(), 501, digest.clone(), 0).is_err());
    let guard = NetworkContainmentGuard::new(path.clone(), 501, digest, 3_000).unwrap();
    assert_eq!(guard.path(), &path);
    guard.check_metadata(&file(0o644, 0)).unwrap();
    assert!(guard.check_metadata(&file(0o664, 0)).is_err());
    assert!(guard.check_metadata(&file(0o644, 501)).is_err());
    let mut linked = file(0o644, 0);
    linked.kind = FileKind::Symlink;
    assert!(guard.check_metadata(&linked).is_err());

    guard
        .check(&status(true, TRUSTED_TIME_SOURCE, true, 10_000), 12_000)
        .unwrap();
    guard
        .check(&status(true, TRUSTED_TIME_SOURCE, true, 13_000), 12_000)
        .unwrap();
    assert!(guard
        .check(&status(true, TRUSTED_TIME_SOURCE, true, 10_000), 13_001)
        .is_err());
    assert!(guard.check(&Err("no JSON".to_owned()), 12_000).is_err());
    assert_eq!(check_time(Some(7)).unwrap(), 7);
    assert!(check_time(None).is_err());
    assert!(check_time(Some(u128::MAX)).is_err());
}
