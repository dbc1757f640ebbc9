use bloom_triad::exchange::{accept_request, accept_response, prepare_call, prepare_response};
use bloom_triad::json::to_value;
use bloom_triad::sealing::{digest, require_live_deadline, seal, time_from};
use bloom_triad::wire::{canonical_wire, WireForm};
use bloom_triad::{
    sign_journal_head, sign_request, sign_request_with_journal_head, sign_response,
    sign_response_with_journal_head, AuthenticatedPeer, Base64UrlBytes, BootEpoch, DecimalU64,
    Digest32, EnvelopeKind, Json, LocalIdentity, OperationId, PeerAcl, ProtocolError,
    ProtocolErrorCode, ProtocolVersion, SignedEnvelope, SignedJournalHead, SigningKey, Token,
    TypedRequestMethod, UnsignedEnvelope, WireValue, RPC_ENVELOPE_SCHEMA_V1,
};

#[derive(Debug, PartialEq)]
enum OperationRequestFixture {
    Mutate { operation_id: OperationId },
}

impl WireValue for OperationRequestFixture {
    fn wire(&self) -> WireForm {
        unreachable!()
    }

    fn to_json(&self) -> Result<Json, String> {
        let Self::Mutate { operation_id } = self;
        Ok(Json::Object(vec![
            ("method".to_owned(), Json::Text("test.mutate".to_owned())),
            (
                "body".to_owned(),
                Json::Object(vec![(
                    "operation_id".to_owned(),
                    Json::Text(operation_id.as_str().to_owned()),
                )]),
            ),
        ]))
    }
}

impl TypedRequestMethod for OperationRequestFixture {
    fn operation_id(&self) -> Result<Option<OperationId>, ProtocolError> {
        let Self::Mutate { operation_id } = self;
        Ok(Some(operation_id.clone()))
    }
}

/// A body that cannot be written.
struct Unwritable;

impl WireValue for Unwritable {
    fn wire(&self) -> WireForm {
        unreachable!()
    }

    fn to_json(&self) -> Result<Json, String> {
        Err("no form".to_owned())
    }
}

impl TypedRequestMethod for Unwritable {}

fn journal_head(signing_key: &SigningKey, service: &str, key_id: &str) -> SignedJournalHead {
    let mut head = SignedJournalHead {
        service_id: Token::new(service).unwrap(),
        sequence: DecimalU64::new(7),
        head_hash: Digest32::from_bytes([9; 32]),
        key_id: Token::new(key_id).unwrap(),
        signature: Base64UrlBytes::from_bytes(&[]),
    };
    head.signature = Base64UrlBytes::from_bytes(&signing_key.sign(&head.signature_message()));
    head
}

fn sealed(signing_key: &SigningKey, unsigned: UnsignedEnvelope<String>) -> SignedEnvelope<String> {
    let signature = signing_key.sign(&unsigned.canonical_bytes().unwrap());
    SignedEnvelope {
        unsigned,
        signature: Base64UrlBytes::from_bytes(&signature),
    }
}

fn unsigned(signing_key: &SigningKey) -> UnsignedEnvelope<String> {
    UnsignedEnvelope {
        protocol: ProtocolVersion::current(),
        schema: Token::new("bloom.rpc-envelope.1").unwrap(),
        kind: EnvelopeKind::Request,
        method: Token::new("signer.sign").unwrap(),
        operation_id: OperationId::new(&"11".repeat(32)).unwrap(),
        request_digest: digest(&"body".to_owned()).unwrap(),
        caller_service_id: Token::new("bloom-broker").unwrap(),
        caller_boot_epoch: BootEpoch::new(&"22".repeat(16)).unwrap(),
        audience: Token::new("bloom-signer").unwrap(),
        sent_at_ms: DecimalU64::new(10),
        deadline_ms: DecimalU64::new(20),
        body: "body".to_owned(),
        application_key_id: Token::new("broker-app-1").unwrap(),
        sender_journal_head: Some(journal_head(signing_key, "bloom-broker", "broker-app-1")),
    }
}

fn peer(signing_key: &SigningKey) -> AuthenticatedPeer {
    AuthenticatedPeer {
        effective_uid: 501,
        service_id: Token::new("bloom-broker").unwrap(),
        boot_epoch: BootEpoch::new(&"22".repeat(16)).unwrap(),
        audience: Token::new("bloom-signer").unwrap(),
        application_key_id: Token::new("broker-app-1").unwrap(),
        application_public_key: signing_key.verifying_key(),
    }
}

fn signed() -> (SignedEnvelope<String>, AuthenticatedPeer) {
    let signing_key = SigningKey::from_bytes(&[7; 32]);
    (sealed(&signing_key, unsigned(&signing_key)), peer(&signing_key))
}

#[test]
fn envelopes_are_cloned_whole() {
    let (envelope, _) = signed();
    assert_eq!(envelope.clone(), envelope);
    assert_eq!(envelope.unsigned.clone(), envelope.unsigned);
}

#[test]
fn typed_transport_operation_uses_the_stable_body_operation() {
    let operation_id = OperationId::from_bytes([44; 32]);
    let request = OperationRequestFixture::Mutate {
        operation_id: operation_id.clone(),
    };
    assert_eq!(request.operation_id().unwrap(), Some(operation_id));
}

#[test]
fn typed_verifier_rejects_outer_and_body_operation_mismatch() {
    let signing_key = SigningKey::from_bytes(&[7; 32]);
    let body = OperationRequestFixture::Mutate {
        operation_id: OperationId::from_bytes([44; 32]),
    };
    let unsigned = UnsignedEnvelope {
        protocol: ProtocolVersion::current(),
        schema: Token::new(RPC_ENVELOPE_SCHEMA_V1).unwrap(),
        kind: EnvelopeKind::Request,
        method: body.method().unwrap(),
        operation_id: OperationId::from_bytes([45; 32]),
        request_digest: digest(&body).unwrap(),
        caller_service_id: Token::new("bloom-machine").unwrap(),
        caller_boot_epoch: BootEpoch::from_bytes([2; 16]),
        audience: Token::new("bloom-broker").unwrap(),
        sent_at_ms: DecimalU64::new(10),
        deadline_ms: DecimalU64::new(20),
        body,
        application_key_id: Token::new("machine-app").unwrap(),
        sender_journal_head: Some(journal_head(&signing_key, "bloom-machine", "machine-app")),
    };
    let envelope = SignedEnvelope {
        signature: Base64UrlBytes::from_bytes(
            &signing_key.sign(&unsigned.canonical_bytes().unwrap()),
        ),
        unsigned,
    };
    let expected = AuthenticatedPeer {
        effective_uid: 501,
        service_id: Token::new("bloom-machine").unwrap(),
        boot_epoch: BootEpoch::from_bytes([2; 16]),
        audience: Token::new("bloom-broker").unwrap(),
        application_key_id: Token::new("machine-app").unwrap(),
        application_public_key: signing_key.verifying_key(),
    };
    assert_eq!(
        envelope.verify_typed(501, &expected).unwrap_err().code,
        ProtocolErrorCode::OperationIdConflict
    );
}

#[test]
fn dual_peer_identity_and_all_envelope_bindings_fail_closed() {
    let (envelope, peer) = signed();
    envelope.verify(501, &peer).unwrap();
    assert_eq!(
        envelope.verify(502, &peer).unwrap_err().code,
        ProtocolErrorCode::UnauthenticatedPeer
    );

    let (mut wrong, _) = signed();
    wrong.unsigned.audience = Token::new("bloom-machine").unwrap();
    assert_eq!(
        wrong.verify(501, &peer).unwrap_err().code,
        ProtocolErrorCode::UnauthenticatedPeer
    );

    let (mut wrong, _) = signed();
    wrong.unsigned.protocol.major = 2;
    assert_eq!(
        wrong.verify(501, &peer).unwrap_err().code,
        ProtocolErrorCode::UnsupportedVersion
    );

    let mut wrong = envelope;
    wrong.unsigned.body = "changed".into();
    assert_eq!(
        wrong.verify(501, &peer).unwrap_err().code,
        ProtocolErrorCode::MalformedFrame
    );
}

#[test]
fn every_refusal_of_an_envelope_says_why() {
    let key = SigningKey::from_bytes(&[7; 32]);
    let expected = peer(&key);
    let message = |envelope: &SignedEnvelope<String>| envelope.verify(501, &expected).unwrap_err().message;

    let mut version = unsigned(&key);
    version.protocol.minor = 9;
    assert_eq!(
        message(&sealed(&key, version)),
        "unsupported protocol 1.9; supported 1.0-1"
    );

    let mut schema = unsigned(&key);
    schema.schema = Token::new("bloom.rpc-envelope.2").unwrap();
    assert_eq!(message(&sealed(&key, schema)), "unsupported RPC envelope schema");

    let mut deadline = unsigned(&key);
    deadline.deadline_ms = DecimalU64::new(10);
    assert_eq!(
        message(&sealed(&key, deadline)),
        "envelope deadline must be after sent_at"
    );

    let mut short = sealed(&key, unsigned(&key));
    short.signature = Base64UrlBytes::from_bytes(&[1; 63]);
    assert_eq!(message(&short), "application signature must contain 64 bytes");

    let mut forged = sealed(&key, unsigned(&key));
    forged.signature = Base64UrlBytes::from_bytes(&[1; 64]);
    assert_eq!(message(&forged), "application signature verification failed");

    let mut later = sealed(&key, unsigned(&key));
    later.unsigned.deadline_ms = DecimalU64::new(21);
    assert_eq!(message(&later), "application signature verification failed");

    let mut missing = unsigned(&key);
    missing.sender_journal_head = None;
    assert_eq!(
        message(&sealed(&key, missing)),
        "authority-edge envelope omitted its signed sender journal head"
    );

    let mut downgrade = unsigned(&key);
    downgrade.protocol.minor = 0;
    assert_eq!(
        message(&sealed(&key, downgrade)),
        "authority-edge journal heads require protocol minor 1 without downgrade"
    );

    let mut foreign = unsigned(&key);
    foreign.sender_journal_head = Some(journal_head(&key, "bloom-signer", "broker-app-1"));
    assert_eq!(
        message(&sealed(&key, foreign)),
        "journal head service or application key identity mismatch"
    );

    let other = SigningKey::from_bytes(&[8; 32]);
    let mut unsigned_head = unsigned(&key);
    unsigned_head.sender_journal_head = Some(journal_head(&other, "bloom-broker", "broker-app-1"));
    assert_eq!(
        message(&sealed(&key, unsigned_head)),
        "journal-head application signature verification failed"
    );

    let mut short_head = unsigned(&key);
    let mut head = journal_head(&key, "bloom-broker", "broker-app-1");
    head.signature = Base64UrlBytes::from_bytes(b"short");
    short_head.sender_journal_head = Some(head);
    assert_eq!(
        message(&sealed(&key, short_head)),
        "journal-head signature must contain 64 bytes"
    );

    // Thirty-two bytes that are no point of the curve.
    let mut unusable = peer(&key);
    unusable.application_public_key = [2; 32];
    let envelope = sealed(&key, unsigned(&key));
    assert_eq!(
        envelope.verify(501, &unusable).unwrap_err().message,
        "invalid pinned application public key"
    );
    assert_eq!(
        journal_head(&key, "bloom-broker", "broker-app-1")
            .verify_sender_identity(
                &Token::new("bloom-broker").unwrap(),
                &Token::new("broker-app-1").unwrap(),
                &[2; 32]
            )
            .unwrap_err()
            .message,
        "invalid pinned journal-head public key"
    );
}

#[test]
fn heads_are_forbidden_outside_authority_edges() {
    let key = SigningKey::from_bytes(&[7; 32]);
    let mut elsewhere = unsigned(&key);
    elsewhere.audience = Token::new("bloom-session").unwrap();
    let mut expected = peer(&key);
    expected.audience = Token::new("bloom-session").unwrap();
    assert_eq!(
        sealed(&key, elsewhere).verify(501, &expected).unwrap_err().message,
        "sender journal heads are forbidden outside authority edges"
    );
    let mut bare = unsigned(&key);
    bare.audience = Token::new("bloom-session").unwrap();
    bare.sender_journal_head = None;
    sealed(&key, bare).verify(501, &expected).unwrap();
    let mut old = unsigned(&key);
    old.audience = Token::new("bloom-session").unwrap();
    old.sender_journal_head = None;
    old.protocol.minor = 0;
    sealed(&key, old).verify(501, &expected).unwrap();
}

#[test]
fn canonical_bytes_and_digests_are_exact() {
    assert_eq!(
        digest(&"body".to_owned()).unwrap().as_str(),
        "bfd4d039e9f8aca33b52a877ded02f73846f28f9095c2bba178316be62ef7c1f"
    );
    let key = SigningKey::from_bytes(&[7; 32]);
    let mut bare = unsigned(&key);
    bare.sender_journal_head = None;
    assert_eq!(
        String::from_utf8(bare.canonical_bytes().unwrap()).unwrap(),
        "{\"application_key_id\":\"broker-app-1\",\"audience\":\"bloom-signer\",\"body\":\"body\",\
         \"caller_boot_epoch\":\"22222222222222222222222222222222\",\
         \"caller_service_id\":\"bloom-broker\",\"deadline_ms\":\"20\",\"kind\":\"request\",\
         \"method\":\"signer.sign\",\
         \"operation_id\":\"1111111111111111111111111111111111111111111111111111111111111111\",\
         \"protocol\":{\"major\":1,\"minor\":1},\
         \"request_digest\":\"bfd4d039e9f8aca33b52a877ded02f73846f28f9095c2bba178316be62ef7c1f\",\
         \"schema\":\"bloom.rpc-envelope.1\",\"sent_at_ms\":\"10\"}"
    );
    bare.kind = EnvelopeKind::Response;
    assert_eq!(
        bare.expected_request_digest().unwrap().as_str(),
        "bfd4d039e9f8aca33b52a877ded02f73846f28f9095c2bba178316be62ef7c1f"
    );
    assert!(String::from_utf8(bare.canonical_bytes().unwrap())
        .unwrap()
        .contains("\"kind\":\"response\""));
}

#[test]
fn journal_head_message_is_exact() {
    let head = SignedJournalHead {
        service_id: Token::new("bloom-signer").unwrap(),
        sequence: DecimalU64::new(258),
        head_hash: Digest32::from_bytes([9; 32]),
        key_id: Token::new("k1").unwrap(),
        signature: Base64UrlBytes::from_bytes(&[]),
    };
    let mut expected = b"bloom-audit-journal-head/v1\0bloom-signer\0".to_vec();
    expected.extend([0, 0, 0, 0, 0, 0, 1, 2]);
    expected.extend("09".repeat(32).as_bytes());
    expected.extend(b"\0k1");
    assert_eq!(head.signature_message(), expected);
}

#[test]
fn an_altered_head_has_another_message_and_is_refused() {
    let key = SigningKey::from_bytes(&[7; 32]);
    let head = journal_head(&key, "bloom-signer", "k1");
    let verdict = |head: &SignedJournalHead| {
        head.verify_sender_identity(&head.service_id, &head.key_id, &key.verifying_key())
    };
    verdict(&head).unwrap();
    let mut service = head.clone();
    service.service_id = Token::new("bloom-broker").unwrap();
    let mut sequence = head.clone();
    sequence.sequence = DecimalU64::new(8);
    let mut hash = head.clone();
    hash.head_hash = Digest32::from_bytes([8; 32]);
    let mut key_id = head.clone();
    key_id.key_id = Token::new("k2").unwrap();
    for altered in [service, sequence, hash, key_id] {
        assert_ne!(altered.signature_message(), head.signature_message());
        assert_eq!(
            verdict(&altered).unwrap_err().code,
            ProtocolErrorCode::UnauthenticatedPeer
        );
    }
}

fn identity(service: &str, seed: u8) -> LocalIdentity {
    LocalIdentity {
        service_id: Token::new(service).unwrap(),
        boot_epoch: BootEpoch::from_bytes([seed; 16]),
        application_key_id: Token::new("app-key").unwrap(),
        signing_key: SigningKey::from_bytes(&[seed; 32]),
    }
}

fn acl(identity: &LocalIdentity, uid: u32) -> PeerAcl {
    PeerAcl {
        effective_uid: uid,
        service_id: identity.service_id.clone(),
        boot_epoch: identity.boot_epoch.clone(),
        application_key_id: identity.application_key_id.clone(),
        application_public_key: identity.signing_key.verifying_key(),
    }
}

fn request_body(method: &str) -> Json {
    Json::Object(vec![(
        "method".to_owned(),
        Json::Text(method.to_owned()),
    )])
}

#[test]
fn broker_signer_builders_bind_required_journal_heads() {
    let broker = identity("bloom-broker", 21);
    let signer = identity("bloom-signer", 22);
    let request_head = sign_journal_head(&broker, 4, Digest32::from_bytes([4; 32]));
    let response_head = sign_journal_head(&signer, 5, Digest32::from_bytes([5; 32]));
    let request = sign_request_with_journal_head(
        &broker,
        signer.service_id.clone(),
        OperationId::from_bytes([31; 32]),
        request_body("signer.status"),
        100,
        200,
        request_head,
    )
    .unwrap();
    assert_eq!(request.unsigned.method.as_str(), "signer.status");
    let from_broker = acl(&broker, 501).authenticated_for(signer.service_id.clone());
    request.verify_typed(501, &from_broker).unwrap();

    let response = sign_response_with_journal_head(
        &signer,
        &request,
        "done".to_owned(),
        110,
        200,
        response_head,
    )
    .unwrap();
    let from_signer = acl(&signer, 502).authenticated_for(broker.service_id.clone());
    response
        .verify_response_to(502, &from_signer, &request)
        .unwrap();

    let bare = sign_request(
        &broker,
        signer.service_id.clone(),
        OperationId::from_bytes([31; 32]),
        request_body("signer.status"),
        100,
        200,
    )
    .unwrap();
    assert_eq!(
        bare.verify(501, &from_broker).unwrap_err().code,
        ProtocolErrorCode::UnauthenticatedPeer
    );
    let bare = sign_response(&signer, &request, "done".to_owned(), 110, 200).unwrap();
    assert_eq!(
        bare.verify_response_to(502, &from_signer, &request)
            .unwrap_err()
            .code,
        ProtocolErrorCode::UnauthenticatedPeer
    );
}

#[test]
fn responses_correlate_to_one_request() {
    let broker = identity("bloom-broker", 21);
    let signer = identity("bloom-signer", 22);
    let head = |who: &LocalIdentity| Some(sign_journal_head(who, 1, Digest32::from_bytes([1; 32])));
    let server = acl(&signer, 502);
    let client = acl(&broker, 501);
    let call = |operation: u8| {
        prepare_call(
            &broker,
            &server,
            OperationId::from_bytes([operation; 32]),
            request_body("signer.sign"),
            1_000,
            500,
            head(&broker),
        )
        .unwrap()
    };
    let request = call(1);
    assert_eq!(request.unsigned.deadline_ms.get(), 1_500);
    assert_eq!(request.unsigned.audience.as_str(), "bloom-signer");
    accept_request(&request, &signer, &client, 501, 1_499).unwrap();
    let late = accept_request(&request, &signer, &client, 501, 1_500).unwrap_err();
    assert_eq!(late.code, ProtocolErrorCode::ServiceUnavailable);
    assert_eq!(late.message, "authenticated local request deadline expired");
    assert_eq!(
        require_live_deadline(&request, 1_500).unwrap_err().code,
        ProtocolErrorCode::ServiceUnavailable
    );

    let response = prepare_response::<String, Json>(
        &signer,
        &request,
        Ok("done".to_owned()),
        1_100,
        head(&signer),
    )
    .unwrap();
    assert_eq!(response.unsigned.kind, EnvelopeKind::Response);
    assert_eq!(response.unsigned.deadline_ms.get(), 1_500);
    accept_response(&response, &request, &broker, &server, 502, 1_200).unwrap();
    assert_eq!(
        accept_response(&response, &request, &broker, &server, 502, 1_500)
            .unwrap_err()
            .code,
        ProtocolErrorCode::ServiceUnavailable
    );
    let other = accept_response(&response, &call(2), &broker, &server, 502, 1_200).unwrap_err();
    assert_eq!(other.code, ProtocolErrorCode::MalformedFrame);
    assert_eq!(
        other.message,
        "response does not correlate to the authenticated request"
    );
    assert_eq!(
        accept_response(&response, &request, &broker, &server, 503, 1_200)
            .unwrap_err()
            .code,
        ProtocolErrorCode::UnauthenticatedPeer
    );
}

#[test]
fn response_never_outlives_its_request() {
    let broker = identity("bloom-broker", 21);
    let machine = identity("bloom-machine", 23);
    let request = sign_request(
        &machine,
        broker.service_id.clone(),
        OperationId::from_bytes([8; 32]),
        request_body("broker.status"),
        1,
        2,
    )
    .unwrap();
    let error =
        prepare_response::<String, Json>(&broker, &request, Ok("late".to_owned()), 2, None)
            .unwrap_err();
    assert_eq!(error.code, ProtocolErrorCode::ServiceUnavailable);
    assert_eq!(error.message, "request deadline expired before response");
}

#[test]
fn a_typed_call_uses_the_operation_of_its_body() {
    let broker = identity("bloom-broker", 21);
    let server = acl(&broker, 501);
    let machine = identity("bloom-machine", 23);
    let own = OperationId::from_bytes([44; 32]);
    let request = prepare_call(
        &machine,
        &server,
        OperationId::from_bytes([45; 32]),
        OperationRequestFixture::Mutate {
            operation_id: own.clone(),
        },
        u64::MAX - 1,
        500,
        Some(sign_journal_head(&machine, 1, Digest32::from_bytes([1; 32]))),
    )
    .unwrap();
    assert_eq!(request.unsigned.operation_id, own);
    assert_eq!(request.unsigned.deadline_ms.get(), u64::MAX);
    accept_request(&request, &broker, &acl(&machine, 7), 7, 0).unwrap();
}

#[test]
fn typed_bodies_need_a_method() {
    let untyped = Json::Object(vec![("kind".to_owned(), Json::Null)]);
    let error = untyped.method().unwrap_err();
    assert_eq!(error.message, "typed request has no method discriminator");
    let numbered = Json::Object(vec![("method".to_owned(), Json::Unsigned(1))]);
    assert_eq!(
        numbered.method().unwrap_err().message,
        "typed request has no method discriminator"
    );
    assert_eq!(
        request_body("Not A Token").method().unwrap_err().code,
        ProtocolErrorCode::MalformedFrame
    );
    assert_eq!(
        Unwritable.method().unwrap_err().message,
        "typed request serialization failed: no form"
    );
    assert_eq!(request_body("a.b").operation_id().unwrap(), None);

    // The envelope names another method than its body.
    let machine = identity("bloom-machine", 23);
    let broker = identity("bloom-broker", 21);
    let mut request = sign_request_with_journal_head(
        &machine,
        broker.service_id.clone(),
        OperationId::from_bytes([8; 32]),
        request_body("broker.status"),
        1,
        2,
        sign_journal_head(&machine, 1, Digest32::from_bytes([1; 32])),
    )
    .unwrap()
    .unsigned;
    request.method = Token::new("broker.revoke").unwrap();
    let request = seal(&machine, request).unwrap();
    let expected = acl(&machine, 7).authenticated_for(broker.service_id.clone());
    request.verify(7, &expected).unwrap();
    assert_eq!(
        request.verify_typed(7, &expected).unwrap_err().code,
        ProtocolErrorCode::MalformedFrame
    );
}

#[test]
fn unwritable_bodies_are_refused() {
    assert_eq!(
        digest(&Unwritable).unwrap_err().code,
        ProtocolErrorCode::MalformedFrame
    );
    assert_eq!(canonical_wire(&Unwritable).unwrap_err(), "no form");
}

#[test]
fn results_and_errors_have_a_wire_form() {
    let ok: Result<String, ProtocolError> = Ok("x".to_owned());
    assert_eq!(canonical_wire(&ok).unwrap(), b"{\"Ok\":\"x\"}");
    let error: Result<String, ProtocolError> = Err(ProtocolError::fatal(
        ProtocolErrorCode::UnauthenticatedPeer,
        "no",
    ));
    assert_eq!(
        String::from_utf8(canonical_wire(&error).unwrap()).unwrap(),
        "{\"Err\":{\"code\":\"unauthenticated_peer\",\"message\":\"no\"}}"
    );
    assert_eq!(
        to_value(&error.to_json().unwrap())["Err"]["message"],
        serde_json::Value::String("no".to_owned())
    );
}

#[test]
fn wall_clock_readings_become_milliseconds() {
    assert_eq!(time_from(Some(5)).unwrap(), 5);
    assert_eq!(
        time_from(None).unwrap_err().code,
        ProtocolErrorCode::ClockRollback
    );
    assert_eq!(
        time_from(Some(u64::MAX as u128 + 1)).unwrap_err().code,
        ProtocolErrorCode::ClockUntrusted
    );
}
