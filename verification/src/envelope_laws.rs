//! What is asked of an envelope, in terms of its fields and of the peer that sent it.

use vstd::prelude::*;

use crate::audit::SignedJournalHead;
use crate::envelope::{
    AuthenticatedPeer, EnvelopeKind, ProtocolVersion, SignedEnvelope, UnsignedEnvelope,
};
use crate::error::{WireError, WireErrorCode, WireErrorView};
use crate::identity::{AclView, IdentityView};
use crate::ids::{OperationId, Token};
use crate::json::JsonView;
use crate::wire::{wire_bytes, WireValue};

verus! {

/// Authority is exercised between Broker and each of Machine and Signer, in either direction, and
/// nowhere else.
pub proof fn law_authority_edges_join_broker_with_machine_and_signer(
    caller: Seq<char>,
    audience: Seq<char>,
)
    ensures
        crate::envelope::authority_edge(caller, audience) == crate::envelope::authority_edge(
            audience,
            caller,
        ),
        crate::envelope::authority_edge(caller, audience) <==> (caller == "bloom-broker"@ && (
        audience == "bloom-machine"@ || audience == "bloom-signer"@)) || (audience
            == "bloom-broker"@ && (caller == "bloom-machine"@ || caller == "bloom-signer"@)),
{
}

/// A version is spoken exactly if its major number is 1 and its minor number is 0 or 1.
pub proof fn law_versions_are_accepted_exactly(version: ProtocolVersion)
    ensures
        crate::envelope::version_check(version) is Ok <==> version.major == 1 && version.minor <= 1,
        crate::envelope::version_check(version) matches Err(e) ==> e.code
            == WireErrorCode::UnsupportedVersion,
{
}

/// An envelope carries the journal head that its edge demands exactly if, between Broker and
/// Machine or Signer, it speaks minor 1 or later and carries a head of its sender, under its own
/// key, whose signature verifies; elsewhere, if it carries none.
pub proof fn law_journal_head_is_demanded_exactly<T>(
    envelope: UnsignedEnvelope<T>,
    public_key: Seq<u8>,
)
    ensures
        crate::envelope::head_check(envelope, public_key) is Ok <==> (if joins_broker(
            envelope.caller_service_id@,
            envelope.audience@,
        ) {
            envelope.protocol.minor != 0 && (envelope.sender_journal_head matches Some(head)
                && head.service_id@ == envelope.caller_service_id@ && head.key_id@
                == envelope.application_key_id@ && crate::crypto::ed25519_key_accepted(public_key)
                && head.signature@.len() == 64 && crate::crypto::ed25519_verifies(
                public_key,
                crate::audit::head_message(head@),
                head.signature@,
            ))
        } else {
            envelope.sender_journal_head is None
        }),
        crate::envelope::head_check(envelope, public_key) matches Err(e) ==> e.code == (
        if envelope.protocol.minor == 0 {
            WireErrorCode::UnsupportedVersion
        } else {
            WireErrorCode::UnauthenticatedPeer
        }),
{
}

/// One end is Broker and the other is Machine or Signer.
pub open spec fn joins_broker(caller: Seq<char>, audience: Seq<char>) -> bool {
    (caller == "bloom-broker"@ && (audience == "bloom-machine"@ || audience == "bloom-signer"@))
        || (audience == "bloom-broker"@ && (caller == "bloom-machine"@ || caller
        == "bloom-signer"@))
}

/// The envelope comes from the peer that is expected, for the audience that is expected.
pub open spec fn comes_from_peer<T>(
    envelope: UnsignedEnvelope<T>,
    observed_uid: u32,
    expected: AuthenticatedPeer,
) -> bool {
    &&& observed_uid == expected.effective_uid
    &&& envelope.caller_service_id@ == expected.service_id@
    &&& envelope.caller_boot_epoch@ == expected.boot_epoch@
    &&& envelope.audience@ == expected.audience@
    &&& envelope.application_key_id@ == expected.application_key_id@
}

/// An envelope is authentic exactly if it speaks a known version and schema, comes from the peer
/// that is expected, ends after it was sent, carries the digest of its body if it is a request,
/// is signed over all of it under the peer's key, and carries the journal head that its edge
/// demands.
pub proof fn law_envelope_is_authentic_exactly<T: WireValue>(
    envelope: SignedEnvelope<T>,
    observed_uid: u32,
    expected: AuthenticatedPeer,
)
    ensures
        ({
            let u = envelope.unsigned;
            let key = expected.application_public_key@;
            crate::envelope::authentic(envelope, observed_uid, expected) is Ok <==> {
                &&& u.protocol.major == 1
                &&& u.protocol.minor <= 1
                &&& u.schema@ == "bloom.rpc-envelope.1"@
                &&& comes_from_peer(u, observed_uid, expected)
                &&& u.sent_at_ms@ < u.deadline_ms@
                &&& u.kind == EnvelopeKind::Request ==> (wire_bytes(u.body.wire()) matches Ok(body)
                    && u.request_digest@ == crate::hex_text::hex_chars(
                    crate::crypto::sha256_of(body),
                ))
                &&& crate::crypto::ed25519_key_accepted(key)
                &&& envelope.signature@.len() == 64
                &&& wire_bytes(u.wire()) matches Ok(bytes)
                &&& crate::crypto::ed25519_verifies(key, bytes, envelope.signature@)
                &&& crate::envelope::head_check(u, key) is Ok
            }
        }),
{
}

/// The order of the checks decides the code of a refusal: the version and the schema first, then
/// the peer, then the times and the body's digest, then the signature and the head.
pub proof fn law_refused_envelope_says_why<T: WireValue>(
    envelope: SignedEnvelope<T>,
    observed_uid: u32,
    expected: AuthenticatedPeer,
)
    requires
        crate::envelope::authentic(envelope, observed_uid, expected) is Err,
    ensures
        ({
            let u = envelope.unsigned;
            let code = crate::envelope::authentic(envelope, observed_uid, expected)->Err_0.code;
            let spoken = u.protocol.major == 1 && u.protocol.minor <= 1 && u.schema@
                == "bloom.rpc-envelope.1"@;
            &&& !spoken ==> code == WireErrorCode::UnsupportedVersion
            &&& spoken && !comes_from_peer(u, observed_uid, expected) ==> code
                == WireErrorCode::UnauthenticatedPeer
            &&& spoken && comes_from_peer(u, observed_uid, expected) && u.deadline_ms@
                <= u.sent_at_ms@ ==> code == WireErrorCode::MalformedFrame
            &&& spoken && comes_from_peer(u, observed_uid, expected) && u.sent_at_ms@
                < u.deadline_ms@ && u.kind == EnvelopeKind::Request && !(wire_bytes(u.body.wire())
                matches Ok(body) && u.request_digest@ == crate::hex_text::hex_chars(
                crate::crypto::sha256_of(body),
            )) ==> code == WireErrorCode::MalformedFrame
            &&& code == WireErrorCode::UnsupportedVersion || code
                == WireErrorCode::UnauthenticatedPeer || code == WireErrorCode::MalformedFrame
        }),
{
}

/// A response is accepted exactly if it is authentic and the two envelopes are a response and a
/// request with one method, one operation and one digest.
pub proof fn law_response_is_accepted_exactly<T: WireValue, U>(
    response: SignedEnvelope<T>,
    observed_uid: u32,
    expected: AuthenticatedPeer,
    request: UnsignedEnvelope<U>,
)
    ensures
        ({
            let u = response.unsigned;
            let verdict = crate::envelope::response_verdict(
                response,
                observed_uid,
                expected,
                request,
            );
            &&& verdict is Ok <==> crate::envelope::authentic(response, observed_uid, expected) is Ok
                && u.kind == EnvelopeKind::Response && request.kind == EnvelopeKind::Request
                && u.method@ == request.method@ && u.operation_id@ == request.operation_id@
                && u.request_digest@ == request.request_digest@
            &&& crate::envelope::authentic(response, observed_uid, expected) is Err ==> verdict
                == crate::envelope::authentic(response, observed_uid, expected)
            &&& crate::envelope::authentic(response, observed_uid, expected) is Ok && verdict is Err
                ==> verdict->Err_0.code == WireErrorCode::MalformedFrame
        }),
{
}

/// A typed request is bound exactly if it is a request whose method is its body's method and
/// whose operation is its body's operation, where the body has one.
pub proof fn law_typed_request_is_bound_exactly<T>(
    envelope: UnsignedEnvelope<T>,
    method: Result<Token, WireError>,
    operation: Result<Option<OperationId>, WireError>,
)
    ensures
        crate::typed::typed_binding(envelope, method, operation) is Ok <==> {
            &&& envelope.kind == EnvelopeKind::Request
            &&& method matches Ok(m)
            &&& m@ == envelope.method@
            &&& operation matches Ok(own)
            &&& own matches Some(id) ==> id@ == envelope.operation_id@
        },
        envelope.kind == EnvelopeKind::Request && (method matches Ok(m) && m@ == envelope.method@)
            && (operation matches Ok(Some(id)) && id@ != envelope.operation_id@)
            ==> crate::typed::typed_binding(envelope, method, operation)->Err_0.code
            == WireErrorCode::OperationIdConflict,
        envelope.kind != EnvelopeKind::Request || (method matches Ok(m) && m@ != envelope.method@)
            ==> crate::typed::typed_binding(envelope, method, operation)->Err_0.code
            == WireErrorCode::MalformedFrame,
{
}

proof fn lemma_field_is_last(entries: Seq<(Seq<char>, JsonView)>, key: Seq<char>) -> (at: int)
    ensures
        crate::typed::field_of(entries, key) is None ==> forall|i: int|
            0 <= i < entries.len() ==> (#[trigger] entries[i]).0 != key,
        crate::typed::field_of(entries, key) matches Some(value) ==> 0 <= at < entries.len()
            && entries[at] == (key, value) && forall|i: int|
            at < i < entries.len() ==> (#[trigger] entries[i]).0 != key,
    decreases entries.len(),
{
    if entries.len() == 0 {
        0
    } else if entries.last().0 == key {
        entries.len() - 1
    } else {
        let before = entries.drop_last();
        let at = lemma_field_is_last(before, key);
        if crate::typed::field_of(before, key) is Some {
            assert(entries[at] == before[at]);
        }
        assert forall|i: int| 0 <= i < entries.len() && (crate::typed::field_of(before, key) is None
            || at < i) implies (#[trigger] entries[i]).0 != key by {
            if i < before.len() {
                assert(before[i] == entries[i]);
            }
        }
        at
    }
}

/// A body has a method exactly if it reads as an object whose last field named `method` is a text
/// of the form of a token, and that text is the method.
pub proof fn law_method_is_the_last_method_field(
    wire: Result<JsonView, Seq<char>>,
    method: Seq<char>,
)
    ensures
        crate::typed::method_of(wire) == Ok::<Seq<char>, WireErrorView>(method) <==> {
            &&& wire matches Ok(JsonView::Object(entries))
            &&& crate::ids::is_token_text(method)
            &&& exists|at: int| #![trigger entries[at]]
                0 <= at < entries.len() && entries[at] == ("method"@, JsonView::Text(method))
                    && forall|i: int|
                    at < i < entries.len() ==> (#[trigger] entries[i]).0 != "method"@
        },
        crate::typed::method_of(wire) matches Err(e) ==> e.code == WireErrorCode::MalformedFrame,
{
    if let Ok(JsonView::Object(entries)) = wire {
        let at = lemma_field_is_last(entries, "method"@);
        if crate::typed::method_of(wire) == Ok::<Seq<char>, WireErrorView>(method) {
            assert(entries[at] == ("method"@, JsonView::Text(method)));
        }
        if exists|k: int| #![trigger entries[k]]
            0 <= k < entries.len() && entries[k] == ("method"@, JsonView::Text(method)) && forall|
                i: int,
            |
                k < i < entries.len() ==> (#[trigger] entries[i]).0 != "method"@ {
            let k = choose|k: int| #![trigger entries[k]]
                0 <= k < entries.len() && entries[k] == ("method"@, JsonView::Text(method))
                    && forall|i: int|
                    k < i < entries.len() ==> (#[trigger] entries[i]).0 != "method"@;
            assert(entries[k].0 == "method"@);
            if at < k {
                assert(entries[k].0 != "method"@);
            } else if k < at {
                assert(entries[at].0 != "method"@);
            }
        }
    }
}

/// A tree is an object with this field.
pub open spec fn says(tree: JsonView, key: Seq<char>, value: JsonView) -> bool {
    tree matches JsonView::Object(entries) && exists|i: int|
        0 <= i < entries.len() && #[trigger] entries[i] == (key, value)
}

/// How many fields an object has.
pub open spec fn field_count(tree: JsonView) -> nat {
    match tree {
        JsonView::Object(entries) => entries.len(),
        _ => 0,
    }
}

/// What is signed of an envelope holds each of its fields under its name, and nothing else.
pub proof fn law_signed_bytes_cover_every_field<T>(envelope: UnsignedEnvelope<T>, body: JsonView)
    ensures
        ({
            let tree = crate::envelope::envelope_wire(envelope, body);
            let version = crate::envelope::version_wire(envelope.protocol);
            &&& field_count(tree) == 13 + (if envelope.sender_journal_head is Some {
                1nat
            } else {
                0nat
            })
            &&& says(tree, "protocol"@, version)
            &&& field_count(version) == 2
            &&& says(version, "major"@, JsonView::Unsigned(envelope.protocol.major as u64))
            &&& says(version, "minor"@, JsonView::Unsigned(envelope.protocol.minor as u64))
            &&& says(tree, "schema"@, JsonView::Text(envelope.schema@))
            &&& says(
                tree,
                "kind"@,
                JsonView::Text(
                    if envelope.kind == EnvelopeKind::Request {
                        "request"@
                    } else {
                        "response"@
                    },
                ),
            )
            &&& says(tree, "method"@, JsonView::Text(envelope.method@))
            &&& says(tree, "operation_id"@, JsonView::Text(envelope.operation_id@))
            &&& says(tree, "request_digest"@, JsonView::Text(envelope.request_digest@))
            &&& says(tree, "caller_service_id"@, JsonView::Text(envelope.caller_service_id@))
            &&& says(tree, "caller_boot_epoch"@, JsonView::Text(envelope.caller_boot_epoch@))
            &&& says(tree, "audience"@, JsonView::Text(envelope.audience@))
            &&& says(
                tree,
                "sent_at_ms"@,
                JsonView::Text(crate::decimal::decimal_chars(envelope.sent_at_ms@ as nat)),
            )
            &&& says(
                tree,
                "deadline_ms"@,
                JsonView::Text(crate::decimal::decimal_chars(envelope.deadline_ms@ as nat)),
            )
            &&& says(tree, "body"@, body)
            &&& says(tree, "application_key_id"@, JsonView::Text(envelope.application_key_id@))
            &&& envelope.sender_journal_head matches Some(head) ==> says(
                tree,
                "sender_journal_head"@,
                crate::audit::head_wire(head@),
            )
        }),
{
    let version = crate::envelope::version_wire(envelope.protocol)->Object_0;
    assert(version[0].0 == "major"@);
    assert(version[1].0 == "minor"@);
    let entries = crate::envelope::envelope_wire(envelope, body)->Object_0;
    assert(entries[0].0 == "protocol"@);
    assert(entries[1].0 == "schema"@);
    assert(entries[2].0 == "kind"@);
    assert(entries[3].0 == "method"@);
    assert(entries[4].0 == "operation_id"@);
    assert(entries[5].0 == "request_digest"@);
    assert(entries[6].0 == "caller_service_id"@);
    assert(entries[7].0 == "caller_boot_epoch"@);
    assert(entries[8].0 == "audience"@);
    assert(entries[9].0 == "sent_at_ms"@);
    assert(entries[10].0 == "deadline_ms"@);
    assert(entries[11].0 == "body"@);
    assert(entries[12].0 == "application_key_id"@);
    if envelope.sender_journal_head is Some {
        assert(entries[13].0 == "sender_journal_head"@);
    }
}

/// What is expected of a peer is what its ACL pins, for the audience.
pub proof fn law_expected_peer_is_the_pinned_one(
    peer: AuthenticatedPeer,
    acl: AclView,
    audience: Seq<char>,
)
    ensures
        crate::identity::expects_peer(peer, acl, audience) <==> peer.effective_uid == acl.uid
            && peer.service_id@ == acl.service && peer.boot_epoch@ == acl.boot_epoch
            && peer.audience@ == audience && peer.application_key_id@ == acl.key_id
            && peer.application_public_key@ == acl.public_key,
{
}

/// A signed request says who asks whom for what, from when until when, with the digest of its
/// body and the head that was given, in the current version, under the signature of its sender.
pub proof fn law_signed_request_says_what_was_asked<T: WireValue>(
    envelope: SignedEnvelope<T>,
    identity: IdentityView,
    audience: Seq<char>,
    operation_id: Seq<char>,
    method: Result<Token, WireError>,
    body: T,
    sent_at_ms: u64,
    deadline_ms: u64,
    head: Option<SignedJournalHead>,
)
    requires
        crate::sealing::request_outcome(
            Ok(envelope),
            identity,
            audience,
            operation_id,
            method,
            body,
            sent_at_ms,
            deadline_ms,
            head,
        ),
    ensures
        ({
            let u = envelope.unsigned;
            &&& u.protocol.major == 1
            &&& u.protocol.minor == 1
            &&& u.schema@ == "bloom.rpc-envelope.1"@
            &&& u.kind == EnvelopeKind::Request
            &&& method matches Ok(m)
            &&& u.method@ == m@
            &&& u.operation_id@ == operation_id
            &&& u.caller_service_id@ == identity.service
            &&& u.caller_boot_epoch@ == identity.boot_epoch
            &&& u.application_key_id@ == identity.key_id
            &&& u.audience@ == audience
            &&& u.sent_at_ms@ == sent_at_ms
            &&& u.deadline_ms@ == deadline_ms
            &&& u.body == body
            &&& u.sender_journal_head == head
            &&& wire_bytes(body.wire()) matches Ok(bytes)
            &&& u.request_digest@ == crate::hex_text::hex_chars(crate::crypto::sha256_of(bytes))
            &&& wire_bytes(u.wire()) matches Ok(signed)
            &&& envelope.signature@.len() == 64
            &&& crate::crypto::ed25519_verifies(
                crate::crypto::ed25519_public(identity.seed),
                signed,
                envelope.signature@,
            )
        }),
{
}

/// A signed response says who answers whom, with the method, the operation and the digest of the
/// request, in the current version, under the signature of its sender.
pub proof fn law_signed_response_says_what_was_answered<T: WireValue, U>(
    envelope: SignedEnvelope<T>,
    identity: IdentityView,
    request: UnsignedEnvelope<U>,
    body: T,
    sent_at_ms: u64,
    deadline_ms: u64,
    head: Option<SignedJournalHead>,
)
    requires
        crate::sealing::response_outcome(
            Ok(envelope),
            identity,
            request,
            body,
            sent_at_ms,
            deadline_ms,
            head,
        ),
    ensures
        ({
            let u = envelope.unsigned;
            &&& u.protocol.major == 1
            &&& u.protocol.minor == 1
            &&& u.schema@ == "bloom.rpc-envelope.1"@
            &&& u.kind == EnvelopeKind::Response
            &&& u.method@ == request.method@
            &&& u.operation_id@ == request.operation_id@
            &&& u.request_digest@ == request.request_digest@
            &&& u.caller_service_id@ == identity.service
            &&& u.caller_boot_epoch@ == identity.boot_epoch
            &&& u.application_key_id@ == identity.key_id
            &&& u.audience@ == request.caller_service_id@
            &&& u.sent_at_ms@ == sent_at_ms
            &&& u.deadline_ms@ == deadline_ms
            &&& u.body == body
            &&& u.sender_journal_head == head
            &&& wire_bytes(u.wire()) matches Ok(signed)
            &&& envelope.signature@.len() == 64
            &&& crate::crypto::ed25519_verifies(
                crate::crypto::ed25519_public(identity.seed),
                signed,
                envelope.signature@,
            )
        }),
{
}

/// Signing a request fails only where its body cannot be written, or states no method, or the
/// envelope around it cannot be written.
pub proof fn law_signing_a_request_fails_for_its_body<T: WireValue>(
    e: WireError,
    identity: IdentityView,
    audience: Seq<char>,
    operation_id: Seq<char>,
    method: Result<Token, WireError>,
    body: T,
    sent_at_ms: u64,
    deadline_ms: u64,
    head: Option<SignedJournalHead>,
)
    requires
        crate::sealing::request_outcome(
            Err(e),
            identity,
            audience,
            operation_id,
            method,
            body,
            sent_at_ms,
            deadline_ms,
            head,
        ),
    ensures
        wire_bytes(body.wire()) is Err || (method matches Err(refused) && refused@ == e@) || e@.code
            == WireErrorCode::MalformedFrame,
        wire_bytes(body.wire()) is Err ==> e@.code == WireErrorCode::MalformedFrame,
{
}

/// A head that was signed says its signer, its sequence and its hash, and its signature verifies.
pub proof fn law_signed_head_says_what_was_given(
    head: crate::audit::JournalHeadView,
    identity: IdentityView,
    sequence: u64,
    head_hash: Seq<char>,
)
    requires
        crate::sealing::own_head(head, identity, sequence, head_hash),
    ensures
        head.service_id == identity.service,
        head.key_id == identity.key_id,
        head.sequence == sequence,
        head.head_hash == head_hash,
        head.signature.len() == 64,
        crate::crypto::ed25519_verifies(
            crate::crypto::ed25519_public(identity.seed),
            crate::audit::head_message(head),
            head.signature,
        ),
{
}

/// A call ends its timeout after it was sent, or at the end of time where that lies beyond it, and
/// is made under the body's own operation, or under the fresh one where the body has none.
pub proof fn law_call_keeps_its_timeout_and_operation(
    sent_at_ms: u64,
    timeout_ms: u64,
    own: Option<OperationId>,
    fresh: OperationId,
)
    ensures
        crate::exchange::call_deadline(sent_at_ms, timeout_ms) >= sent_at_ms,
        sent_at_ms + timeout_ms <= u64::MAX ==> crate::exchange::call_deadline(
            sent_at_ms,
            timeout_ms,
        ) - sent_at_ms == timeout_ms,
        sent_at_ms + timeout_ms > u64::MAX ==> crate::exchange::call_deadline(
            sent_at_ms,
            timeout_ms,
        ) == 0xffff_ffff_ffff_ffff,
        own matches Some(id) ==> crate::exchange::call_operation(own, fresh) == id@,
        own is None ==> crate::exchange::call_operation(own, fresh) == fresh@,
{
}

/// What was prepared as a call is the signed request for the server, under the call's operation
/// and until its deadline.
pub proof fn law_prepared_call_says_what_was_asked<T: WireValue>(
    envelope: SignedEnvelope<T>,
    identity: IdentityView,
    server: AclView,
    own: Result<Option<OperationId>, WireError>,
    fresh: OperationId,
    method: Result<Token, WireError>,
    body: T,
    sent_at_ms: u64,
    timeout_ms: u64,
    head: Option<SignedJournalHead>,
)
    requires
        crate::exchange::call_outcome(
            Ok(envelope),
            identity,
            server,
            own,
            fresh,
            method,
            body,
            sent_at_ms,
            timeout_ms,
            head,
        ),
    ensures
        ({
            let u = envelope.unsigned;
            &&& own matches Ok(operation)
            &&& u.operation_id@ == (match operation {
                Some(id) => id@,
                None => fresh@,
            })
            &&& u.audience@ == server.service
            &&& u.sent_at_ms@ == sent_at_ms
            &&& u.deadline_ms@ == (if sent_at_ms + timeout_ms > u64::MAX {
                0xffff_ffff_ffff_ffffint
            } else {
                sent_at_ms + timeout_ms
            })
            &&& u.body == body
            &&& u.kind == EnvelopeKind::Request
            &&& method matches Ok(m)
            &&& u.method@ == m@
            &&& u.caller_service_id@ == identity.service
            &&& u.sender_journal_head == head
        }),
{
}

/// What was accepted is still in time exactly until its deadline comes, and what was refused
/// stays refused for the same reason.
pub proof fn law_deadline_ends_acceptance<T>(
    verdict: Result<(), WireErrorView>,
    envelope: SignedEnvelope<T>,
    observed_at_ms: u64,
)
    ensures
        crate::exchange::in_time(verdict, envelope, observed_at_ms) is Ok <==> verdict is Ok
            && observed_at_ms < envelope.unsigned.deadline_ms@,
        verdict is Err ==> crate::exchange::in_time(verdict, envelope, observed_at_ms) == verdict,
        verdict is Ok && observed_at_ms >= envelope.unsigned.deadline_ms@
            ==> crate::exchange::in_time(verdict, envelope, observed_at_ms)->Err_0.code
            == WireErrorCode::ServiceUnavailable,
{
}

/// A response is prepared only before the deadline of its request.
pub proof fn law_response_is_prepared_before_the_deadline<T: WireValue, U>(
    r: Result<SignedEnvelope<Result<T, WireError>>, WireError>,
    identity: IdentityView,
    request: SignedEnvelope<U>,
    response: Result<T, WireError>,
    sent_at_ms: u64,
    head: Option<SignedJournalHead>,
)
    requires
        crate::exchange::reply_outcome(r, identity, request, response, sent_at_ms, head),
    ensures
        sent_at_ms >= request.unsigned.deadline_ms@ ==> (r matches Err(e) && e@.code
            == WireErrorCode::ServiceUnavailable),
        r matches Ok(envelope) ==> {
            let u = envelope.unsigned;
            &&& sent_at_ms < request.unsigned.deadline_ms@
            &&& u.kind == EnvelopeKind::Response
            &&& u.audience@ == request.unsigned.caller_service_id@
            &&& u.method@ == request.unsigned.method@
            &&& u.operation_id@ == request.unsigned.operation_id@
            &&& u.request_digest@ == request.unsigned.request_digest@
            &&& u.body == response
            &&& u.sender_journal_head == head
        },
        r matches Err(e) ==> sent_at_ms >= request.unsigned.deadline_ms@ || e@.code
            == WireErrorCode::MalformedFrame,
{
}

/// A wall-clock reading gives its own milliseconds exactly if it is not before the epoch and
/// fits in 64 bits.
pub proof fn law_wall_clock_gives_its_milliseconds(millis: Option<u128>)
    ensures
        crate::sealing::time_of(millis) is Ok <==> (millis matches Some(ms) && ms
            <= 0xffff_ffff_ffff_ffff),
        crate::sealing::time_of(millis) matches Ok(ms) ==> ms == millis->Some_0,
        millis is None ==> crate::sealing::time_of(millis)->Err_0.code
            == WireErrorCode::ClockRollback,
        millis matches Some(ms) && ms > 0xffff_ffff_ffff_ffff ==> crate::sealing::time_of(
            millis,
        )->Err_0.code == WireErrorCode::ClockUntrusted,
{
}

} // verus!
