//! Signing of envelopes and journal heads with a local identity.

use vstd::prelude::*;
use vstd::string::*;

use crate::audit::{JournalHeadView, SignedJournalHead};
use crate::base64url::Base64UrlBytes;
use crate::codec::{malformed, malformed_error};
use crate::crypto::sha256;
use crate::envelope::{
    AuthenticatedPeer, EnvelopeKind, ProtocolVersion, SignedEnvelope, UnsignedEnvelope,
    RPC_ENVELOPE_SCHEMA_V1,
};
use crate::error::{WireError, WireErrorCode, WireErrorView};
use crate::identity::{AclView, IdentityView, LocalIdentity};
use crate::ids::{DecimalU64, Digest32, OperationId, Token};
use crate::typed::TypedRequestMethod;
use crate::wire::{canonical_wire, WireValue};

verus! {

/// An envelope with a signature of its canonical bytes under a seed.
pub open spec fn sealed_by<T: WireValue>(envelope: SignedEnvelope<T>, seed: Seq<u8>) -> bool {
    crate::envelope::canonical_bytes_of(envelope.unsigned) matches Ok(bytes)
        && crate::crypto::signed_by(seed, bytes, envelope.signature@)
}

/// A body that can be written, with numbers that a double holds exactly.
pub open spec fn exact_body<T: WireValue>(body: T) -> bool {
    body.wire() is Ok && crate::codec::exact_numbers(body.wire()->Ok_0)
}

/// The outcome of sealing an envelope: sealed as it is, or the error of its encoding.
pub open spec fn sealing<T: WireValue>(
    r: Result<SignedEnvelope<T>, WireError>,
    unsigned: UnsignedEnvelope<T>,
    seed: Seq<u8>,
) -> bool {
    match r {
        Ok(envelope) => envelope.unsigned == unsigned && sealed_by(envelope, seed),
        Err(e) => crate::envelope::canonical_bytes_of(unsigned) == Err::<Seq<u8>, WireErrorView>(
            e@,
        ),
    }
}

/// Signs an envelope.
pub fn seal<T: WireValue>(identity: &LocalIdentity, unsigned: UnsignedEnvelope<T>) -> (r: Result<
    SignedEnvelope<T>,
    WireError,
>)
    ensures
        sealing(r, unsigned, identity@.seed),
        exact_body(unsigned.body) ==> r is Ok,
{
    proof {
        if exact_body(unsigned.body) {
            crate::envelope::lemma_envelope_wire_is_exact(unsigned, unsigned.body.wire()->Ok_0);
        }
    }
    let bytes = match unsigned.canonical_bytes() {
        Ok(bytes) => bytes,
        Err(error) => {
            return Err(error);
        },
    };
    let signature = identity.signing_key.sign(bytes.as_slice());
    Ok(SignedEnvelope { unsigned, signature: Base64UrlBytes::from_bytes(signature.as_slice()) })
}

/// The digest of a value, or the text of the error that prevents it.
pub open spec fn digest_of<T: WireValue>(value: T) -> Result<Seq<char>, WireErrorView> {
    match crate::wire::wire_bytes(value.wire()) {
        Ok(bytes) => Ok(crate::hex_text::hex_chars(crate::crypto::sha256_of(bytes))),
        Err(text) => Err(malformed_error(text)),
    }
}

/// The digest of a value: SHA-256 of its RFC 8785 bytes.
pub fn digest<T: WireValue>(value: &T) -> (r: Result<Digest32, WireError>)
    ensures
        crate::envelope::digest_result(r) == digest_of(*value),
        exact_body(*value) ==> r is Ok,
{
    match canonical_wire(value) {
        Ok(bytes) => Ok(Digest32::from_bytes(sha256(bytes.as_slice()))),
        Err(text) => Err(malformed(text.as_str())),
    }
}

proof fn lemma_envelope_schema_is_token()
    ensures
        crate::ids::is_token_text(RPC_ENVELOPE_SCHEMA_V1@),
{
    reveal_strlit("bloom.rpc-envelope.1");
}

/// The schema of every envelope.
fn envelope_schema() -> (r: Token)
    ensures
        r@ == RPC_ENVELOPE_SCHEMA_V1@,
{
    proof {
        lemma_envelope_schema_is_token();
    }
    match Token::new(RPC_ENVELOPE_SCHEMA_V1) {
        Ok(schema) => schema,
        Err(_) => vstd::pervasive::unreached(),
    }
}

/// What every envelope of an identity says of its sender and its time.
pub open spec fn sent_by<T>(
    envelope: UnsignedEnvelope<T>,
    identity: IdentityView,
    sent_at_ms: u64,
    deadline_ms: u64,
) -> bool {
    &&& envelope.protocol.major == crate::envelope::PROTOCOL_MAJOR
    &&& envelope.protocol.minor == crate::envelope::PROTOCOL_MINOR_MAX
    &&& envelope.schema@ == RPC_ENVELOPE_SCHEMA_V1@
    &&& envelope.caller_service_id@ == identity.service
    &&& envelope.caller_boot_epoch@ == identity.boot_epoch
    &&& envelope.application_key_id@ == identity.key_id
    &&& envelope.sent_at_ms@ == sent_at_ms
    &&& envelope.deadline_ms@ == deadline_ms
}

/// An envelope that asks an audience for an operation.
pub open spec fn asks<T: WireValue>(
    envelope: UnsignedEnvelope<T>,
    audience: Seq<char>,
    operation_id: Seq<char>,
    method: Seq<char>,
    body: T,
) -> bool {
    &&& envelope.kind == EnvelopeKind::Request
    &&& envelope.audience@ == audience
    &&& envelope.operation_id@ == operation_id
    &&& envelope.method@ == method
    &&& envelope.body == body
    &&& digest_of(body) == Ok::<Seq<char>, WireErrorView>(envelope.request_digest@)
}

/// An envelope that answers a request.
pub open spec fn replies<T, U>(
    envelope: UnsignedEnvelope<T>,
    request: UnsignedEnvelope<U>,
    body: T,
) -> bool {
    &&& envelope.kind == EnvelopeKind::Response
    &&& envelope.audience@ == request.caller_service_id@
    &&& envelope.method@ == request.method@
    &&& envelope.operation_id@ == request.operation_id@
    &&& envelope.request_digest@ == request.request_digest@
    &&& envelope.body == body
}

/// The outcome of signing a request whose body stated its method.
pub open spec fn request_outcome<T: WireValue>(
    r: Result<SignedEnvelope<T>, WireError>,
    identity: IdentityView,
    audience: Seq<char>,
    operation_id: Seq<char>,
    method: Result<Token, WireError>,
    body: T,
    sent_at_ms: u64,
    deadline_ms: u64,
    head: Option<SignedJournalHead>,
) -> bool {
    match digest_of(body) {
        Err(e) => r matches Err(error) && error@ == e,
        Ok(_) => match method {
            Err(e) => r matches Err(error) && error@ == e@,
            Ok(method) => exists|unsigned: UnsignedEnvelope<T>|
                {
                    &&& #[trigger] sent_by(unsigned, identity, sent_at_ms, deadline_ms)
                    &&& asks(unsigned, audience, operation_id, method@, body)
                    &&& unsigned.sender_journal_head == head
                    &&& sealing(r, unsigned, identity.seed)
                },
        },
    }
}

/// Signs a request whose body stated its method.
pub fn sign_request_as<T: WireValue>(
    identity: &LocalIdentity,
    audience: Token,
    operation_id: OperationId,
    method: Result<Token, WireError>,
    body: T,
    sent_at_ms: u64,
    deadline_ms: u64,
    sender_journal_head: Option<SignedJournalHead>,
) -> (r: Result<SignedEnvelope<T>, WireError>)
    ensures
        request_outcome(
            r,
            identity@,
            audience@,
            operation_id@,
            method,
            body,
            sent_at_ms,
            deadline_ms,
            sender_journal_head,
        ),
        method is Ok && exact_body(body) ==> r is Ok,
{
    let request_digest = match digest(&body) {
        Ok(request_digest) => request_digest,
        Err(error) => {
            return Err(error);
        },
    };
    let method = match method {
        Ok(method) => method,
        Err(error) => {
            return Err(error);
        },
    };
    let unsigned = UnsignedEnvelope {
        protocol: ProtocolVersion::current(),
        schema: envelope_schema(),
        kind: EnvelopeKind::Request,
        method,
        operation_id,
        request_digest,
        caller_service_id: identity.service_id.clone(),
        caller_boot_epoch: identity.boot_epoch.clone(),
        audience,
        sent_at_ms: DecimalU64::new(sent_at_ms),
        deadline_ms: DecimalU64::new(deadline_ms),
        body,
        application_key_id: identity.application_key_id.clone(),
        sender_journal_head,
    };
    assert(sent_by(unsigned, identity@, sent_at_ms, deadline_ms));
    seal(identity, unsigned)
}

pub fn sign_request_with_optional_journal_head<T: TypedRequestMethod>(
    identity: &LocalIdentity,
    audience: Token,
    operation_id: OperationId,
    body: T,
    sent_at_ms: u64,
    deadline_ms: u64,
    sender_journal_head: Option<SignedJournalHead>,
) -> (r: Result<SignedEnvelope<T>, WireError>)
    ensures
        exists|method: Result<Token, WireError>|
            #![trigger call_ensures(T::method, (&body,), method)]
            call_ensures(T::method, (&body,), method) && request_outcome(
                r,
                identity@,
                audience@,
                operation_id@,
                method,
                body,
                sent_at_ms,
                deadline_ms,
                sender_journal_head,
            ) && (method is Ok && exact_body(body) ==> r is Ok),
{
    let method = body.method();
    assert(call_ensures(T::method, (&body,), method));
    sign_request_as(
        identity,
        audience,
        operation_id,
        method,
        body,
        sent_at_ms,
        deadline_ms,
        sender_journal_head,
    )
}

pub fn sign_request<T: TypedRequestMethod>(
    identity: &LocalIdentity,
    audience: Token,
    operation_id: OperationId,
    body: T,
    sent_at_ms: u64,
    deadline_ms: u64,
) -> (r: Result<SignedEnvelope<T>, WireError>)
    ensures
        exists|method: Result<Token, WireError>|
            #![trigger call_ensures(T::method, (&body,), method)]
            call_ensures(T::method, (&body,), method) && request_outcome(
                r,
                identity@,
                audience@,
                operation_id@,
                method,
                body,
                sent_at_ms,
                deadline_ms,
                None,
            ) && (method is Ok && exact_body(body) ==> r is Ok),
{
    sign_request_with_optional_journal_head(
        identity,
        audience,
        operation_id,
        body,
        sent_at_ms,
        deadline_ms,
        None,
    )
}

pub fn sign_request_with_journal_head<T: TypedRequestMethod>(
    identity: &LocalIdentity,
    audience: Token,
    operation_id: OperationId,
    body: T,
    sent_at_ms: u64,
    deadline_ms: u64,
    sender_journal_head: SignedJournalHead,
) -> (r: Result<SignedEnvelope<T>, WireError>)
    ensures
        exists|method: Result<Token, WireError>|
            #![trigger call_ensures(T::method, (&body,), method)]
            call_ensures(T::method, (&body,), method) && request_outcome(
                r,
                identity@,
                audience@,
                operation_id@,
                method,
                body,
                sent_at_ms,
                deadline_ms,
                Some(sender_journal_head),
            ) && (method is Ok && exact_body(body) ==> r is Ok),
{
    sign_request_with_optional_journal_head(
        identity,
        audience,
        operation_id,
        body,
        sent_at_ms,
        deadline_ms,
        Some(sender_journal_head),
    )
}

/// The outcome of signing a response.
pub open spec fn response_outcome<T: WireValue, U>(
    r: Result<SignedEnvelope<T>, WireError>,
    identity: IdentityView,
    request: UnsignedEnvelope<U>,
    body: T,
    sent_at_ms: u64,
    deadline_ms: u64,
    head: Option<SignedJournalHead>,
) -> bool {
    exists|unsigned: UnsignedEnvelope<T>|
        {
            &&& #[trigger] sent_by(unsigned, identity, sent_at_ms, deadline_ms)
            &&& replies(unsigned, request, body)
            &&& unsigned.sender_journal_head == head
            &&& sealing(r, unsigned, identity.seed)
        }
}

pub fn sign_response_with_optional_journal_head<T: WireValue, U: WireValue>(
    identity: &LocalIdentity,
    request: &SignedEnvelope<U>,
    body: T,
    sent_at_ms: u64,
    deadline_ms: u64,
    sender_journal_head: Option<SignedJournalHead>,
) -> (r: Result<SignedEnvelope<T>, WireError>)
    ensures
        response_outcome(
            r,
            identity@,
            request.unsigned,
            body,
            sent_at_ms,
            deadline_ms,
            sender_journal_head,
        ),
        exact_body(body) ==> r is Ok,
{
    let unsigned = UnsignedEnvelope {
        protocol: ProtocolVersion::current(),
        schema: envelope_schema(),
        kind: EnvelopeKind::Response,
        method: request.unsigned.method.clone(),
        operation_id: request.unsigned.operation_id.clone(),
        request_digest: request.unsigned.request_digest.clone(),
        caller_service_id: identity.service_id.clone(),
        caller_boot_epoch: identity.boot_epoch.clone(),
        audience: request.unsigned.caller_service_id.clone(),
        sent_at_ms: DecimalU64::new(sent_at_ms),
        deadline_ms: DecimalU64::new(deadline_ms),
        body,
        application_key_id: identity.application_key_id.clone(),
        sender_journal_head,
    };
    assert(sent_by(unsigned, identity@, sent_at_ms, deadline_ms));
    seal(identity, unsigned)
}

pub fn sign_response<T: WireValue, U: WireValue>(
    identity: &LocalIdentity,
    request: &SignedEnvelope<U>,
    body: T,
    sent_at_ms: u64,
    deadline_ms: u64,
) -> (r: Result<SignedEnvelope<T>, WireError>)
    ensures
        response_outcome(
            r,
            identity@,
            request.unsigned,
            body,
            sent_at_ms,
            deadline_ms,
            None,
        ),
        exact_body(body) ==> r is Ok,
{
    sign_response_with_optional_journal_head(
        identity,
        request,
        body,
        sent_at_ms,
        deadline_ms,
        None,
    )
}

pub fn sign_response_with_journal_head<T: WireValue, U: WireValue>(
    identity: &LocalIdentity,
    request: &SignedEnvelope<U>,
    body: T,
    sent_at_ms: u64,
    deadline_ms: u64,
    sender_journal_head: SignedJournalHead,
) -> (r: Result<SignedEnvelope<T>, WireError>)
    ensures
        response_outcome(
            r,
            identity@,
            request.unsigned,
            body,
            sent_at_ms,
            deadline_ms,
            Some(sender_journal_head),
        ),
        exact_body(body) ==> r is Ok,
{
    sign_response_with_optional_journal_head(
        identity,
        request,
        body,
        sent_at_ms,
        deadline_ms,
        Some(sender_journal_head),
    )
}

/// A head that an identity signed.
pub open spec fn own_head(
    head: JournalHeadView,
    identity: IdentityView,
    sequence: u64,
    head_hash: Seq<char>,
) -> bool {
    &&& head.service_id == identity.service
    &&& head.sequence == sequence
    &&& head.head_hash == head_hash
    &&& head.key_id == identity.key_id
    &&& crate::crypto::signed_by(
        identity.seed,
        crate::audit::head_message(head),
        head.signature,
    )
}

/// Signs a service journal head with the same application identity pinned for the authenticated
/// local transport edge.
pub fn sign_journal_head(identity: &LocalIdentity, sequence: u64, head_hash: Digest32) -> (r:
    SignedJournalHead)
    ensures
        own_head(r@, identity@, sequence, head_hash@),
{
    let unsigned = SignedJournalHead {
        service_id: identity.service_id.clone(),
        sequence: DecimalU64::new(sequence),
        head_hash,
        key_id: identity.application_key_id.clone(),
        signature: Base64UrlBytes::from_bytes(&[]),
    };
    let message = unsigned.signature_message();
    let signature = Base64UrlBytes::from_bytes(
        identity.signing_key.sign(message.as_slice()).as_slice(),
    );
    let head = SignedJournalHead {
        service_id: unsigned.service_id,
        sequence: unsigned.sequence,
        head_hash: unsigned.head_hash,
        key_id: unsigned.key_id,
        signature,
    };
    assert(crate::audit::head_message(head@) == message@);
    head
}

/// A head that an identity signed verifies under the identity's own key, name and key ID.
pub proof fn law_own_head_verifies(
    head: JournalHeadView,
    identity: IdentityView,
    sequence: u64,
    head_hash: Seq<char>,
)
    requires
        own_head(head, identity, sequence, head_hash),
    ensures
        crate::audit::head_sender(
            head,
            identity.service,
            identity.key_id,
            crate::crypto::ed25519_public(identity.seed),
        ) == Ok::<(), WireErrorView>(()),
{
}

/// The ACL pins an identity.
pub open spec fn pins(acl: AclView, identity: IdentityView) -> bool {
    &&& acl.service == identity.service
    &&& acl.boot_epoch == identity.boot_epoch
    &&& acl.key_id == identity.key_id
    &&& acl.public_key == crate::crypto::ed25519_public(identity.seed)
}

/// A request that an identity signed verifies at the audience that pins the identity, if its
/// deadline is after its start and it carries a head exactly where its edge demands one.
pub proof fn law_own_request_verifies<T: WireValue>(
    envelope: SignedEnvelope<T>,
    identity: IdentityView,
    acl: AclView,
    expected: AuthenticatedPeer,
    sent_at_ms: u64,
    deadline_ms: u64,
    audience: Seq<char>,
    operation_id: Seq<char>,
    method: Seq<char>,
)
    requires
        sealed_by(envelope, identity.seed),
        sent_by(envelope.unsigned, identity, sent_at_ms, deadline_ms),
        asks(envelope.unsigned, audience, operation_id, method, envelope.unsigned.body),
        pins(acl, identity),
        crate::identity::expects_peer(expected, acl, audience),
        sent_at_ms < deadline_ms,
        crate::envelope::authority_edge(identity.service, audience)
            == envelope.unsigned.sender_journal_head is Some,
        envelope.unsigned.sender_journal_head matches Some(head) ==> own_head(
            head@,
            identity,
            head@.sequence,
            head@.head_hash,
        ),
    ensures
        crate::envelope::authentic(envelope, acl.uid, expected) == Ok::<(), WireErrorView>(()),
{
}

/// A response that an identity signed verifies at the requester that pins the identity, and
/// answers the request, under the same conditions.
pub proof fn law_own_response_verifies<T: WireValue, U: WireValue>(
    response: SignedEnvelope<T>,
    request: SignedEnvelope<U>,
    identity: IdentityView,
    acl: AclView,
    expected: AuthenticatedPeer,
    sent_at_ms: u64,
    deadline_ms: u64,
)
    requires
        sealed_by(response, identity.seed),
        sent_by(response.unsigned, identity, sent_at_ms, deadline_ms),
        replies(response.unsigned, request.unsigned, response.unsigned.body),
        request.unsigned.kind == EnvelopeKind::Request,
        pins(acl, identity),
        crate::identity::expects_peer(expected, acl, request.unsigned.caller_service_id@),
        sent_at_ms < deadline_ms,
        crate::envelope::authority_edge(identity.service, request.unsigned.caller_service_id@)
            == response.unsigned.sender_journal_head is Some,
        response.unsigned.sender_journal_head matches Some(head) ==> own_head(
            head@,
            identity,
            head@.sequence,
            head@.head_hash,
        ),
    ensures
        crate::envelope::authentic(response, acl.uid, expected) == Ok::<(), WireErrorView>(()),
        crate::envelope::answers(response.unsigned, request.unsigned),
{
}

pub open spec fn unavailable_error(message: Seq<char>) -> WireErrorView {
    WireErrorView { code: WireErrorCode::ServiceUnavailable, message }
}

/// The error for a service that cannot answer.
pub fn unavailable(message: &str) -> (r: WireError)
    ensures
        r@ == unavailable_error(message@),
{
    WireError::new(WireErrorCode::ServiceUnavailable, message)
}

/// Accepts an envelope whose deadline is still ahead.
pub fn require_live_deadline<T>(envelope: &SignedEnvelope<T>, observed_at_ms: u64) -> (r: Result<
    (),
    WireError,
>)
    ensures
        crate::error::outcome(r) == (if envelope.unsigned.deadline_ms@ <= observed_at_ms {
            Err::<(), WireErrorView>(
                unavailable_error("authenticated local request deadline expired"@),
            )
        } else {
            Ok(())
        }),
{
    if envelope.unsigned.deadline_ms.get() <= observed_at_ms {
        return Err(unavailable("authenticated local request deadline expired"));
    }
    Ok(())
}

/// Accepts a response only before the deadline of its request, which the response never extends.
pub fn require_answerable<T>(request: &SignedEnvelope<T>, sent_at_ms: u64) -> (r: Result<
    u64,
    WireError,
>)
    ensures
        match r {
            Ok(deadline_ms) => deadline_ms == request.unsigned.deadline_ms@ && sent_at_ms
                < deadline_ms,
            Err(e) => sent_at_ms >= request.unsigned.deadline_ms@ && e@ == unavailable_error(
                "request deadline expired before response"@,
            ),
        },
{
    let deadline_ms: u64 = request.unsigned.deadline_ms.get();
    if sent_at_ms >= deadline_ms {
        return Err(unavailable("request deadline expired before response"));
    }
    Ok(deadline_ms)
}

/// The time that a wall-clock reading gives, or why it gives none.
pub open spec fn time_of(millis: Option<u128>) -> Result<u64, WireErrorView> {
    match millis {
        None => Err(
            WireErrorView {
                code: WireErrorCode::ClockRollback,
                message: "system time predates Unix epoch"@,
            },
        ),
        Some(ms) => if ms > u64::MAX {
            Err(
                WireErrorView {
                    code: WireErrorCode::ClockUntrusted,
                    message: "system time is out of range"@,
                },
            )
        } else {
            Ok(ms as u64)
        },
    }
}

/// The time that a wall-clock reading gives.
pub fn time_from(millis: Option<u128>) -> (r: Result<u64, WireError>)
    ensures
        match r {
            Ok(ms) => time_of(millis) == Ok::<u64, WireErrorView>(ms),
            Err(e) => time_of(millis) == Err::<u64, WireErrorView>(e@),
        },
{
    match millis {
        None => Err(
            WireError::new(WireErrorCode::ClockRollback, "system time predates Unix epoch"),
        ),
        Some(ms) => if ms > u64::MAX as u128 {
            Err(WireError::new(WireErrorCode::ClockUntrusted, "system time is out of range"))
        } else {
            Ok(ms as u64)
        },
    }
}

/// The time on the wall clock, in milliseconds since the Unix epoch.
pub fn now_ms() -> (r: Result<u64, WireError>)
    ensures
        exists|millis: Option<u128>|
            match r {
                Ok(ms) => #[trigger] time_of(millis) == Ok::<u64, WireErrorView>(ms),
                Err(e) => time_of(millis) == Err::<u64, WireErrorView>(e@),
            },
{
    let millis: Option<u128> = crate::trusted_time::wall_clock_millis();
    time_from(millis)
}

} // verus!
