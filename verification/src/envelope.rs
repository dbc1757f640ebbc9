//! Signed RPC envelopes.

use vstd::prelude::*;
use vstd::string::*;

use crate::audit::{unauthenticated, unauthenticated_error, SignedJournalHead};
use crate::base64url::Base64UrlBytes;
use crate::bytes::array64;
use crate::codec::{malformed, malformed_error};
use crate::crypto::{accepts_key, sha256, verifies};
use crate::decimal::push_decimal;
use crate::error::{WireError, WireErrorCode, WireErrorView};
use crate::ids::{BootEpoch, DecimalU64, Digest32, OperationId, Token};
use crate::json::{Json, JsonView};
use crate::text::same_text;
use crate::wire::{canonical_wire, json_field, new_object, text_field, WireForm, WireValue};

verus! {

pub const PROTOCOL_MAJOR: u16 = 1;

pub const PROTOCOL_MINOR_MIN: u16 = 0;

pub const PROTOCOL_MINOR_MAX: u16 = 1;

pub const RPC_ENVELOPE_SCHEMA_V1: &'static str = "bloom.rpc-envelope.1";

#[derive(Clone, Copy, Debug, PartialEq, Eq, Structural)]
pub struct ProtocolVersion {
    pub major: u16,
    pub minor: u16,
}

pub open spec fn version_error(version: ProtocolVersion) -> WireErrorView {
    WireErrorView {
        code: WireErrorCode::UnsupportedVersion,
        message: "unsupported protocol "@ + crate::decimal::decimal_chars(version.major as nat)
            + "."@ + crate::decimal::decimal_chars(version.minor as nat) + "; supported "@
            + crate::decimal::decimal_chars(PROTOCOL_MAJOR as nat) + "."@
            + crate::decimal::decimal_chars(PROTOCOL_MINOR_MIN as nat) + "-"@
            + crate::decimal::decimal_chars(PROTOCOL_MINOR_MAX as nat),
    }
}

/// Whether a version is one that this protocol speaks.
pub open spec fn version_check(version: ProtocolVersion) -> Result<(), WireErrorView> {
    if version.major != PROTOCOL_MAJOR || !(PROTOCOL_MINOR_MIN <= version.minor
        <= PROTOCOL_MINOR_MAX) {
        Err(version_error(version))
    } else {
        Ok(())
    }
}

impl ProtocolVersion {
    /// The version that this side speaks.
    pub fn current() -> (r: Self)
        ensures
            r.major == PROTOCOL_MAJOR,
            r.minor == PROTOCOL_MINOR_MAX,
    {
        ProtocolVersion { major: PROTOCOL_MAJOR, minor: PROTOCOL_MINOR_MAX }
    }

    pub fn validate(self) -> (r: Result<(), WireError>)
        ensures
            crate::error::outcome(r) == version_check(self),
    {
        if self.major != PROTOCOL_MAJOR || self.minor < PROTOCOL_MINOR_MIN || self.minor
            > PROTOCOL_MINOR_MAX {
            let mut message = "unsupported protocol ".to_owned();
            push_decimal(&mut message, self.major as u64);
            message.append(".");
            push_decimal(&mut message, self.minor as u64);
            message.append("; supported ");
            push_decimal(&mut message, PROTOCOL_MAJOR as u64);
            message.append(".");
            push_decimal(&mut message, PROTOCOL_MINOR_MIN as u64);
            message.append("-");
            push_decimal(&mut message, PROTOCOL_MINOR_MAX as u64);
            return Err(WireError::new(WireErrorCode::UnsupportedVersion, message.as_str()));
        }
        Ok(())
    }
}

/// The JSON form of a version.
pub open spec fn version_wire(version: ProtocolVersion) -> JsonView {
    crate::wire::with_field(
        crate::wire::with_field(
            crate::wire::no_fields(),
            "major"@,
            JsonView::Unsigned(version.major as u64),
        ),
        "minor"@,
        JsonView::Unsigned(version.minor as u64),
    )
}

impl WireValue for ProtocolVersion {
    open spec fn wire(&self) -> WireForm {
        Ok(version_wire(*self))
    }

    fn to_json(&self) -> (r: Result<Json, String>) {
        let mut entries = new_object();
        json_field(&mut entries, "major", Json::Unsigned(self.major as u64));
        json_field(&mut entries, "minor", Json::Unsigned(self.minor as u64));
        Ok(Json::Object(entries))
    }
}

#[derive(Clone, Copy, Debug, PartialEq, Eq, Structural)]
pub enum EnvelopeKind {
    Request,
    Response,
}

/// The name of an envelope kind on the wire.
pub open spec fn kind_name(kind: EnvelopeKind) -> Seq<char> {
    match kind {
        EnvelopeKind::Request => "request"@,
        EnvelopeKind::Response => "response"@,
    }
}

fn kind_text(kind: EnvelopeKind) -> (r: &'static str)
    ensures
        r@ == kind_name(kind),
{
    match kind {
        EnvelopeKind::Request => "request",
        EnvelopeKind::Response => "response",
    }
}

#[derive(Clone, Debug, PartialEq, Eq)]
pub struct UnsignedEnvelope<T> {
    pub protocol: ProtocolVersion,
    pub schema: Token,
    pub kind: EnvelopeKind,
    pub method: Token,
    pub operation_id: OperationId,
    pub request_digest: Digest32,
    pub caller_service_id: Token,
    pub caller_boot_epoch: BootEpoch,
    pub audience: Token,
    pub sent_at_ms: DecimalU64,
    pub deadline_ms: DecimalU64,
    pub body: T,
    pub application_key_id: Token,
    /// Independently signed sender audit head. Protocol minor 1 requires this on both authority
    /// edges (Machine-Broker and Broker-Signer) and forbids it on every other edge.
    pub sender_journal_head: Option<SignedJournalHead>,
}

/// The JSON form of an envelope around the JSON form of its body.
pub open spec fn envelope_wire<T>(envelope: UnsignedEnvelope<T>, body: JsonView) -> JsonView {
    let o = crate::wire::no_fields();
    let o = crate::wire::with_field(o, "protocol"@, version_wire(envelope.protocol));
    let o = crate::wire::with_field(o, "schema"@, JsonView::Text(envelope.schema@));
    let o = crate::wire::with_field(o, "kind"@, JsonView::Text(kind_name(envelope.kind)));
    let o = crate::wire::with_field(o, "method"@, JsonView::Text(envelope.method@));
    let o = crate::wire::with_field(o, "operation_id"@, JsonView::Text(envelope.operation_id@));
    let o = crate::wire::with_field(o, "request_digest"@, JsonView::Text(envelope.request_digest@));
    let o = crate::wire::with_field(
        o,
        "caller_service_id"@,
        JsonView::Text(envelope.caller_service_id@),
    );
    let o = crate::wire::with_field(
        o,
        "caller_boot_epoch"@,
        JsonView::Text(envelope.caller_boot_epoch@),
    );
    let o = crate::wire::with_field(o, "audience"@, JsonView::Text(envelope.audience@));
    let o = crate::wire::with_field(
        o,
        "sent_at_ms"@,
        JsonView::Text(crate::decimal::decimal_chars(envelope.sent_at_ms@ as nat)),
    );
    let o = crate::wire::with_field(
        o,
        "deadline_ms"@,
        JsonView::Text(crate::decimal::decimal_chars(envelope.deadline_ms@ as nat)),
    );
    let o = crate::wire::with_field(o, "body"@, body);
    let o = crate::wire::with_field(
        o,
        "application_key_id"@,
        JsonView::Text(envelope.application_key_id@),
    );
    match envelope.sender_journal_head {
        Some(head) => crate::wire::with_field(
            o,
            "sender_journal_head"@,
            crate::audit::head_wire(head@),
        ),
        None => o,
    }
}

/// The JSON form of a version holds small numbers alone.
pub proof fn lemma_version_wire_is_exact(version: ProtocolVersion)
    ensures
        crate::codec::exact_numbers(version_wire(version)),
{
    let o = crate::wire::no_fields();
    let major = JsonView::Unsigned(version.major as u64);
    crate::wire::lemma_field_keeps_numbers(o, "major"@, major);
    let o = crate::wire::with_field(o, "major"@, major);
    crate::wire::lemma_field_keeps_numbers(o, "minor"@, JsonView::Unsigned(version.minor as u64));
}

/// An envelope adds no number that a double does not hold exactly to those of its body.
pub proof fn lemma_envelope_wire_is_exact<T>(envelope: UnsignedEnvelope<T>, body: JsonView)
    requires
        crate::codec::exact_numbers(body),
    ensures
        crate::codec::exact_numbers(envelope_wire(envelope, body)),
{
    lemma_version_wire_is_exact(envelope.protocol);
    let o = crate::wire::no_fields();
    let v = version_wire(envelope.protocol);
    crate::wire::lemma_field_keeps_numbers(o, "protocol"@, v);
    let o = crate::wire::with_field(o, "protocol"@, v);
    let v = JsonView::Text(envelope.schema@);
    crate::wire::lemma_field_keeps_numbers(o, "schema"@, v);
    let o = crate::wire::with_field(o, "schema"@, v);
    let v = JsonView::Text(kind_name(envelope.kind));
    crate::wire::lemma_field_keeps_numbers(o, "kind"@, v);
    let o = crate::wire::with_field(o, "kind"@, v);
    let v = JsonView::Text(envelope.method@);
    crate::wire::lemma_field_keeps_numbers(o, "method"@, v);
    let o = crate::wire::with_field(o, "method"@, v);
    let v = JsonView::Text(envelope.operation_id@);
    crate::wire::lemma_field_keeps_numbers(o, "operation_id"@, v);
    let o = crate::wire::with_field(o, "operation_id"@, v);
    let v = JsonView::Text(envelope.request_digest@);
    crate::wire::lemma_field_keeps_numbers(o, "request_digest"@, v);
    let o = crate::wire::with_field(o, "request_digest"@, v);
    let v = JsonView::Text(envelope.caller_service_id@);
    crate::wire::lemma_field_keeps_numbers(o, "caller_service_id"@, v);
    let o = crate::wire::with_field(o, "caller_service_id"@, v);
    let v = JsonView::Text(envelope.caller_boot_epoch@);
    crate::wire::lemma_field_keeps_numbers(o, "caller_boot_epoch"@, v);
    let o = crate::wire::with_field(o, "caller_boot_epoch"@, v);
    let v = JsonView::Text(envelope.audience@);
    crate::wire::lemma_field_keeps_numbers(o, "audience"@, v);
    let o = crate::wire::with_field(o, "audience"@, v);
    let v = JsonView::Text(crate::decimal::decimal_chars(envelope.sent_at_ms@ as nat));
    crate::wire::lemma_field_keeps_numbers(o, "sent_at_ms"@, v);
    let o = crate::wire::with_field(o, "sent_at_ms"@, v);
    let v = JsonView::Text(crate::decimal::decimal_chars(envelope.deadline_ms@ as nat));
    crate::wire::lemma_field_keeps_numbers(o, "deadline_ms"@, v);
    let o = crate::wire::with_field(o, "deadline_ms"@, v);
    let v = body;
    crate::wire::lemma_field_keeps_numbers(o, "body"@, v);
    let o = crate::wire::with_field(o, "body"@, v);
    let v = JsonView::Text(envelope.application_key_id@);
    crate::wire::lemma_field_keeps_numbers(o, "application_key_id"@, v);
    let o = crate::wire::with_field(o, "application_key_id"@, v);
    if let Some(head) = envelope.sender_journal_head {
        crate::audit::lemma_head_wire_is_exact(head@);
        crate::wire::lemma_field_keeps_numbers(
            o,
            "sender_journal_head"@,
            crate::audit::head_wire(head@),
        );
    }
}

/// The entries of an envelope around the JSON form of its body.
fn envelope_entries<T>(envelope: &UnsignedEnvelope<T>, body: Json) -> (r: Vec<(String, Json)>)
    ensures
        Json::Object(r)@ == envelope_wire(*envelope, body@),
{
    let mut entries = new_object();
    let mut version = new_object();
    json_field(&mut version, "major", Json::Unsigned(envelope.protocol.major as u64));
    json_field(&mut version, "minor", Json::Unsigned(envelope.protocol.minor as u64));
    json_field(&mut entries, "protocol", Json::Object(version));
    text_field(&mut entries, "schema", envelope.schema.as_str());
    text_field(&mut entries, "kind", kind_text(envelope.kind));
    text_field(&mut entries, "method", envelope.method.as_str());
    text_field(&mut entries, "operation_id", envelope.operation_id.as_str());
    text_field(&mut entries, "request_digest", envelope.request_digest.as_str());
    text_field(&mut entries, "caller_service_id", envelope.caller_service_id.as_str());
    text_field(&mut entries, "caller_boot_epoch", envelope.caller_boot_epoch.as_str());
    text_field(&mut entries, "audience", envelope.audience.as_str());
    text_field(&mut entries, "sent_at_ms", envelope.sent_at_ms.as_str());
    text_field(&mut entries, "deadline_ms", envelope.deadline_ms.as_str());
    json_field(&mut entries, "body", body);
    text_field(&mut entries, "application_key_id", envelope.application_key_id.as_str());
    if let Some(head) = &envelope.sender_journal_head {
        if let Ok(json) = head.to_json() {
            json_field(&mut entries, "sender_journal_head", json);
        }
    }
    entries
}

impl<T: WireValue> WireValue for UnsignedEnvelope<T> {
    open spec fn wire(&self) -> WireForm {
        match self.body.wire() {
            Ok(body) => Ok(envelope_wire(*self, body)),
            Err(text) => Err(text),
        }
    }

    fn to_json(&self) -> (r: Result<Json, String>) {
        match self.body.to_json() {
            Ok(body) => Ok(Json::Object(envelope_entries(self, body))),
            Err(text) => Err(text),
        }
    }
}

/// A text with a label before it.
pub open spec fn labelled(label: Seq<char>, text: Seq<char>) -> Seq<char> {
    label + text
}

/// The error that a failed encoding gives, with a label before the encoder's text.
fn encoding_error(label: &str, text: &str) -> (r: WireError)
    ensures
        r@ == malformed_error(labelled(label@, text@)),
{
    let mut message = label.to_owned();
    message.append(text);
    malformed(message.as_str())
}

pub open spec fn canonical_bytes_of<T: WireValue>(envelope: UnsignedEnvelope<T>) -> Result<
    Seq<u8>,
    WireErrorView,
> {
    match crate::wire::wire_bytes(envelope.wire()) {
        Ok(bytes) => Ok(bytes),
        Err(text) => Err(malformed_error(labelled("envelope JCS encoding failed: "@, text))),
    }
}

/// The digest of a body: SHA-256 of its RFC 8785 bytes, in hexadecimal.
pub open spec fn body_digest<T: WireValue>(body: T) -> Result<Seq<char>, WireErrorView> {
    match crate::wire::wire_bytes(body.wire()) {
        Ok(bytes) => Ok(crate::hex_text::hex_chars(crate::crypto::sha256_of(bytes))),
        Err(text) => Err(malformed_error(labelled("request body JCS encoding failed: "@, text))),
    }
}

pub open spec fn digest_result(r: Result<Digest32, WireError>) -> Result<
    Seq<char>,
    WireErrorView,
> {
    match r {
        Ok(digest) => Ok(digest@),
        Err(e) => Err(e@),
    }
}

impl<T: WireValue> UnsignedEnvelope<T> {
    pub fn canonical_bytes(&self) -> (r: Result<Vec<u8>, WireError>)
        ensures
            crate::codec::frame_result(r) == canonical_bytes_of(*self),
            self.wire() is Ok && crate::codec::exact_numbers(self.wire()->Ok_0) ==> r is Ok,
    {
        match canonical_wire(self) {
            Ok(bytes) => Ok(bytes),
            Err(text) => Err(encoding_error("envelope JCS encoding failed: ", text.as_str())),
        }
    }

    pub fn expected_request_digest(&self) -> (r: Result<Digest32, WireError>)
        ensures
            digest_result(r) == body_digest(self.body),
            self.body.wire() is Ok && crate::codec::exact_numbers(self.body.wire()->Ok_0)
                ==> r is Ok,
    {
        match canonical_wire(&self.body) {
            Ok(bytes) => Ok(Digest32::from_bytes(sha256(bytes.as_slice()))),
            Err(text) => Err(encoding_error("request body JCS encoding failed: ", text.as_str())),
        }
    }
}

#[derive(Clone, Debug, PartialEq, Eq)]
pub struct SignedEnvelope<T> {
    pub unsigned: UnsignedEnvelope<T>,
    pub signature: Base64UrlBytes,
}

impl<T: WireValue> WireValue for SignedEnvelope<T> {
    open spec fn wire(&self) -> WireForm {
        match self.unsigned.wire() {
            Ok(object) => Ok(
                crate::wire::with_field(
                    object,
                    "signature"@,
                    JsonView::Text(crate::base64url::base64url_text(self.signature@)),
                ),
            ),
            Err(text) => Err(text),
        }
    }

    fn to_json(&self) -> (r: Result<Json, String>) {
        match self.unsigned.body.to_json() {
            Ok(body) => {
                let mut entries = envelope_entries(&self.unsigned, body);
                text_field(&mut entries, "signature", self.signature.encoded());
                Ok(Json::Object(entries))
            },
            Err(text) => Err(text),
        }
    }
}

#[derive(Debug)]
pub struct AuthenticatedPeer {
    pub effective_uid: u32,
    pub service_id: Token,
    pub boot_epoch: BootEpoch,
    pub audience: Token,
    pub application_key_id: Token,
    pub application_public_key: [u8; 32],
}

impl Clone for AuthenticatedPeer {
    fn clone(&self) -> (r: Self)
        ensures
            r.effective_uid == self.effective_uid,
            r.service_id@ == self.service_id@,
            r.boot_epoch@ == self.boot_epoch@,
            r.audience@ == self.audience@,
            r.application_key_id@ == self.application_key_id@,
            r.application_public_key@ == self.application_public_key@,
    {
        AuthenticatedPeer {
            effective_uid: self.effective_uid,
            service_id: self.service_id.clone(),
            boot_epoch: self.boot_epoch.clone(),
            audience: self.audience.clone(),
            application_key_id: self.application_key_id.clone(),
            application_public_key: self.application_public_key,
        }
    }
}

/// The edges on which authority is exercised: Machine-Broker and Broker-Signer, both ways.
pub open spec fn authority_edge(caller: Seq<char>, audience: Seq<char>) -> bool {
    ||| caller == "bloom-machine"@ && audience == "bloom-broker"@
    ||| caller == "bloom-broker"@ && audience == "bloom-machine"@
    ||| caller == "bloom-broker"@ && audience == "bloom-signer"@
    ||| caller == "bloom-signer"@ && audience == "bloom-broker"@
}

/// Whether an edge is an authority edge.
pub fn is_authority_edge(caller: &str, audience: &str) -> (r: bool)
    ensures
        r == authority_edge(caller@, audience@),
{
    same_text(caller, "bloom-machine") && same_text(audience, "bloom-broker") || same_text(
        caller,
        "bloom-broker",
    ) && same_text(audience, "bloom-machine") || same_text(caller, "bloom-broker") && same_text(
        audience,
        "bloom-signer",
    ) || same_text(caller, "bloom-signer") && same_text(audience, "bloom-broker")
}

pub open spec fn unsupported_error(message: Seq<char>) -> WireErrorView {
    WireErrorView { code: WireErrorCode::UnsupportedVersion, message }
}

/// Whether an envelope carries the journal head that its edge demands, signed by its sender.
pub open spec fn head_check<T>(
    envelope: UnsignedEnvelope<T>,
    public_key: Seq<u8>,
) -> Result<(), WireErrorView> {
    let authority = authority_edge(envelope.caller_service_id@, envelope.audience@);
    if envelope.protocol.minor == 0 {
        if envelope.sender_journal_head is Some || authority {
            Err(
                unsupported_error(
                    "authority-edge journal heads require protocol minor 1 without downgrade"@,
                ),
            )
        } else {
            Ok(())
        }
    } else {
        match envelope.sender_journal_head {
            Some(head) => if authority {
                crate::audit::head_sender(
                    head@,
                    envelope.caller_service_id@,
                    envelope.application_key_id@,
                    public_key,
                )
            } else {
                Err(
                    unauthenticated_error(
                        "sender journal heads are forbidden outside authority edges"@,
                    ),
                )
            },
            None => if authority {
                Err(
                    unauthenticated_error(
                        "authority-edge envelope omitted its signed sender journal head"@,
                    ),
                )
            } else {
                Ok(())
            },
        }
    }
}

/// The envelope names the peer that the transport authenticated.
pub open spec fn names_peer<T>(
    envelope: UnsignedEnvelope<T>,
    observed_effective_uid: u32,
    expected: AuthenticatedPeer,
) -> bool {
    &&& observed_effective_uid == expected.effective_uid
    &&& envelope.caller_service_id@ == expected.service_id@
    &&& envelope.caller_boot_epoch@ == expected.boot_epoch@
    &&& envelope.audience@ == expected.audience@
    &&& envelope.application_key_id@ == expected.application_key_id@
}

/// Whether the signature covers the envelope under the pinned key.
pub open spec fn signature_check<T: WireValue>(
    envelope: SignedEnvelope<T>,
    public_key: Seq<u8>,
) -> Result<(), WireErrorView> {
    if !crate::crypto::ed25519_key_accepted(public_key) {
        Err(unauthenticated_error("invalid pinned application public key"@))
    } else if envelope.signature@.len() != 64 {
        Err(unauthenticated_error("application signature must contain 64 bytes"@))
    } else {
        match canonical_bytes_of(envelope.unsigned) {
            Err(e) => Err(e),
            Ok(bytes) => if !crate::crypto::ed25519_verifies(
                public_key,
                bytes,
                envelope.signature@,
            ) {
                Err(unauthenticated_error("application signature verification failed"@))
            } else {
                Ok(())
            },
        }
    }
}

/// Whether a request carries the digest of its body. Responses carry the request's digest.
pub open spec fn digest_check<T: WireValue>(envelope: UnsignedEnvelope<T>) -> Result<
    (),
    WireErrorView,
> {
    if envelope.kind == EnvelopeKind::Response {
        Ok(())
    } else {
        match body_digest(envelope.body) {
            Err(e) => Err(e),
            Ok(digest) => if envelope.request_digest@ != digest {
                Err(malformed_error("request digest does not match canonical body"@))
            } else {
                Ok(())
            },
        }
    }
}

/// Whether an envelope is authentic, in the order in which the checks are made.
pub open spec fn authentic<T: WireValue>(
    envelope: SignedEnvelope<T>,
    observed_effective_uid: u32,
    expected: AuthenticatedPeer,
) -> Result<(), WireErrorView> {
    let unsigned = envelope.unsigned;
    match version_check(unsigned.protocol) {
        Err(e) => Err(e),
        Ok(_) => if unsigned.schema@ != RPC_ENVELOPE_SCHEMA_V1@ {
            Err(unsupported_error("unsupported RPC envelope schema"@))
        } else if !names_peer(unsigned, observed_effective_uid, expected) {
            Err(unauthenticated_error("OS peer or pinned application identity mismatch"@))
        } else if unsigned.deadline_ms@ <= unsigned.sent_at_ms@ {
            Err(malformed_error("envelope deadline must be after sent_at"@))
        } else {
            match digest_check(unsigned) {
                Err(e) => Err(e),
                Ok(_) => match signature_check(envelope, expected.application_public_key@) {
                    Err(e) => Err(e),
                    Ok(_) => head_check(unsigned, expected.application_public_key@),
                },
            }
        },
    }
}

/// The response answers the request: one method, one operation, one digest.
pub open spec fn answers<T, U>(response: UnsignedEnvelope<T>, request: UnsignedEnvelope<U>) -> bool {
    &&& response.kind == EnvelopeKind::Response
    &&& request.kind == EnvelopeKind::Request
    &&& response.method@ == request.method@
    &&& response.operation_id@ == request.operation_id@
    &&& response.request_digest@ == request.request_digest@
}

/// Whether a response is authentic and answers the request.
pub open spec fn response_verdict<T: WireValue, U>(
    response: SignedEnvelope<T>,
    observed_effective_uid: u32,
    expected: AuthenticatedPeer,
    request: UnsignedEnvelope<U>,
) -> Result<(), WireErrorView> {
    match authentic(response, observed_effective_uid, expected) {
        Err(e) => Err(e),
        Ok(_) => if !answers(response.unsigned, request) {
            Err(malformed_error("response does not correlate to the authenticated request"@))
        } else {
            Ok(())
        },
    }
}

impl<T: WireValue> SignedEnvelope<T> {
    pub fn verify(&self, observed_effective_uid: u32, expected: &AuthenticatedPeer) -> (r: Result<
        (),
        WireError,
    >)
        ensures
            crate::error::outcome(r) == authentic(*self, observed_effective_uid, *expected),
    {
        let unsigned = &self.unsigned;
        if let Err(error) = unsigned.protocol.validate() {
            return Err(error);
        }
        if !same_text(unsigned.schema.as_str(), RPC_ENVELOPE_SCHEMA_V1) {
            return Err(
                WireError::new(
                    WireErrorCode::UnsupportedVersion,
                    "unsupported RPC envelope schema",
                ),
            );
        }
        if observed_effective_uid != expected.effective_uid || !unsigned.caller_service_id.same_as(
            &expected.service_id,
        ) || !unsigned.caller_boot_epoch.same_as(&expected.boot_epoch)
            || !unsigned.audience.same_as(&expected.audience)
            || !unsigned.application_key_id.same_as(&expected.application_key_id) {
            return Err(unauthenticated("OS peer or pinned application identity mismatch"));
        }
        if unsigned.deadline_ms.get() <= unsigned.sent_at_ms.get() {
            return Err(malformed("envelope deadline must be after sent_at"));
        }
        if unsigned.kind == EnvelopeKind::Request {
            match unsigned.expected_request_digest() {
                Err(error) => {
                    return Err(error);
                },
                Ok(digest) => {
                    if !unsigned.request_digest.same_as(&digest) {
                        return Err(malformed("request digest does not match canonical body"));
                    }
                },
            }
        }
        if !accepts_key(&expected.application_public_key) {
            return Err(unauthenticated("invalid pinned application public key"));
        }
        let signature = match array64(self.signature.decode().as_slice()) {
            Some(signature) => signature,
            None => {
                return Err(unauthenticated("application signature must contain 64 bytes"));
            },
        };
        let bytes = match unsigned.canonical_bytes() {
            Ok(bytes) => bytes,
            Err(error) => {
                return Err(error);
            },
        };
        if !verifies(&expected.application_public_key, bytes.as_slice(), &signature) {
            return Err(unauthenticated("application signature verification failed"));
        }
        self.verify_sender_journal_head(expected)
    }

    pub fn verify_sender_journal_head(&self, expected: &AuthenticatedPeer) -> (r: Result<
        (),
        WireError,
    >)
        ensures
            crate::error::outcome(r) == head_check(
                self.unsigned,
                expected.application_public_key@,
            ),
    {
        let authority = is_authority_edge(
            self.unsigned.caller_service_id.as_str(),
            self.unsigned.audience.as_str(),
        );
        if self.unsigned.protocol.minor == 0 {
            if self.unsigned.sender_journal_head.is_some() || authority {
                return Err(
                    WireError::new(
                        WireErrorCode::UnsupportedVersion,
                        "authority-edge journal heads require protocol minor 1 without downgrade",
                    ),
                );
            }
            return Ok(());
        }
        match &self.unsigned.sender_journal_head {
            Some(head) => if authority {
                head.verify_sender_identity(
                    &self.unsigned.caller_service_id,
                    &self.unsigned.application_key_id,
                    &expected.application_public_key,
                )
            } else {
                Err(unauthenticated("sender journal heads are forbidden outside authority edges"))
            },
            None => if authority {
                Err(
                    unauthenticated(
                        "authority-edge envelope omitted its signed sender journal head",
                    ),
                )
            } else {
                Ok(())
            },
        }
    }

    /// Verifies a response and binds it to the exact authenticated request.
    pub fn verify_response_to<U: WireValue>(
        &self,
        observed_effective_uid: u32,
        expected: &AuthenticatedPeer,
        request: &SignedEnvelope<U>,
    ) -> (r: Result<(), WireError>)
        ensures
            crate::error::outcome(r) == response_verdict(
                *self,
                observed_effective_uid,
                *expected,
                request.unsigned,
            ),
    {
        if let Err(error) = self.verify(observed_effective_uid, expected) {
            return Err(error);
        }
        if self.unsigned.kind != EnvelopeKind::Response || request.unsigned.kind
            != EnvelopeKind::Request || !self.unsigned.method.same_as(&request.unsigned.method)
            || !self.unsigned.operation_id.same_as(&request.unsigned.operation_id)
            || !self.unsigned.request_digest.same_as(&request.unsigned.request_digest) {
            return Err(malformed("response does not correlate to the authenticated request"));
        }
        Ok(())
    }
}

} // verus!
