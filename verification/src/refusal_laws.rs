//! What a peer or an operator is told where something is refused.

use vstd::prelude::*;

use crate::checkpoint::{
    current_check, handovers_check, historical_check, CheckpointErrorView, HandoverView, PinView,
};
use crate::codec::{canonical, frame, jcs_encoding, json_parsed, shape, unframe};
use crate::envelope::{
    AuthenticatedPeer, ProtocolVersion, SignedEnvelope, UnsignedEnvelope,
};
use crate::envelope_laws::{comes_from_peer, joins_broker};
use crate::error::{WireError, WireErrorCode, WireErrorView};
use crate::hello::{
    answer_check, client_verdict, counter_verdict, drawn_text, hello_check, uid_check, ClientView,
    HelloView, ServerView,
};
use crate::identity::{
    acl_of, bound_identity, identity_of, AclView, EdgeManifest, IdentityFileView, ManifestPeerView,
};
use crate::ids::{is_token_text, OperationId, Token};
use crate::json::JsonView;
use crate::listener::{bind_next, BindActionView, BindReply, BindView};
use crate::trusted_time::HostPlatform;
use crate::wire::{wire_bytes, WireValue};

verus! {

/// The refusal of something malformed.
pub open spec fn malformed_for(message: Seq<char>) -> WireErrorView {
    WireErrorView { code: WireErrorCode::MalformedFrame, message }
}

/// The refusal of a peer.
pub open spec fn unauthenticated_for(message: Seq<char>) -> WireErrorView {
    WireErrorView { code: WireErrorCode::UnauthenticatedPeer, message }
}

/// The refusal of what exceeds a limit.
pub open spec fn limit_for(message: Seq<char>) -> WireErrorView {
    WireErrorView { code: WireErrorCode::LimitExceededFrame, message }
}

/// The refusal of a version or a schema.
pub open spec fn unsupported_for(message: Seq<char>) -> WireErrorView {
    WireErrorView { code: WireErrorCode::UnsupportedVersion, message }
}

/// A refused version is told with what is supported.
pub proof fn law_refused_version_is_told(version: ProtocolVersion)
    ensures
        crate::envelope::version_check(version) matches Err(e) ==> e == unsupported_for(
            "unsupported protocol "@ + crate::decimal::decimal_chars(version.major as nat) + "."@
                + crate::decimal::decimal_chars(version.minor as nat) + "; supported "@ + seq!['1']
                + "."@ + seq!['0'] + "-"@ + seq!['1'],
        ),
{
    assert(crate::decimal::decimal_chars(0) =~= seq!['0']);
    assert(crate::decimal::decimal_chars(1) =~= seq!['1']);
}

/// A refused envelope is told the first of its faults: version, schema, peer, times, digest,
/// signature, journal head.
pub proof fn law_refused_envelope_is_told_its_first_fault<T: WireValue>(
    envelope: SignedEnvelope<T>,
    observed_uid: u32,
    expected: AuthenticatedPeer,
)
    ensures
        ({
            let u = envelope.unsigned;
            let key = expected.application_public_key@;
            let r = crate::envelope::authentic(envelope, observed_uid, expected);
            let version = crate::envelope::version_check(u.protocol);
            let schema = u.schema@ == "bloom.rpc-envelope.1"@;
            let peer = comes_from_peer(u, observed_uid, expected);
            let times = u.sent_at_ms@ < u.deadline_ms@;
            let body = wire_bytes(u.body.wire());
            let digest = u.kind is Response || (body matches Ok(bytes) && u.request_digest@
                == crate::hex_text::hex_chars(crate::crypto::sha256_of(bytes)));
            let usable = crate::crypto::ed25519_key_accepted(key);
            let sized = envelope.signature@.len() == 64;
            let written = wire_bytes(u.wire());
            let signed = written matches Ok(bytes) && crate::crypto::ed25519_verifies(
                key,
                bytes,
                envelope.signature@,
            );
            &&& version is Err ==> r == version
            &&& version is Ok && !schema ==> r == Err::<(), WireErrorView>(
                unsupported_for("unsupported RPC envelope schema"@),
            )
            &&& version is Ok && schema && !peer ==> r == Err::<(), WireErrorView>(
                unauthenticated_for("OS peer or pinned application identity mismatch"@),
            )
            &&& version is Ok && schema && peer && !times ==> r == Err::<(), WireErrorView>(
                malformed_for("envelope deadline must be after sent_at"@),
            )
            &&& version is Ok && schema && peer && times && !digest ==> r == Err::<
                (),
                WireErrorView,
            >(
                malformed_for(
                    match body {
                        Err(text) => "request body JCS encoding failed: "@ + text,
                        Ok(_) => "request digest does not match canonical body"@,
                    },
                ),
            )
            &&& version is Ok && schema && peer && times && digest && !usable ==> r == Err::<
                (),
                WireErrorView,
            >(unauthenticated_for("invalid pinned application public key"@))
            &&& version is Ok && schema && peer && times && digest && usable && !sized ==> r
                == Err::<(), WireErrorView>(
                unauthenticated_for("application signature must contain 64 bytes"@),
            )
            &&& version is Ok && schema && peer && times && digest && usable && sized && !signed
                ==> r == Err::<(), WireErrorView>(
                match written {
                    Err(text) => malformed_for("envelope JCS encoding failed: "@ + text),
                    Ok(_) => unauthenticated_for("application signature verification failed"@),
                },
            )
            &&& version is Ok && schema && peer && times && digest && usable && sized && signed
                ==> r == crate::envelope::head_check(u, key)
        }),
{
}

/// A journal head that is missing, forbidden or under an old version is told as such.
pub proof fn law_refused_head_is_told_why<T>(envelope: UnsignedEnvelope<T>, key: Seq<u8>)
    ensures
        ({
            let r = crate::envelope::head_check(envelope, key);
            let authority = joins_broker(envelope.caller_service_id@, envelope.audience@);
            let carried = envelope.sender_journal_head is Some;
            &&& envelope.protocol.minor == 0 && (authority || carried) ==> r == Err::<
                (),
                WireErrorView,
            >(
                unsupported_for(
                    "authority-edge journal heads require protocol minor 1 without downgrade"@,
                ),
            )
            &&& envelope.protocol.minor != 0 && carried && !authority ==> r == Err::<
                (),
                WireErrorView,
            >(
                unauthenticated_for(
                    "sender journal heads are forbidden outside authority edges"@,
                ),
            )
            &&& envelope.protocol.minor != 0 && !carried && authority ==> r == Err::<
                (),
                WireErrorView,
            >(
                unauthenticated_for(
                    "authority-edge envelope omitted its signed sender journal head"@,
                ),
            )
        }),
{
}

/// A response that does not answer its request, and a body that does not fit its envelope, are
/// told as such.
pub proof fn law_uncorrelated_envelopes_are_told<T: WireValue, U>(
    response: SignedEnvelope<T>,
    observed_uid: u32,
    expected: AuthenticatedPeer,
    request: UnsignedEnvelope<U>,
    method: Result<Token, WireError>,
    operation: Result<Option<OperationId>, WireError>,
)
    ensures
        ({
            let r = crate::envelope::response_verdict(response, observed_uid, expected, request);
            crate::envelope::authentic(response, observed_uid, expected) is Ok && r is Err ==> r
                == Err::<(), WireErrorView>(
                malformed_for("response does not correlate to the authenticated request"@),
            )
        }),
        ({
            let r = crate::typed::typed_binding(request, method, operation);
            &&& request.kind is Response ==> r == Err::<(), WireErrorView>(
                malformed_for("typed request verifier received a response envelope"@),
            )
            &&& request.kind is Request ==> (method matches Err(e) ==> r == Err::<
                (),
                WireErrorView,
            >(e@))
            &&& request.kind is Request && (method matches Ok(m) && m@ != request.method@) ==> r
                == Err::<(), WireErrorView>(
                malformed_for(
                    "authenticated envelope method does not match typed request method"@,
                ),
            )
            &&& request.kind is Request && (method matches Ok(m) && m@ == request.method@) ==> (
            operation matches Err(e) ==> r == Err::<(), WireErrorView>(e@))
            &&& request.kind is Request && (method matches Ok(m) && m@ == request.method@) && (
            operation matches Ok(Some(id)) && id@ != request.operation_id@) ==> r == Err::<
                (),
                WireErrorView,
            >(
                WireErrorView {
                    code: WireErrorCode::OperationIdConflict,
                    message:
                        "authenticated envelope operation ID does not match typed request body"@,
                },
            )
        }),
{
}

/// A body without a method is told why it has none.
pub proof fn law_bodies_without_method_are_told(tree: JsonView, text: Seq<char>)
    ensures
        crate::typed::method_of(Err(text)) == Err::<Seq<char>, WireErrorView>(
            malformed_for("typed request serialization failed: "@ + text),
        ),
        crate::typed::method_tag(tree) is None ==> crate::typed::method_of(Ok(tree)) == Err::<
            Seq<char>,
            WireErrorView,
        >(malformed_for("typed request has no method discriminator"@)),
        crate::typed::method_tag(tree) is Some && !is_token_text(
            crate::typed::method_tag(tree)->Some_0,
        ) ==> crate::typed::method_of(Ok(tree)) == Err::<Seq<char>, WireErrorView>(
            malformed_for("token must be a 1-64 byte lowercase ASCII protocol identifier"@),
        ),
        !(tree is Object) ==> crate::typed::method_tag(tree) is None,
{
}

/// A refused hello is told the first of its faults: version, identity, key, signature.
pub proof fn law_refused_hello_is_told_its_first_fault(hello: HelloView, acl: AclView)
    ensures
        ({
            let r = hello_check(hello, acl);
            let version = crate::envelope::version_check(hello.protocol);
            let named = hello.service == acl.service && hello.boot_epoch == acl.boot_epoch
                && hello.key_id == acl.key_id;
            let usable = crate::crypto::ed25519_key_accepted(acl.public_key);
            let sized = hello.signature.len() == 64;
            &&& version is Err ==> r == version
            &&& version is Ok && !named ==> r == Err::<(), WireErrorView>(
                unauthenticated_for("hello service, boot epoch, or app key mismatch"@),
            )
            &&& version is Ok && named && !usable ==> r == Err::<(), WireErrorView>(
                unauthenticated_for("pinned application public key is invalid"@),
            )
            &&& version is Ok && named && usable && !sized ==> r == Err::<(), WireErrorView>(
                unauthenticated_for("hello signature must contain 64 bytes"@),
            )
            &&& version is Ok && named && usable && sized && (crate::hello::hello_bytes(hello)
                matches Ok(bytes) && !crate::crypto::ed25519_verifies(
                acl.public_key,
                bytes,
                hello.signature,
            )) ==> r == Err::<(), WireErrorView>(
                unauthenticated_for("hello application signature is invalid"@),
            )
        }),
{
}

/// Who is not expected, does not answer the fresh challenge, or has not answered yet is told so.
pub proof fn law_unanswered_challenges_are_told(
    client: ClientView,
    server: ServerView,
    hello: HelloView,
    observed: u32,
    expected: u32,
)
    ensures
        observed != expected ==> uid_check(observed, expected) == Err::<(), WireErrorView>(
            unauthenticated_for("OS peer effective UID is not allowed"@),
        ),
        hello_check(hello, client.server) is Ok && client.sent != Some(hello.challenge)
            ==> client_verdict(client, hello) == Err::<(), WireErrorView>(
            unauthenticated_for("Broker did not answer Machine's fresh challenge"@),
        ),
        server.client is None ==> counter_verdict(server, hello) == Err::<(), WireErrorView>(
            unauthenticated_for("client did not answer server's fresh challenge"@),
        ),
        crate::hello::expected_peer(server, hello) is None ==> answer_check(server, hello) == Err::<
            AclView,
            WireErrorView,
        >(unauthenticated_for("hello identity is not in the pinned peer set"@)),
        (crate::hello::expected_peer(server, hello) matches Some(peer) && hello_check(hello, peer)
            is Ok && hello.challenge != server.sent) ==> answer_check(server, hello) == Err::<
            AclView,
            WireErrorView,
        >(unauthenticated_for("client did not answer server's fresh challenge"@)),
        drawn_text(None) == Err::<Seq<char>, WireErrorView>(
            WireErrorView {
                code: WireErrorCode::ServiceUnavailable,
                message: "operating system random numbers are unavailable"@,
            },
        ),
{
}

/// The names that an identity or a manifest entry is refused for: service, boot epoch, key.
pub open spec fn name_fault(service: Seq<char>, boot_epoch: Seq<char>) -> WireErrorView {
    if is_token_text(service) && !crate::hex_text::is_lower_hex_text(boot_epoch, 32) {
        malformed_for("boot epoch must be fixed-length lowercase hexadecimal"@)
    } else {
        malformed_for("token must be a 1-64 byte lowercase ASCII protocol identifier"@)
    }
}

/// A refused identity file is told its seed's fault first; a refused manifest entry its names'.
pub proof fn law_refused_identity_is_told_its_fault(
    file: IdentityFileView,
    peer: ManifestPeerView,
)
    ensures
        ({
            let r = identity_of(file);
            let hex = crate::hex_text::is_hex_text(file.seed_hex);
            let sized = file.seed_hex.len() == 64;
            &&& r matches Err(e) ==> e == (if !hex {
                unauthenticated_for("identity seed is not hexadecimal"@)
            } else if !sized {
                unauthenticated_for("identity seed must contain 32 bytes"@)
            } else {
                name_fault(file.service, file.boot_epoch)
            })
        }),
        ({
            let r = acl_of(peer);
            let named = crate::identity_laws::are_names(peer.service, peer.boot_epoch, peer.key_id);
            let hex = crate::hex_text::is_hex_text(peer.public_key_hex);
            &&& r matches Err(e) ==> e == (if !named {
                name_fault(peer.service, peer.boot_epoch)
            } else if !hex {
                unauthenticated_for("manifest application public key is not hexadecimal"@)
            } else {
                unauthenticated_for("manifest application public key must contain 32 bytes"@)
            })
        }),
{
}

/// An identity that is not bound is told why: the manifest's schema, its time source, the file,
/// the service, the entry, or that the two do not agree.
pub proof fn law_unbound_identity_is_told_why(
    file: IdentityFileView,
    manifest: EdgeManifest,
    platform: HostPlatform,
    service: Seq<char>,
)
    ensures
        ({
            let r = bound_identity(file, manifest, platform, service);
            let schema = manifest.schema@ == "bloom.edge-manifest.1"@;
            let source = crate::identity_laws::reviewed_source(
                platform,
                manifest.trusted_time_source@,
            );
            let held = identity_of(file);
            let known = service == "bloom-machine"@ || service == "bloom-broker"@ || service
                == "bloom-signer"@ || service == "bloom-session"@;
            &&& !schema ==> r is Err && r->Err_0 == unsupported_for(
                "unsupported edge manifest schema"@,
            )
            &&& schema && !source ==> r is Err && r->Err_0 == unauthenticated_for(
                "edge manifest trusted time source is invalid: "@ + ("trusted time source "@
                    + crate::trusted_time::quoted_text(manifest.trusted_time_source@)
                    + " does not match this platform or reviewed packaging"@),
            )
            &&& schema && source && held is Err ==> r == held
            &&& schema && source && held is Ok && file.service != service ==> r is Err && r->Err_0
                == unauthenticated_for("application identity file has the wrong service ID"@)
            &&& schema && source && held is Ok && file.service == service && !known ==> r is Err
                && r->Err_0 == unauthenticated_for("unknown local service identity"@)
            &&& schema && source && held is Ok && file.service == service && service
                == "bloom-session"@ && manifest.session is None ==> r is Err && r->Err_0
                == unauthenticated_for("edge manifest has no session identity"@)
            &&& schema && source && held is Ok && file.service == service && service
                == "bloom-broker"@ && acl_of(manifest.broker@) is Ok && r is Err ==> r->Err_0
                == unauthenticated_for(
                "application identity does not match the pinned edge manifest"@,
            )
            &&& schema && source && held is Ok && file.service == service && service
                == "bloom-machine"@ && acl_of(manifest.machine@) is Ok && r is Err ==> r->Err_0
                == unauthenticated_for(
                "application identity does not match the pinned edge manifest"@,
            )
            &&& schema && source && held is Ok && file.service == service && service
                == "bloom-signer"@ && acl_of(manifest.signer@) is Ok && r is Err ==> r->Err_0
                == unauthenticated_for(
                "application identity does not match the pinned edge manifest"@,
            )
        }),
{
    reveal_strlit("bloom-machine");
    reveal_strlit("bloom-broker");
    reveal_strlit("bloom-signer");
    reveal_strlit("bloom-session");
    assert("bloom-machine"@.len() == 13 && "bloom-session"@.len() == 13);
    assert("bloom-machine"@[6] == 'm' && "bloom-session"@[6] == 's');
    assert("bloom-broker"@.len() == 12 && "bloom-signer"@.len() == 12);
    assert("bloom-broker"@[6] == 'b' && "bloom-signer"@[6] == 's');
}

/// A refused frame is told the first of its faults: its size, its form, its limits, its canonical
/// form. A tree that cannot be framed is told why.
pub proof fn law_refused_frame_is_told_its_first_fault(bytes: Seq<u8>, tree: JsonView)
    ensures
        ({
            let r = unframe(bytes);
            let length = crate::frame_laws::announced(bytes);
            let payload = bytes.skip(4);
            let framed = bytes.len() >= 4 && length <= 1048576 && length == bytes.len() - 4;
            let parsed = json_parsed(payload);
            &&& bytes.len() < 4 ==> r == Err::<JsonView, WireErrorView>(
                malformed_for("frame is shorter than its length prefix"@),
            )
            &&& bytes.len() >= 4 && length > 1048576 ==> r == Err::<JsonView, WireErrorView>(
                limit_for("declared frame length exceeds 1 MiB"@),
            )
            &&& bytes.len() >= 4 && length <= 1048576 && !framed ==> r == Err::<
                JsonView,
                WireErrorView,
            >(malformed_for("frame length prefix does not match input"@))
            &&& framed ==> (parsed matches Err(text) ==> r == Err::<JsonView, WireErrorView>(
                malformed_for(text),
            ))
            &&& framed && (parsed matches Ok(seen) && shape(seen, 1) is Err) ==> r == Err::<
                JsonView,
                WireErrorView,
            >(shape(parsed->Ok_0, 1)->Err_0)
            &&& framed && (parsed matches Ok(seen) && shape(seen, 1) is Ok && (jcs_encoding(seen)
                matches Ok(written) && written != payload)) ==> r == Err::<JsonView, WireErrorView>(
                malformed_for("JSON payload is not RFC 8785 canonical"@),
            )
        }),
        canonical(tree) matches Err(text) ==> frame(tree) == Err::<Seq<u8>, WireErrorView>(
            malformed_for(text),
        ),
        (canonical(tree) matches Ok(payload) && payload.len() > 1048576) ==> frame(tree) == Err::<
            Seq<u8>,
            WireErrorView,
        >(limit_for("encoded frame exceeds 1 MiB"@)),
{
    if bytes.len() >= 4 {
        crate::frame_laws::lemma_announced(bytes);
    }
}

/// What exceeds a limit is told which: the depth, a text, a list or a key.
pub proof fn law_exceeded_limit_is_told(
    tree: JsonView,
    depth: nat,
    entries: Seq<(Seq<char>, JsonView)>,
    key: Seq<char>,
    value: JsonView,
)
    ensures
        depth > 32 ==> shape(tree, depth) == Err::<(), WireErrorView>(
            limit_for("JSON nesting depth exceeds 32"@),
        ),
        depth <= 32 && (tree matches JsonView::Text(text) && vstd::utf8::encode_utf8(text).len()
            > 262144) ==> shape(tree, depth) == Err::<(), WireErrorView>(
            limit_for("JSON string exceeds 256 KiB"@),
        ),
        depth <= 32 && (tree matches JsonView::Array(items) && items.len() > 256) ==> shape(
            tree,
            depth,
        ) == Err::<(), WireErrorView>(limit_for("JSON list exceeds 256 elements"@)),
        depth <= 32 && shape(JsonView::Object(entries), depth) is Ok
            && vstd::utf8::encode_utf8(key).len() > 262144 ==> shape(
            JsonView::Object(entries.push((key, value))),
            depth,
        ) == Err::<(), WireErrorView>(limit_for("JSON object key exceeds 256 KiB"@)),
{
    let longer = entries.push((key, value));
    assert(longer.subrange(0, longer.len() - 1) =~= entries);
}

/// A pin or a handover that cannot join those before it is told why.
pub proof fn law_refused_pins_are_told_why(
    current: Seq<PinView>,
    historical: Seq<PinView>,
    handovers: Seq<HandoverView>,
    pin: PinView,
    handover: HandoverView,
)
    ensures
        current_check(current) is Ok && crate::trust_laws::serves(current, pin.service)
            ==> current_check(current.push(pin)) == Err::<(), CheckpointErrorView>(
            CheckpointErrorView::Malformed("duplicate current peer application service"@),
        ),
        historical_check(current, historical) is Ok && !crate::trust_laws::serves(
            current,
            pin.service,
        ) ==> historical_check(current, historical.push(pin)) == Err::<(), CheckpointErrorView>(
            CheckpointErrorView::Malformed(
                "historical application key has no current peer service"@,
            ),
        ),
        historical_check(current, historical) is Ok && crate::trust_laws::serves(
            current,
            pin.service,
        ) && historical_check(current, historical.push(pin)) is Err ==> historical_check(
            current,
            historical.push(pin),
        ) == Err::<(), CheckpointErrorView>(
            CheckpointErrorView::Malformed(
                "duplicate current or historical peer application key"@,
            ),
        ),
        handovers_check(current, historical, handovers) is Ok && !crate::trust_laws::serves(
            current,
            handover.service,
        ) ==> handovers_check(current, historical, handovers.push(handover)) == Err::<
            (),
            CheckpointErrorView,
        >(CheckpointErrorView::Malformed("handover has no pinned peer service"@)),
        handovers_check(current, historical, handovers) is Ok && crate::trust_laws::serves(
            current,
            handover.service,
        ) && handover.old_key_id == handover.new_key_id ==> handovers_check(
            current,
            historical,
            handovers.push(handover),
        ) == Err::<(), CheckpointErrorView>(
            CheckpointErrorView::Malformed(
                "handover keys are equal or are not present in packaging key history"@,
            ),
        ),
        handovers_check(current, historical, handovers) is Ok && crate::trust_laws::serves(
            current,
            handover.service,
        ) && handover.old_key_id != handover.new_key_id ==> (handovers_check(
            current,
            historical,
            handovers.push(handover),
        ) matches Err(e) ==> e == CheckpointErrorView::Malformed(
            if crate::checkpoint::pinned_key(
                current + historical,
                handover.service,
                handover.old_key_id,
            ) is None || crate::checkpoint::pinned_key(
                current + historical,
                handover.service,
                handover.new_key_id,
            ) is None {
                "handover keys are equal or are not present in packaging key history"@
            } else {
                "duplicate application-key handover"@
            },
        )),
{
    assert(current.push(pin).drop_last() =~= current);
    assert(historical.push(pin).drop_last() =~= historical);
    assert(handovers.push(handover).drop_last() =~= handovers);
    crate::trust_laws::lemma_live_key_listed(current, pin.service);
    crate::trust_laws::lemma_live_key_listed(current, handover.service);
}

/// A clock that gives no time, and a deadline that has passed, are told as such.
pub proof fn law_times_out_of_range_are_told<T>(
    ms: u128,
    envelope: SignedEnvelope<T>,
    at_ms: u64,
)
    ensures
        crate::sealing::time_of(None) == Err::<u64, WireErrorView>(
            WireErrorView {
                code: WireErrorCode::ClockRollback,
                message: "system time predates Unix epoch"@,
            },
        ),
        ms > u64::MAX ==> crate::sealing::time_of(Some(ms)) == Err::<u64, WireErrorView>(
            WireErrorView {
                code: WireErrorCode::ClockUntrusted,
                message: "system time is out of range"@,
            },
        ),
        at_ms >= envelope.unsigned.deadline_ms@ ==> crate::exchange::in_time(
            Ok(()),
            envelope,
            at_ms,
        ) == Err::<(), WireErrorView>(
            WireErrorView {
                code: WireErrorCode::ServiceUnavailable,
                message: "authenticated local request deadline expired"@,
            },
        ),
{
}

/// A response after its request's deadline is refused with the reason.
pub proof fn law_late_responses_are_told<T: WireValue, U>(
    r: Result<SignedEnvelope<Result<T, WireError>>, WireError>,
    identity: crate::identity::IdentityView,
    request: SignedEnvelope<U>,
    response: Result<T, WireError>,
    sent_at_ms: u64,
    head: Option<crate::audit::SignedJournalHead>,
)
    requires
        crate::exchange::reply_outcome(r, identity, request, response, sent_at_ms, head),
        sent_at_ms >= request.unsigned.deadline_ms@,
    ensures
        r matches Err(e) && e@ == (WireErrorView {
            code: WireErrorCode::ServiceUnavailable,
            message: "request deadline expired before response"@,
        }),
{
}

/// A reply that answers nothing that was asked is told as such, by a listener and by a store.
pub proof fn law_stray_replies_are_told(
    task: BindView,
    store: crate::store::StoreView,
    work: crate::store::TaskView,
)
    requires
        task.phase is Done,
        work.phase is Done,
    ensures
        bind_next(task, BindReply::Done).action == (BindActionView::Failed {
            error: crate::activation::ActivationErrorView::Rejected(
                "endpoint reply does not answer the request"@,
            ),
            cleanup: false,
        }),
        crate::store::next(store, work, crate::store::ReplyView::Linked).action
            == crate::store::ActionView::Failed(
            CheckpointErrorView::Malformed("checkpoint disk reply does not answer the request"@),
        ),
{
}

/// A call whose body cannot state its operation fails with the body's own reason.
pub proof fn law_refused_call_keeps_the_bodys_reason<T: WireValue>(
    r: Result<SignedEnvelope<T>, WireError>,
    identity: crate::identity::IdentityView,
    server: AclView,
    own: Result<Option<OperationId>, WireError>,
    fresh: OperationId,
    method: Result<Token, WireError>,
    body: T,
    sent_at_ms: u64,
    timeout_ms: u64,
    head: Option<crate::audit::SignedJournalHead>,
)
    requires
        crate::exchange::call_outcome(
            r,
            identity,
            server,
            own,
            fresh,
            method,
            body,
            sent_at_ms,
            timeout_ms,
            head,
        ),
    ensures
        own matches Err(e) ==> (r matches Err(error) && error@ == e@),
{
}

/// A drawn operation is 64 lowercase digits; where none could be drawn the service is
/// unavailable.
pub proof fn law_drawn_operation_is_whole_or_unavailable(r: Result<OperationId, WireError>)
    requires
        crate::hello::drawn_operation(r),
    ensures
        r matches Ok(id) ==> id@.len() == 64 && crate::hex_text::is_lower_hex_text(id@, 64),
        r matches Err(e) ==> e@ == (WireErrorView {
            code: WireErrorCode::ServiceUnavailable,
            message: "operating system random numbers are unavailable"@,
        }),
{
    let drawn = choose|drawn: Option<[u8; 32]>|
        match r {
            Ok(id) => #[trigger] drawn_text(drawn) == Ok::<Seq<char>, WireErrorView>(id@),
            Err(e) => drawn_text(drawn) == Err::<Seq<char>, WireErrorView>(e@),
        };
    crate::hello_laws::law_drawn_bytes_are_written_whole(drawn);
}

} // verus!
