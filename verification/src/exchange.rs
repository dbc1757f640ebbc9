//! One request and its response over an authenticated connection.

use vstd::prelude::*;

use crate::audit::SignedJournalHead;
use crate::envelope::{AuthenticatedPeer, EnvelopeKind, SignedEnvelope, UnsignedEnvelope};
use crate::error::{WireError, WireErrorView};
use crate::hello::random_operation_id;
use crate::identity::{AclView, IdentityView, LocalIdentity, PeerAcl};
use crate::ids::{OperationId, Token};
use crate::sealing::{
    require_answerable, require_live_deadline, sign_request_as,
    sign_response_with_optional_journal_head, unavailable_error,
};
use crate::typed::TypedRequestMethod;
use crate::wire::WireValue;

verus! {

/// The operation that a call is made under: the body's own, or a fresh one where it has none.
pub open spec fn call_operation(own: Option<OperationId>, fresh: OperationId) -> Seq<char> {
    match own {
        Some(id) => id@,
        None => fresh@,
    }
}

/// The operation that a call is made under. A fresh one is drawn only where the body has none.
pub fn operation_for_call(own: Option<OperationId>) -> (r: Result<OperationId, WireError>)
    ensures
        match own {
            Some(id) => r == Ok::<OperationId, WireError>(id),
            None => crate::hello::drawn_operation(r),
        },
{
    match own {
        Some(id) => Ok(id),
        None => random_operation_id(),
    }
}

/// The deadline of a call: the timeout after its start, or the end of time.
pub open spec fn call_deadline(sent_at_ms: u64, timeout_ms: u64) -> u64 {
    if sent_at_ms + timeout_ms > u64::MAX {
        u64::MAX
    } else {
        (sent_at_ms + timeout_ms) as u64
    }
}

/// The outcome of preparing a call whose body stated its operation and its method.
pub open spec fn call_outcome<T: WireValue>(
    r: Result<SignedEnvelope<T>, WireError>,
    identity: IdentityView,
    server: AclView,
    own_operation: Result<Option<OperationId>, WireError>,
    fresh_operation: OperationId,
    method: Result<Token, WireError>,
    body: T,
    sent_at_ms: u64,
    timeout_ms: u64,
    head: Option<SignedJournalHead>,
) -> bool {
    match own_operation {
        Err(e) => r matches Err(error) && error@ == e@,
        Ok(own) => crate::sealing::request_outcome(
            r,
            identity,
            server.service,
            call_operation(own, fresh_operation),
            method,
            body,
            sent_at_ms,
            call_deadline(sent_at_ms, timeout_ms),
            head,
        ),
    }
}

/// Prepares a call whose body stated its operation and its method.
pub fn prepare_call_as<T: WireValue>(
    identity: &LocalIdentity,
    server: &PeerAcl,
    own_operation: Result<Option<OperationId>, WireError>,
    fresh_operation: OperationId,
    method: Result<Token, WireError>,
    body: T,
    sent_at_ms: u64,
    timeout_ms: u64,
    sender_journal_head: Option<SignedJournalHead>,
) -> (r: Result<SignedEnvelope<T>, WireError>)
    ensures
        call_outcome(
            r,
            identity@,
            server@,
            own_operation,
            fresh_operation,
            method,
            body,
            sent_at_ms,
            timeout_ms,
            sender_journal_head,
        ),
        own_operation is Ok && method is Ok && crate::sealing::exact_body(body) ==> r is Ok,
{
    let operation_id = match own_operation {
        Err(error) => {
            return Err(error);
        },
        Ok(Some(id)) => id,
        Ok(None) => fresh_operation,
    };
    sign_request_as(
        identity,
        server.service_id.clone(),
        operation_id,
        method,
        body,
        sent_at_ms,
        sent_at_ms.saturating_add(timeout_ms),
        sender_journal_head,
    )
}

/// Prepares the signed request of a call to a server.
pub fn prepare_call<T: TypedRequestMethod>(
    identity: &LocalIdentity,
    server: &PeerAcl,
    fresh_operation: OperationId,
    body: T,
    sent_at_ms: u64,
    timeout_ms: u64,
    sender_journal_head: Option<SignedJournalHead>,
) -> (r: Result<SignedEnvelope<T>, WireError>)
    ensures
        exists|
            own_operation: Result<Option<OperationId>, WireError>,
            method: Result<Token, WireError>,
        |
            {
                &&& #[trigger] call_ensures(T::operation_id, (&body,), own_operation)
                &&& #[trigger] call_ensures(T::method, (&body,), method)
                &&& call_outcome(
                    r,
                    identity@,
                    server@,
                    own_operation,
                    fresh_operation,
                    method,
                    body,
                    sent_at_ms,
                    timeout_ms,
                    sender_journal_head,
                )
                &&& own_operation is Ok && method is Ok && crate::sealing::exact_body(body)
                    ==> r is Ok
            },
{
    let own_operation = body.operation_id();
    let method = body.method();
    assert(call_ensures(T::operation_id, (&body,), own_operation));
    assert(call_ensures(T::method, (&body,), method));
    prepare_call_as(
        identity,
        server,
        own_operation,
        fresh_operation,
        method,
        body,
        sent_at_ms,
        timeout_ms,
        sender_journal_head,
    )
}

/// Whether an authentic envelope is still in time.
pub open spec fn in_time<T>(
    verdict: Result<(), WireErrorView>,
    envelope: SignedEnvelope<T>,
    observed_at_ms: u64,
) -> Result<(), WireErrorView> {
    match verdict {
        Err(e) => Err(e),
        Ok(_) => if envelope.unsigned.deadline_ms@ <= observed_at_ms {
            Err(unavailable_error("authenticated local request deadline expired"@))
        } else {
            Ok(())
        },
    }
}

/// Accepts the response to a call: authentic, for this request, and in time.
pub fn accept_response<T: WireValue, U: WireValue>(
    response: &SignedEnvelope<T>,
    request: &SignedEnvelope<U>,
    identity: &LocalIdentity,
    server: &PeerAcl,
    observed_uid: u32,
    observed_at_ms: u64,
) -> (r: Result<(), WireError>)
    ensures
        exists|expected: AuthenticatedPeer|
            #[trigger] crate::identity::expects_peer(expected, server@, identity@.service)
                && crate::error::outcome(r) == in_time(
                crate::envelope::response_verdict(
                    *response,
                    observed_uid,
                    expected,
                    request.unsigned,
                ),
                *response,
                observed_at_ms,
            ),
{
    let expected = server.authenticated_for(identity.service_id.clone());
    assert(crate::identity::expects_peer(expected, server@, identity@.service));
    if let Err(error) = response.verify_response_to(observed_uid, &expected, request) {
        return Err(error);
    }
    require_live_deadline(response, observed_at_ms)
}

/// Accepts a request: authentic, bound to its body, and in time.
pub fn accept_request<T: TypedRequestMethod>(
    request: &SignedEnvelope<T>,
    identity: &LocalIdentity,
    client: &PeerAcl,
    observed_uid: u32,
    observed_at_ms: u64,
) -> (r: Result<(), WireError>)
    ensures
        exists|expected: AuthenticatedPeer|
            #[trigger] crate::identity::expects_peer(expected, client@, identity@.service) && (
            match crate::envelope::authentic(*request, observed_uid, expected) {
                Err(e) => crate::error::outcome(r) == Err::<(), WireErrorView>(e),
                Ok(_) => exists|
                    method: Result<Token, WireError>,
                    operation: Result<Option<OperationId>, WireError>,
                |
                    {
                        &&& #[trigger] call_ensures(T::method, (&request.unsigned.body,), method)
                        &&& #[trigger] call_ensures(
                            T::operation_id,
                            (&request.unsigned.body,),
                            operation,
                        )
                        &&& crate::error::outcome(r) == in_time(
                            crate::typed::typed_binding(request.unsigned, method, operation),
                            *request,
                            observed_at_ms,
                        )
                    },
            }),
{
    let expected = client.authenticated_for(identity.service_id.clone());
    assert(crate::identity::expects_peer(expected, client@, identity@.service));
    if let Err(error) = request.verify_typed(observed_uid, &expected) {
        return Err(error);
    }
    require_live_deadline(request, observed_at_ms)
}

/// The outcome of preparing a response: signed with the request's own deadline, which it never
/// extends, or refused once that deadline has come.
pub open spec fn reply_outcome<T: WireValue, U>(
    r: Result<SignedEnvelope<Result<T, WireError>>, WireError>,
    identity: IdentityView,
    request: SignedEnvelope<U>,
    response: Result<T, WireError>,
    sent_at_ms: u64,
    head: Option<SignedJournalHead>,
) -> bool {
    if sent_at_ms >= request.unsigned.deadline_ms@ {
        r matches Err(e) && e@ == unavailable_error("request deadline expired before response"@)
    } else {
        crate::sealing::response_outcome(
            r,
            identity,
            request.unsigned,
            response,
            sent_at_ms,
            request.unsigned.deadline_ms@,
            head,
        )
    }
}

/// Prepares the signed response to a request, within the request's own deadline.
pub fn prepare_response<T: WireValue, U: WireValue>(
    identity: &LocalIdentity,
    request: &SignedEnvelope<U>,
    response: Result<T, WireError>,
    sent_at_ms: u64,
    sender_journal_head: Option<SignedJournalHead>,
) -> (r: Result<SignedEnvelope<Result<T, WireError>>, WireError>)
    ensures
        reply_outcome(r, identity@, *request, response, sent_at_ms, sender_journal_head),
        sent_at_ms < request.unsigned.deadline_ms@ && crate::sealing::exact_body(response)
            ==> r is Ok,
{
    let deadline_ms: u64 = match require_answerable(request, sent_at_ms) {
        Ok(deadline_ms) => deadline_ms,
        Err(error) => {
            return Err(error);
        },
    };
    sign_response_with_optional_journal_head(
        identity,
        request,
        response,
        sent_at_ms,
        deadline_ms,
        sender_journal_head,
    )
}

/// A head stands on an envelope exactly where its edge demands one, and its sender signed it.
pub open spec fn proper_head(
    identity: IdentityView,
    audience: Seq<char>,
    head: Option<SignedJournalHead>,
) -> bool {
    match head {
        None => !crate::envelope::authority_edge(identity.service, audience),
        Some(head) => crate::envelope::authority_edge(identity.service, audience)
            && crate::sealing::own_head(head@, identity, head@.sequence, head@.head_hash),
    }
}

/// A server that pins the caller finds the caller's prepared call authentic and in time until
/// its deadline.
pub proof fn law_prepared_call_is_authentic<T: WireValue>(
    envelope: SignedEnvelope<T>,
    identity: IdentityView,
    server: AclView,
    own_operation: Result<Option<OperationId>, WireError>,
    fresh_operation: OperationId,
    method: Result<Token, WireError>,
    body: T,
    sent_at_ms: u64,
    timeout_ms: u64,
    head: Option<SignedJournalHead>,
    client: AclView,
    expected: AuthenticatedPeer,
    observed_at_ms: u64,
)
    requires
        call_outcome(
            Ok(envelope),
            identity,
            server,
            own_operation,
            fresh_operation,
            method,
            body,
            sent_at_ms,
            timeout_ms,
            head,
        ),
        crate::sealing::pins(client, identity),
        crate::identity::expects_peer(expected, client, server.service),
        proper_head(identity, server.service, head),
        sent_at_ms < call_deadline(sent_at_ms, timeout_ms),
        observed_at_ms < call_deadline(sent_at_ms, timeout_ms),
    ensures
        in_time(
            crate::envelope::authentic(envelope, client.uid, expected),
            envelope,
            observed_at_ms,
        ) == Ok::<(), WireErrorView>(()),
{
    let operation_id = call_operation(own_operation->Ok_0, fresh_operation);
    let deadline_ms = call_deadline(sent_at_ms, timeout_ms);
    let unsigned = choose|unsigned: UnsignedEnvelope<T>|
        {
            &&& #[trigger] crate::sealing::sent_by(unsigned, identity, sent_at_ms, deadline_ms)
            &&& crate::sealing::asks(
                unsigned,
                server.service,
                operation_id,
                method->Ok_0@,
                body,
            )
            &&& unsigned.sender_journal_head == head
            &&& crate::sealing::sealing(
                Ok::<SignedEnvelope<T>, WireError>(envelope),
                unsigned,
                identity.seed,
            )
        };
    crate::sealing::law_own_request_verifies(
        envelope,
        identity,
        client,
        expected,
        sent_at_ms,
        deadline_ms,
        server.service,
        operation_id,
        method->Ok_0@,
    );
}

/// A caller that pins the server finds the server's prepared response authentic, an answer to
/// its request and in time until the deadline of that request.
pub proof fn law_prepared_response_is_accepted<T: WireValue, U: WireValue>(
    envelope: SignedEnvelope<Result<T, WireError>>,
    identity: IdentityView,
    request: SignedEnvelope<U>,
    response: Result<T, WireError>,
    sent_at_ms: u64,
    head: Option<SignedJournalHead>,
    server: AclView,
    expected: AuthenticatedPeer,
    observed_at_ms: u64,
)
    requires
        reply_outcome(Ok(envelope), identity, request, response, sent_at_ms, head),
        request.unsigned.kind == EnvelopeKind::Request,
        crate::sealing::pins(server, identity),
        crate::identity::expects_peer(expected, server, request.unsigned.caller_service_id@),
        proper_head(identity, request.unsigned.caller_service_id@, head),
        observed_at_ms < request.unsigned.deadline_ms@,
    ensures
        crate::envelope::answers(envelope.unsigned, request.unsigned),
        in_time(
            crate::envelope::authentic(envelope, server.uid, expected),
            envelope,
            observed_at_ms,
        ) == Ok::<(), WireErrorView>(()),
{
    let deadline_ms = request.unsigned.deadline_ms@;
    let unsigned = choose|unsigned: UnsignedEnvelope<Result<T, WireError>>|
        {
            &&& #[trigger] crate::sealing::sent_by(unsigned, identity, sent_at_ms, deadline_ms)
            &&& crate::sealing::replies(unsigned, request.unsigned, response)
            &&& unsigned.sender_journal_head == head
            &&& crate::sealing::sealing(
                Ok::<SignedEnvelope<Result<T, WireError>>, WireError>(envelope),
                unsigned,
                identity.seed,
            )
        };
    crate::sealing::law_own_response_verifies(
        envelope,
        request,
        identity,
        server,
        expected,
        sent_at_ms,
        deadline_ms,
    );
}

/// A response never extends the deadline of its request, and is sent before it.
pub proof fn law_response_keeps_the_request_deadline<T: WireValue, U>(
    envelope: SignedEnvelope<Result<T, WireError>>,
    identity: IdentityView,
    request: SignedEnvelope<U>,
    response: Result<T, WireError>,
    sent_at_ms: u64,
    head: Option<SignedJournalHead>,
)
    requires
        reply_outcome(Ok(envelope), identity, request, response, sent_at_ms, head),
    ensures
        envelope.unsigned.deadline_ms@ == request.unsigned.deadline_ms@,
        envelope.unsigned.sent_at_ms@ == sent_at_ms,
        sent_at_ms < envelope.unsigned.deadline_ms@,
{
}

} // verus!
