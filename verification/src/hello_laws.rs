//! What is asked of the hellos of a mutual challenge, in terms of their fields.

use vstd::prelude::*;
use vstd::utf8::*;

use crate::codec::canonical;
use crate::envelope_laws::{field_count, says};
use crate::error::{WireErrorCode, WireErrorView};
use crate::hello::{
    answer_check, client_verdict, counter_verdict, hello_bytes, hello_check, hello_wire, selected,
    ClientView, HelloView, ServerView,
};
use crate::identity::{AclView, IdentityView};
use crate::json::JsonView;

verus! {

/// What is signed of a hello is a label and then the canonical form of all of its fields but the
/// signature, which stands empty.
pub proof fn law_hello_signature_covers_every_other_field(hello: HelloView)
    ensures
        ({
            let unsigned = HelloView { signature: Seq::empty(), ..hello };
            let label = encode_utf8("bloom-local-hello/v1"@);
            &&& hello_bytes(hello) is Ok <==> canonical(hello_wire(unsigned)) is Ok
            &&& hello_bytes(hello) matches Ok(bytes) ==> bytes.take(label.len() as int) == label
                && canonical(hello_wire(unsigned)) == Ok::<Seq<u8>, Seq<char>>(
                bytes.skip(label.len() as int),
            )
            &&& hello_bytes(unsigned) == hello_bytes(hello)
        }),
        ({
            let tree = hello_wire(hello);
            &&& field_count(tree) == 6
            &&& says(tree, "service_id"@, JsonView::Text(hello.service))
            &&& says(tree, "boot_epoch"@, JsonView::Text(hello.boot_epoch))
            &&& says(tree, "protocol"@, crate::envelope::version_wire(hello.protocol))
            &&& says(tree, "challenge"@, JsonView::Text(hello.challenge))
            &&& says(tree, "application_key_id"@, JsonView::Text(hello.key_id))
            &&& says(
                tree,
                "signature"@,
                JsonView::Text(crate::base64url::base64url_text(hello.signature)),
            )
        }),
{
    let label = encode_utf8("bloom-local-hello/v1"@);
    let unsigned = HelloView { signature: Seq::empty(), ..hello };
    if let Ok(bytes) = canonical(hello_wire(unsigned)) {
        let message = label + bytes;
        assert(message.take(label.len() as int) =~= label);
        assert(message.skip(label.len() as int) =~= bytes);
    }
    let entries = hello_wire(hello)->Object_0;
    assert(entries[0].0 == "service_id"@);
    assert(entries[1].0 == "boot_epoch"@);
    assert(entries[2].0 == "protocol"@);
    assert(entries[3].0 == "challenge"@);
    assert(entries[4].0 == "application_key_id"@);
    assert(entries[5].0 == "signature"@);
}

/// A hello is accepted from a peer exactly if it speaks a known version, names the peer's service,
/// boot and key, and is signed under the peer's key.
pub proof fn law_hello_is_accepted_exactly(hello: HelloView, acl: AclView)
    ensures
        hello_check(hello, acl) is Ok <==> {
            &&& hello.protocol.major == 1
            &&& hello.protocol.minor <= 1
            &&& hello.service == acl.service
            &&& hello.boot_epoch == acl.boot_epoch
            &&& hello.key_id == acl.key_id
            &&& crate::crypto::ed25519_key_accepted(acl.public_key)
            &&& hello.signature.len() == 64
            &&& hello_bytes(hello) matches Ok(bytes)
            &&& crate::crypto::ed25519_verifies(acl.public_key, bytes, hello.signature)
        },
        hello.protocol.major != 1 || hello.protocol.minor > 1 ==> hello_check(hello, acl)->Err_0.code
            == WireErrorCode::UnsupportedVersion,
        hello.protocol.major == 1 && hello.protocol.minor <= 1 && hello_bytes(hello) is Ok
            && hello_check(hello, acl) is Err ==> hello_check(hello, acl)->Err_0.code
            == WireErrorCode::UnauthenticatedPeer,
{
}

/// A hello that was signed names its signer and the challenge, in the current version.
pub proof fn law_signed_hello_says_what_was_given(
    hello: HelloView,
    identity: IdentityView,
    challenge: Seq<char>,
)
    requires
        crate::hello::own_hello(hello, identity, challenge),
    ensures
        hello.service == identity.service,
        hello.boot_epoch == identity.boot_epoch,
        hello.key_id == identity.key_id,
        hello.protocol.major == 1,
        hello.protocol.minor == 1,
        hello.challenge == challenge,
        hello.signature.len() == 64,
        hello_bytes(hello) matches Ok(bytes) && crate::crypto::ed25519_verifies(
            crate::crypto::ed25519_public(identity.seed),
            bytes,
            hello.signature,
        ),
{
}

/// A peer runs under the observed user and the hello names its service, boot and key.
pub open spec fn is_named(peer: AclView, observed_uid: u32, hello: HelloView) -> bool {
    peer.uid == observed_uid && peer.service == hello.service && peer.boot_epoch
        == hello.boot_epoch && peer.key_id == hello.key_id
}

/// Of several peers the first one counts that runs under the observed user and that the hello
/// names.
pub proof fn law_first_named_peer_is_selected(
    peers: Seq<AclView>,
    observed_uid: u32,
    hello: HelloView,
) -> (at: int)
    ensures
        selected(peers, observed_uid, hello) is None <==> forall|i: int|
            0 <= i < peers.len() ==> !is_named(#[trigger] peers[i], observed_uid, hello),
        selected(peers, observed_uid, hello) matches Some(peer) ==> 0 <= at < peers.len()
            && peers[at] == peer && is_named(peer, observed_uid, hello) && forall|i: int|
            0 <= i < at ==> !is_named(#[trigger] peers[i], observed_uid, hello),
    decreases peers.len(),
{
    if peers.len() == 0 {
        0
    } else {
        let before = peers.drop_last();
        let n = peers.len() - 1;
        let at = law_first_named_peer_is_selected(before, observed_uid, hello);
        assert forall|i: int| 0 <= i < n implies #[trigger] peers[i] == before[i] by {}
        if selected(before, observed_uid, hello) is Some {
            assert(before[at] == peers[at]);
            at
        } else {
            assert forall|i: int| 0 <= i < n implies !is_named(
                #[trigger] peers[i],
                observed_uid,
                hello,
            ) by {
                assert(before[i] == peers[i]);
            }
            n
        }
    }
}

/// Where several peers are possible, the server accepts an answer exactly if its first named peer
/// signed the very challenge that was sent. Where one peer alone is expected, it is that one.
pub proof fn law_answer_is_accepted_exactly(server: ServerView, hello: HelloView, peer: AclView)
    ensures
        !server.only ==> (answer_check(server, hello) == Ok::<AclView, WireErrorView>(peer) <==> (
        exists|at: int|
            0 <= at < server.peers.len() && #[trigger] server.peers[at] == peer && is_named(
                peer,
                server.observed_uid,
                hello,
            ) && forall|i: int|
                0 <= i < at ==> !is_named(#[trigger] server.peers[i], server.observed_uid, hello))
            && hello_check(hello, peer) is Ok && hello.challenge == server.sent),
        server.only && server.peers.len() > 0 ==> (answer_check(server, hello) == Ok::<
            AclView,
            WireErrorView,
        >(peer) <==> peer == server.peers[0] && hello_check(hello, peer) is Ok && hello.challenge
            == server.sent),
        answer_check(server, hello) matches Err(e) ==> e.code == WireErrorCode::UnauthenticatedPeer
            || (exists|i: int|
            0 <= i < server.peers.len() && hello_check(hello, #[trigger] server.peers[i]) == Err::<
                (),
                WireErrorView,
            >(e)),
{
    let at = law_first_named_peer_is_selected(server.peers, server.observed_uid, hello);
    if !server.only {
        if exists|k: int|
            0 <= k < server.peers.len() && #[trigger] server.peers[k] == peer && is_named(
                peer,
                server.observed_uid,
                hello,
            ) && forall|i: int|
                0 <= i < k ==> !is_named(#[trigger] server.peers[i], server.observed_uid, hello) {
            let k = choose|k: int|
                0 <= k < server.peers.len() && #[trigger] server.peers[k] == peer && is_named(
                    peer,
                    server.observed_uid,
                    hello,
                ) && forall|i: int|
                    0 <= i < k ==> !is_named(
                        #[trigger] server.peers[i],
                        server.observed_uid,
                        hello,
                    );
            assert(is_named(server.peers[k], server.observed_uid, hello));
            if at < k {
                assert(!is_named(server.peers[at], server.observed_uid, hello));
            } else if k < at {
                assert(!is_named(server.peers[k], server.observed_uid, hello));
            }
        }
    }
    if answer_check(server, hello) is Err {
        if server.only && server.peers.len() > 0 {
            assert(server.peers[0] == server.peers[0]);
        } else if selected(server.peers, server.observed_uid, hello) is Some {
            assert(server.peers[at] == selected(
                server.peers,
                server.observed_uid,
                hello,
            )->Some_0);
        }
    }
}

/// The client accepts an answer exactly if the server signed the very challenge that the client
/// sent; an answer before any was sent is refused.
pub proof fn law_client_accepts_its_own_challenge_alone(client: ClientView, hello: HelloView)
    ensures
        client_verdict(client, hello) is Ok <==> hello_check(hello, client.server) is Ok && (
        client.sent matches Some(challenge) && challenge == hello.challenge),
        hello_check(hello, client.server) is Ok && client_verdict(client, hello) is Err
            ==> client_verdict(client, hello)->Err_0.code == WireErrorCode::UnauthenticatedPeer,
        hello_check(hello, client.server) is Err ==> client_verdict(client, hello) == hello_check(
            hello,
            client.server,
        ),
{
}

/// The server answers a challenge only of the peer that has answered its own.
pub proof fn law_server_answers_only_who_answered(server: ServerView, hello: HelloView)
    ensures
        counter_verdict(server, hello) is Ok <==> (server.client matches Some(client) && hello_check(
            hello,
            client,
        ) is Ok),
        server.client is None ==> counter_verdict(server, hello)->Err_0.code
            == WireErrorCode::UnauthenticatedPeer,
{
}

/// A user is accepted exactly if it is the one that is expected, or one of those that are.
pub proof fn law_users_are_accepted_exactly(observed: u32, expected: u32, peers: Seq<AclView>)
    ensures
        crate::hello::uid_check(observed, expected) is Ok <==> observed == expected,
        crate::hello::uid_check(observed, expected) matches Err(e) ==> e.code
            == WireErrorCode::UnauthenticatedPeer,
        crate::hello::user_known(peers, observed) <==> exists|i: int|
            0 <= i < peers.len() && (#[trigger] peers[i]).uid == observed,
{
}

/// Drawn bytes are written as two lowercase digits each; where none were drawn the service is
/// unavailable.
pub proof fn law_drawn_bytes_are_written_whole(drawn: Option<[u8; 32]>)
    ensures
        crate::hello::drawn_text(drawn) is Ok <==> drawn is Some,
        drawn matches Some(bytes) ==> (crate::hello::drawn_text(drawn) matches Ok(text)
            && text.len() == 64 && crate::hex_text::is_lower_hex_text(text, 64)
            && crate::hex_text::hex_bytes(text) == bytes@),
        drawn is None ==> crate::hello::drawn_text(drawn)->Err_0.code
            == WireErrorCode::ServiceUnavailable,
{
    if let Some(bytes) = drawn {
        crate::hex_text::law_hex_decodes_what_it_encodes(bytes@);
    }
}

} // verus!
