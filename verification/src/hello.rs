//! The mutual challenge with which both ends of a local connection authenticate each other.

use vstd::prelude::*;
use vstd::string::*;
use vstd::utf8::*;

use crate::audit::{unauthenticated, unauthenticated_error};
use crate::base64url::Base64UrlBytes;
use crate::bytes::array64;
use crate::codec::{malformed, malformed_error};
use crate::crypto::{accepts_key, verifies};
use crate::envelope::ProtocolVersion;
use crate::error::{WireError, WireErrorView};
use crate::identity::{AclView, IdentityView, LocalIdentity, PeerAcl};
use crate::ids::{BootEpoch, Digest32, OperationId, Token};
use crate::json::{Json, JsonView};
use crate::sealing::unavailable;
use crate::wire::{canonical_wire, json_field, new_object, text_field, WireForm, WireValue};

verus! {

#[derive(Debug, PartialEq, Eq)]
pub struct HelloChallenge {
    pub service_id: Token,
    pub boot_epoch: BootEpoch,
    pub protocol: ProtocolVersion,
    pub challenge: Digest32,
    pub application_key_id: Token,
    pub signature: Base64UrlBytes,
}

/// What a [`HelloChallenge`] says.
pub struct HelloView {
    pub service: Seq<char>,
    pub boot_epoch: Seq<char>,
    pub protocol: ProtocolVersion,
    pub challenge: Seq<char>,
    pub key_id: Seq<char>,
    pub signature: Seq<u8>,
}

impl View for HelloChallenge {
    type V = HelloView;

    open spec fn view(&self) -> HelloView {
        HelloView {
            service: self.service_id@,
            boot_epoch: self.boot_epoch@,
            protocol: self.protocol,
            challenge: self.challenge@,
            key_id: self.application_key_id@,
            signature: self.signature@,
        }
    }
}

impl Clone for HelloChallenge {
    fn clone(&self) -> (r: Self)
        ensures
            r@ == self@,
    {
        HelloChallenge {
            service_id: self.service_id.clone(),
            boot_epoch: self.boot_epoch.clone(),
            protocol: self.protocol,
            challenge: self.challenge.clone(),
            application_key_id: self.application_key_id.clone(),
            signature: self.signature.clone(),
        }
    }
}

/// The JSON form of a hello.
pub open spec fn hello_wire(hello: HelloView) -> JsonView {
    let o = crate::wire::no_fields();
    let o = crate::wire::with_field(o, "service_id"@, JsonView::Text(hello.service));
    let o = crate::wire::with_field(o, "boot_epoch"@, JsonView::Text(hello.boot_epoch));
    let o = crate::wire::with_field(
        o,
        "protocol"@,
        crate::envelope::version_wire(hello.protocol),
    );
    let o = crate::wire::with_field(o, "challenge"@, JsonView::Text(hello.challenge));
    let o = crate::wire::with_field(o, "application_key_id"@, JsonView::Text(hello.key_id));
    crate::wire::with_field(
        o,
        "signature"@,
        JsonView::Text(crate::base64url::base64url_text(hello.signature)),
    )
}

impl WireValue for HelloChallenge {
    open spec fn wire(&self) -> WireForm {
        Ok(hello_wire(self@))
    }

    fn to_json(&self) -> (r: Result<Json, String>) {
        let mut entries = new_object();
        text_field(&mut entries, "service_id", self.service_id.as_str());
        text_field(&mut entries, "boot_epoch", self.boot_epoch.as_str());
        if let Ok(version) = self.protocol.to_json() {
            json_field(&mut entries, "protocol", version);
        }
        text_field(&mut entries, "challenge", self.challenge.as_str());
        text_field(&mut entries, "application_key_id", self.application_key_id.as_str());
        text_field(&mut entries, "signature", self.signature.encoded());
        Ok(Json::Object(entries))
    }
}

proof fn lemma_hello_wire_is_exact(hello: HelloView)
    ensures
        crate::codec::exact_numbers(hello_wire(hello)),
{
    crate::envelope::lemma_version_wire_is_exact(hello.protocol);
    let o = crate::wire::no_fields();
    let v = JsonView::Text(hello.service);
    crate::wire::lemma_field_keeps_numbers(o, "service_id"@, v);
    let o = crate::wire::with_field(o, "service_id"@, v);
    let v = JsonView::Text(hello.boot_epoch);
    crate::wire::lemma_field_keeps_numbers(o, "boot_epoch"@, v);
    let o = crate::wire::with_field(o, "boot_epoch"@, v);
    let v = crate::envelope::version_wire(hello.protocol);
    crate::wire::lemma_field_keeps_numbers(o, "protocol"@, v);
    let o = crate::wire::with_field(o, "protocol"@, v);
    let v = JsonView::Text(hello.challenge);
    crate::wire::lemma_field_keeps_numbers(o, "challenge"@, v);
    let o = crate::wire::with_field(o, "challenge"@, v);
    let v = JsonView::Text(hello.key_id);
    crate::wire::lemma_field_keeps_numbers(o, "application_key_id"@, v);
    let o = crate::wire::with_field(o, "application_key_id"@, v);
    let v = JsonView::Text(crate::base64url::base64url_text(hello.signature));
    crate::wire::lemma_field_keeps_numbers(o, "signature"@, v);
}

/// The bytes that a hello's signature covers: the hello without its signature, under a domain
/// label.
pub open spec fn hello_bytes(hello: HelloView) -> Result<Seq<u8>, WireErrorView> {
    match crate::codec::canonical(hello_wire(HelloView { signature: Seq::empty(), ..hello })) {
        Ok(bytes) => Ok(encode_utf8("bloom-local-hello/v1"@) + bytes),
        Err(text) => Err(malformed_error(text)),
    }
}

/// The bytes that a hello's signature covers.
pub fn hello_message(hello: &HelloChallenge) -> (r: Result<Vec<u8>, WireError>)
    ensures
        crate::codec::frame_result(r) == hello_bytes(hello@),
        r is Ok,
{
    let unsigned = HelloChallenge {
        service_id: hello.service_id.clone(),
        boot_epoch: hello.boot_epoch.clone(),
        protocol: hello.protocol,
        challenge: hello.challenge.clone(),
        application_key_id: hello.application_key_id.clone(),
        signature: Base64UrlBytes::from_bytes(&[]),
    };
    proof {
        assert(unsigned@.signature =~= Seq::empty());
        lemma_hello_wire_is_exact(unsigned@);
    }
    match canonical_wire(&unsigned) {
        Ok(bytes) => {
            let mut message: Vec<u8> = Vec::new();
            message.extend_from_slice("bloom-local-hello/v1".as_bytes());
            message.extend_from_slice(bytes.as_slice());
            assert(message@ =~= encode_utf8("bloom-local-hello/v1"@) + bytes@);
            Ok(message)
        },
        Err(text) => Err(malformed(text.as_str())),
    }
}

/// A hello that an identity signed over a challenge.
pub open spec fn own_hello(hello: HelloView, identity: IdentityView, challenge: Seq<char>) -> bool {
    &&& hello.service == identity.service
    &&& hello.boot_epoch == identity.boot_epoch
    &&& hello.protocol.major == crate::envelope::PROTOCOL_MAJOR
    &&& hello.protocol.minor == crate::envelope::PROTOCOL_MINOR_MAX
    &&& hello.challenge == challenge
    &&& hello.key_id == identity.key_id
    &&& hello_bytes(hello) matches Ok(bytes) && crate::crypto::signed_by(
        identity.seed,
        bytes,
        hello.signature,
    )
}

/// Signs a challenge.
pub fn signed_hello(identity: &LocalIdentity, challenge: Digest32) -> (r: Result<
    HelloChallenge,
    WireError,
>)
    ensures
        r matches Ok(hello) && own_hello(hello@, identity@, challenge@),
{
    let unsigned = HelloChallenge {
        service_id: identity.service_id.clone(),
        boot_epoch: identity.boot_epoch.clone(),
        protocol: ProtocolVersion::current(),
        challenge,
        application_key_id: identity.application_key_id.clone(),
        signature: Base64UrlBytes::from_bytes(&[]),
    };
    let message = match hello_message(&unsigned) {
        Ok(message) => message,
        Err(error) => {
            return Err(error);
        },
    };
    let signature = Base64UrlBytes::from_bytes(
        identity.signing_key.sign(message.as_slice()).as_slice(),
    );
    let hello = HelloChallenge {
        service_id: unsigned.service_id,
        boot_epoch: unsigned.boot_epoch,
        protocol: unsigned.protocol,
        challenge: unsigned.challenge,
        application_key_id: unsigned.application_key_id,
        signature,
    };
    assert(hello_bytes(hello@) == hello_bytes(unsigned@));
    Ok(hello)
}

/// Whether a hello comes from the peer that the ACL pins.
pub open spec fn hello_check(hello: HelloView, acl: AclView) -> Result<(), WireErrorView> {
    match crate::envelope::version_check(hello.protocol) {
        Err(e) => Err(e),
        Ok(_) => if hello.service != acl.service || hello.boot_epoch != acl.boot_epoch
            || hello.key_id != acl.key_id {
            Err(unauthenticated_error("hello service, boot epoch, or app key mismatch"@))
        } else if !crate::crypto::ed25519_key_accepted(acl.public_key) {
            Err(unauthenticated_error("pinned application public key is invalid"@))
        } else if hello.signature.len() != 64 {
            Err(unauthenticated_error("hello signature must contain 64 bytes"@))
        } else {
            match hello_bytes(hello) {
                Err(e) => Err(e),
                Ok(bytes) => if !crate::crypto::ed25519_verifies(
                    acl.public_key,
                    bytes,
                    hello.signature,
                ) {
                    Err(unauthenticated_error("hello application signature is invalid"@))
                } else {
                    Ok(())
                },
            }
        },
    }
}

/// Accepts a hello that comes from the peer that the ACL pins.
pub fn verify_hello(hello: &HelloChallenge, expected: &PeerAcl) -> (r: Result<(), WireError>)
    ensures
        crate::error::outcome(r) == hello_check(hello@, expected@),
{
    if let Err(error) = hello.protocol.validate() {
        return Err(error);
    }
    if !hello.service_id.same_as(&expected.service_id) || !hello.boot_epoch.same_as(
        &expected.boot_epoch,
    ) || !hello.application_key_id.same_as(&expected.application_key_id) {
        return Err(unauthenticated("hello service, boot epoch, or app key mismatch"));
    }
    if !accepts_key(&expected.application_public_key) {
        return Err(unauthenticated("pinned application public key is invalid"));
    }
    let signature = match array64(hello.signature.decode().as_slice()) {
        Some(signature) => signature,
        None => {
            return Err(unauthenticated("hello signature must contain 64 bytes"));
        },
    };
    let message = match hello_message(hello) {
        Ok(message) => message,
        Err(error) => {
            return Err(error);
        },
    };
    if !verifies(&expected.application_public_key, message.as_slice(), &signature) {
        return Err(unauthenticated("hello application signature is invalid"));
    }
    Ok(())
}

/// A hello that an identity signed is accepted by whoever pins the identity.
pub proof fn law_own_hello_verifies(
    hello: HelloView,
    identity: IdentityView,
    challenge: Seq<char>,
    acl: AclView,
)
    requires
        own_hello(hello, identity, challenge),
        crate::sealing::pins(acl, identity),
    ensures
        hello_check(hello, acl) == Ok::<(), WireErrorView>(()),
{
}

/// `OsRng` of the `rand` crate, through `try_fill_bytes`: 32 bytes from the operating system, or
/// `None` where it gives none. Nothing is said of the bytes.
#[verifier::external_body]
fn random_bytes() -> (r: Option<[u8; 32]>) {
    let mut bytes = [0u8; 32];
    match rand::RngCore::try_fill_bytes(&mut rand::rngs::OsRng, &mut bytes) {
        Ok(()) => Some(bytes),
        Err(_) => None,
    }
}

/// The digits of 32 drawn bytes, or the error where none could be drawn.
pub open spec fn drawn_text(drawn: Option<[u8; 32]>) -> Result<Seq<char>, WireErrorView> {
    match drawn {
        Some(bytes) => Ok(crate::hex_text::hex_chars(bytes@)),
        None => Err(
            crate::sealing::unavailable_error("operating system random numbers are unavailable"@),
        ),
    }
}

/// The challenge that drawn bytes make.
pub fn digest_of(drawn: Option<[u8; 32]>) -> (r: Result<Digest32, WireError>)
    ensures
        match r {
            Ok(digest) => drawn_text(drawn) == Ok::<Seq<char>, WireErrorView>(digest@),
            Err(e) => drawn_text(drawn) == Err::<Seq<char>, WireErrorView>(e@),
        },
{
    match drawn {
        Some(bytes) => Ok(Digest32::from_bytes(bytes)),
        None => Err(unavailable("operating system random numbers are unavailable")),
    }
}

/// The operation ID that drawn bytes make.
pub fn operation_id_of(drawn: Option<[u8; 32]>) -> (r: Result<OperationId, WireError>)
    ensures
        match r {
            Ok(id) => drawn_text(drawn) == Ok::<Seq<char>, WireErrorView>(id@),
            Err(e) => drawn_text(drawn) == Err::<Seq<char>, WireErrorView>(e@),
        },
{
    match drawn {
        Some(bytes) => Ok(OperationId::from_bytes(bytes)),
        None => Err(unavailable("operating system random numbers are unavailable")),
    }
}

/// A fresh challenge.
pub fn random_digest() -> (r: Result<Digest32, WireError>)
    ensures
        exists|drawn: Option<[u8; 32]>|
            match r {
                Ok(digest) => #[trigger] drawn_text(drawn) == Ok::<Seq<char>, WireErrorView>(
                    digest@,
                ),
                Err(e) => drawn_text(drawn) == Err::<Seq<char>, WireErrorView>(e@),
            },
{
    let drawn = random_bytes();
    digest_of(drawn)
}

/// A fresh operation ID.
pub fn random_operation_id() -> (r: Result<OperationId, WireError>)
    ensures
        drawn_operation(r),
{
    let drawn = random_bytes();
    operation_id_of(drawn)
}

/// An operation ID of some drawn bytes, or the error where none could be drawn.
pub open spec fn drawn_operation(r: Result<OperationId, WireError>) -> bool {
    exists|drawn: Option<[u8; 32]>|
        match r {
            Ok(id) => #[trigger] drawn_text(drawn) == Ok::<Seq<char>, WireErrorView>(id@),
            Err(e) => drawn_text(drawn) == Err::<Seq<char>, WireErrorView>(e@),
        }
}

/// Accepts the user that the operating system reports for the other end.
pub fn require_peer_uid(observed: u32, expected: u32) -> (r: Result<(), WireError>)
    ensures
        crate::error::outcome(r) == uid_check(observed, expected),
{
    if observed != expected {
        return Err(unauthenticated("OS peer effective UID is not allowed"));
    }
    Ok(())
}

pub open spec fn uid_check(observed: u32, expected: u32) -> Result<(), WireErrorView> {
    if observed != expected {
        Err(unauthenticated_error("OS peer effective UID is not allowed"@))
    } else {
        Ok(())
    }
}

/// The client's end of the challenge: it answers the server's challenge, sends its own, and
/// waits for the answer to it.
pub struct ClientHandshake {
    identity: LocalIdentity,
    server: PeerAcl,
    sent: Option<Digest32>,
}

/// What a [`ClientHandshake`] says.
pub struct ClientView {
    pub identity: IdentityView,
    pub server: AclView,
    /// The challenge that the server must answer, once it was sent.
    pub sent: Option<Seq<char>>,
}

pub open spec fn digest_view(digest: Option<Digest32>) -> Option<Seq<char>> {
    match digest {
        Some(digest) => Some(digest@),
        None => None,
    }
}

impl View for ClientHandshake {
    type V = ClientView;

    closed spec fn view(&self) -> ClientView {
        ClientView {
            identity: self.identity@,
            server: self.server@,
            sent: digest_view(self.sent),
        }
    }
}

/// Whether the server answered the client's own challenge.
pub open spec fn client_verdict(client: ClientView, hello: HelloView) -> Result<(), WireErrorView> {
    match hello_check(hello, client.server) {
        Err(e) => Err(e),
        Ok(_) => if client.sent == Some(hello.challenge) {
            Ok(())
        } else {
            Err(unauthenticated_error("Broker did not answer Machine's fresh challenge"@))
        },
    }
}

impl ClientHandshake {
    /// Begins with a server whose user the operating system reports.
    pub fn start(identity: &LocalIdentity, server: &PeerAcl, observed_uid: u32) -> (r: Result<
        Self,
        WireError,
    >)
        ensures
            crate::error::outcome(r) == uid_check(observed_uid, server@.uid),
            r matches Ok(client) ==> client@ == (ClientView {
                identity: identity@,
                server: server@,
                sent: None,
            }),
    {
        if let Err(error) = require_peer_uid(observed_uid, server.effective_uid) {
            return Err(error);
        }
        Ok(ClientHandshake { identity: identity.clone(), server: server.clone(), sent: None })
    }

    /// Takes the server's challenge and a fresh one of its own, and gives the two hellos to send:
    /// the answer, then the client's own challenge.
    pub fn take_challenge(&mut self, hello: &HelloChallenge, fresh: Digest32) -> (r: Result<
        (HelloChallenge, HelloChallenge),
        WireError,
    >)
        ensures
            crate::error::outcome(r) == hello_check(hello@, old(self)@.server),
            match r {
                Ok(pair) => own_hello(pair.0@, old(self)@.identity, hello@.challenge) && own_hello(
                    pair.1@,
                    old(self)@.identity,
                    fresh@,
                ) && final(self)@ == (ClientView { sent: Some(fresh@), ..old(self)@ }),
                Err(_) => final(self)@ == old(self)@,
            },
    {
        if let Err(error) = verify_hello(hello, &self.server) {
            return Err(error);
        }
        let answer = match signed_hello(&self.identity, hello.challenge.clone()) {
            Ok(answer) => answer,
            Err(error) => {
                return Err(error);
            },
        };
        let challenge = match signed_hello(&self.identity, fresh.clone()) {
            Ok(challenge) => challenge,
            Err(error) => {
                return Err(error);
            },
        };
        self.sent = Some(fresh);
        Ok((answer, challenge))
    }

    /// Takes the server's answer: it must be signed over the client's own fresh challenge.
    pub fn take_answer(&self, hello: &HelloChallenge) -> (r: Result<(), WireError>)
        ensures
            crate::error::outcome(r) == client_verdict(self@, hello@),
            crate::error::outcome(r) == (match hello_check(hello@, self@.server) {
                Err(e) => Err(e),
                Ok(_) => if self@.sent != Some(hello@.challenge) {
                    Err(
                        unauthenticated_error("Broker did not answer Machine's fresh challenge"@),
                    )
                } else {
                    Ok(())
                },
            }),
    {
        if let Err(error) = verify_hello(hello, &self.server) {
            return Err(error);
        }
        let answered = match &self.sent {
            Some(sent) => sent.same_as(&hello.challenge),
            None => false,
        };
        if !answered {
            return Err(unauthenticated("Broker did not answer Machine's fresh challenge"));
        }
        Ok(())
    }
}

/// The first peer of a list that runs under a user and is named by a hello.
pub open spec fn selected(
    peers: Seq<AclView>,
    observed_uid: u32,
    hello: HelloView,
) -> Option<AclView>
    decreases peers.len(),
{
    if peers.len() == 0 {
        None
    } else {
        match selected(peers.drop_last(), observed_uid, hello) {
            Some(peer) => Some(peer),
            None => if candidate(peers.last(), observed_uid, hello) {
                Some(peers.last())
            } else {
                None
            },
        }
    }
}

/// A peer runs under the user and is named by the hello.
pub open spec fn candidate(peer: AclView, observed_uid: u32, hello: HelloView) -> bool {
    &&& peer.uid == observed_uid
    &&& peer.service == hello.service
    &&& peer.boot_epoch == hello.boot_epoch
    &&& peer.key_id == hello.key_id
}

/// Some peer runs under the user.
pub open spec fn user_known(peers: Seq<AclView>, observed_uid: u32) -> bool {
    exists|i: int| 0 <= i < peers.len() && (#[trigger] peers[i]).uid == observed_uid
}

/// Finds the first peer that runs under a user and is named by a hello.
fn select<'a>(peers: &'a Vec<PeerAcl>, observed_uid: u32, hello: &HelloChallenge) -> (r: Option<
    &'a PeerAcl,
>)
    ensures
        match r {
            Some(peer) => selected(
                crate::checkpoint::views(peers@),
                observed_uid,
                hello@,
            ) == Some(peer@),
            None => selected(crate::checkpoint::views(peers@), observed_uid, hello@) is None,
        },
{
    let ghost all = crate::checkpoint::views(peers@);
    let mut i: usize = 0;
    assert(all.take(0) =~= Seq::<AclView>::empty());
    while i < peers.len()
        invariant
            all == crate::checkpoint::views(peers@),
            i <= peers@.len(),
            selected(all.take(i as int), observed_uid, hello@) is None,
        decreases peers@.len() - i,
    {
        let peer = &peers[i];
        proof {
            assert(all.take(i + 1).drop_last() =~= all.take(i as int));
            assert(all.take(i + 1).last() == peer@);
        }
        if peer.effective_uid == observed_uid && peer.service_id.same_as(&hello.service_id)
            && peer.boot_epoch.same_as(&hello.boot_epoch) && peer.application_key_id.same_as(
            &hello.application_key_id,
        ) {
            proof {
                lemma_selected_first(all, observed_uid, hello@, i + 1);
            }
            return Some(peer);
        }
        i = i + 1;
    }
    assert(all.take(i as int) =~= all);
    None
}

/// A peer selected among the first ones is selected among all.
proof fn lemma_selected_first(peers: Seq<AclView>, observed_uid: u32, hello: HelloView, n: int)
    requires
        0 <= n <= peers.len(),
        selected(peers.take(n), observed_uid, hello) is Some,
    ensures
        selected(peers, observed_uid, hello) == selected(peers.take(n), observed_uid, hello),
    decreases peers.len(),
{
    if n < peers.len() {
        assert(peers.drop_last().take(n) =~= peers.take(n));
        lemma_selected_first(peers.drop_last(), observed_uid, hello, n);
    } else {
        assert(peers.take(n) =~= peers);
    }
}

/// The server's end of the challenge: it sends a challenge, takes the answer, and answers the
/// client's own challenge. OS credentials narrow the pinned peers first; the signed hello then
/// selects exactly one of them.
pub struct ServerHandshake {
    identity: LocalIdentity,
    only: bool,
    peers: Vec<PeerAcl>,
    observed_uid: u32,
    sent: Digest32,
    client: Option<PeerAcl>,
}

/// What a [`ServerHandshake`] says.
pub struct ServerView {
    pub identity: IdentityView,
    /// Whether the first peer alone is expected, whatever a hello names.
    pub only: bool,
    pub peers: Seq<AclView>,
    pub observed_uid: u32,
    pub sent: Seq<char>,
    /// The peer that answered, once it did.
    pub client: Option<AclView>,
}

impl View for ServerHandshake {
    type V = ServerView;

    closed spec fn view(&self) -> ServerView {
        ServerView {
            identity: self.identity@,
            only: self.only,
            peers: crate::checkpoint::views(self.peers@),
            observed_uid: self.observed_uid,
            sent: self.sent@,
            client: match self.client {
                Some(client) => Some(client@),
                None => None,
            },
        }
    }
}

/// The peer that an answer must come from.
pub open spec fn expected_peer(server: ServerView, hello: HelloView) -> Option<AclView> {
    if server.only && server.peers.len() > 0 {
        Some(server.peers[0])
    } else {
        selected(server.peers, server.observed_uid, hello)
    }
}

/// Whether an answer comes from a pinned peer under the observed user, over the challenge that
/// was sent.
pub open spec fn answer_check(server: ServerView, hello: HelloView) -> Result<
    AclView,
    WireErrorView,
> {
    match expected_peer(server, hello) {
        None => Err(unauthenticated_error("hello identity is not in the pinned peer set"@)),
        Some(peer) => match hello_check(hello, peer) {
            Err(e) => Err(e),
            Ok(_) => if hello.challenge != server.sent {
                Err(unauthenticated_error("client did not answer server's fresh challenge"@))
            } else {
                Ok(peer)
            },
        },
    }
}

/// Whether the peer that answered challenges in turn.
pub open spec fn counter_verdict(server: ServerView, hello: HelloView) -> Result<
    (),
    WireErrorView,
> {
    match server.client {
        None => Err(
            unauthenticated_error("client did not answer server's fresh challenge"@),
        ),
        Some(client) => hello_check(hello, client),
    }
}

impl ServerHandshake {
    /// Begins with the one client that is expected, under the user that the operating system
    /// reports, with a fresh challenge, and gives the hello to send.
    pub fn start(
        identity: &LocalIdentity,
        client: &PeerAcl,
        observed_uid: u32,
        fresh: Digest32,
    ) -> (r: Result<(Self, HelloChallenge), WireError>)
        ensures
            match r {
                Ok(pair) => observed_uid == client@.uid && own_hello(
                    pair.1@,
                    identity@,
                    fresh@,
                ) && pair.0@ == (ServerView {
                    identity: identity@,
                    only: true,
                    peers: seq![client@],
                    observed_uid,
                    sent: fresh@,
                    client: None,
                }),
                Err(e) => uid_check(observed_uid, client@.uid) == Err::<(), WireErrorView>(e@),
            },
    {
        if let Err(error) = require_peer_uid(observed_uid, client.effective_uid) {
            return Err(error);
        }
        let hello = match signed_hello(identity, fresh.clone()) {
            Ok(hello) => hello,
            Err(error) => {
                return Err(error);
            },
        };
        let mut peers: Vec<PeerAcl> = Vec::new();
        peers.push(client.clone());
        assert(crate::checkpoint::views(peers@) =~= seq![client@]);
        Ok(
            (
                ServerHandshake {
                    identity: identity.clone(),
                    only: true,
                    peers,
                    observed_uid,
                    sent: fresh,
                    client: None,
                },
                hello,
            ),
        )
    }

    /// Begins with one member of a closed, manifest-pinned peer set, under the user that the
    /// operating system reports, with a fresh challenge, and gives the hello to send.
    pub fn start_one_of(
        identity: &LocalIdentity,
        peers: Vec<PeerAcl>,
        observed_uid: u32,
        fresh: Digest32,
    ) -> (r: Result<(Self, HelloChallenge), WireError>)
        ensures
            match r {
                Ok(pair) => user_known(crate::checkpoint::views(peers@), observed_uid)
                    && own_hello(pair.1@, identity@, fresh@) && pair.0@ == (ServerView {
                    identity: identity@,
                    only: false,
                    peers: crate::checkpoint::views(peers@),
                    observed_uid,
                    sent: fresh@,
                    client: None,
                }),
                Err(e) => !user_known(crate::checkpoint::views(peers@), observed_uid) && e@
                    == unauthenticated_error("OS peer effective UID is not allowed"@),
            },
    {
        let ghost all = crate::checkpoint::views(peers@);
        let mut known = false;
        let mut i: usize = 0;
        while i < peers.len() && !known
            invariant
                all == crate::checkpoint::views(peers@),
                i <= peers@.len(),
                known ==> user_known(all, observed_uid),
                !known ==> forall|k: int| 0 <= k < i ==> (#[trigger] all[k]).uid != observed_uid,
            decreases peers@.len() - i,
        {
            if peers[i].effective_uid == observed_uid {
                assert(all[i as int].uid == observed_uid);
                known = true;
            }
            i = i + 1;
        }
        if !known {
            return Err(unauthenticated("OS peer effective UID is not allowed"));
        }
        let hello = match signed_hello(identity, fresh.clone()) {
            Ok(hello) => hello,
            Err(error) => {
                return Err(error);
            },
        };
        Ok(
            (
                ServerHandshake {
                    identity: identity.clone(),
                    only: false,
                    peers,
                    observed_uid,
                    sent: fresh,
                    client: None,
                },
                hello,
            ),
        )
    }

    /// Takes the client's answer.
    pub fn take_answer(&mut self, hello: &HelloChallenge) -> (r: Result<(), WireError>)
        ensures
            match answer_check(old(self)@, hello@) {
                Ok(peer) => r is Ok && final(self)@ == (ServerView {
                    client: Some(peer),
                    ..old(self)@
                }),
                Err(e) => r matches Err(error) && error@ == e && final(self)@ == old(self)@,
            },
    {
        let found = if self.only && self.peers.len() > 0 {
            assert(self@.peers[0] == self.peers@[0]@);
            Some(&self.peers[0])
        } else {
            select(&self.peers, self.observed_uid, hello)
        };
        let peer = match found {
            Some(peer) => peer.clone(),
            None => {
                return Err(unauthenticated("hello identity is not in the pinned peer set"));
            },
        };
        if let Err(error) = verify_hello(hello, &peer) {
            return Err(error);
        }
        if !hello.challenge.same_as(&self.sent) {
            return Err(unauthenticated("client did not answer server's fresh challenge"));
        }
        self.client = Some(peer);
        Ok(())
    }

    /// Takes the client's own challenge from the peer that answered, and gives the answer to
    /// send together with the peer that is now authenticated.
    pub fn take_challenge(&self, hello: &HelloChallenge) -> (r: Result<
        (HelloChallenge, PeerAcl),
        WireError,
    >)
        ensures
            match self@.client {
                None => r matches Err(error) && error@ == unauthenticated_error(
                    "client did not answer server's fresh challenge"@,
                ),
                Some(client) => match hello_check(hello@, client) {
                    Err(e) => r matches Err(error) && error@ == e,
                    Ok(_) => r matches Ok(pair) && own_hello(
                        pair.0@,
                        self@.identity,
                        hello@.challenge,
                    ) && pair.1@ == client,
                },
            },
            crate::error::outcome(r) == counter_verdict(self@, hello@),
    {
        let client = match &self.client {
            Some(client) => client,
            None => {
                return Err(unauthenticated("client did not answer server's fresh challenge"));
            },
        };
        if let Err(error) = verify_hello(hello, client) {
            return Err(error);
        }
        match signed_hello(&self.identity, hello.challenge.clone()) {
            Ok(answer) => Ok((answer, client.clone())),
            Err(error) => Err(error),
        }
    }
}

/// The server accepts only a peer that it pins, under the observed user, that signed the very
/// challenge it was sent.
pub proof fn law_server_accepts_only_a_pinned_answer(server: ServerView, hello: HelloView)
    requires
        answer_check(server, hello) is Ok,
        server.only ==> server.peers.len() == 1 && server.peers[0].uid == server.observed_uid,
    ensures
        ({
            let peer = answer_check(server, hello)->Ok_0;
            &&& exists|i: int| 0 <= i < server.peers.len() && server.peers[i] == peer
            &&& peer.uid == server.observed_uid
            &&& hello_check(hello, peer) is Ok
            &&& hello.challenge == server.sent
        }),
{
    lemma_selected_is_a_peer(server.peers, server.observed_uid, hello);
    if server.only {
        assert(server.peers[0] == answer_check(server, hello)->Ok_0);
    }
}

proof fn lemma_selected_is_a_peer(peers: Seq<AclView>, observed_uid: u32, hello: HelloView)
    ensures
        selected(peers, observed_uid, hello) matches Some(peer) ==> candidate(
            peer,
            observed_uid,
            hello,
        ) && exists|i: int| 0 <= i < peers.len() && peers[i] == peer,
    decreases peers.len(),
{
    if peers.len() > 0 {
        let head = peers.drop_last();
        lemma_selected_is_a_peer(head, observed_uid, hello);
        if let Some(peer) = selected(head, observed_uid, hello) {
            let i = choose|i: int| 0 <= i < head.len() && head[i] == peer;
            assert(peers[i] == peer);
        } else {
            assert(peers[peers.len() - 1] == peers.last());
        }
    }
}

/// Two identities that pin each other complete the challenge: each hello that one of them sends
/// is accepted by the other.
pub proof fn law_mutual_challenge_succeeds(
    client: IdentityView,
    server: IdentityView,
    client_acl: AclView,
    server_acl: AclView,
    state: ServerView,
    server_hello: HelloView,
    client_answer: HelloView,
    client_hello: HelloView,
    server_answer: HelloView,
    fresh: Seq<char>,
)
    requires
        crate::sealing::pins(client_acl, client),
        crate::sealing::pins(server_acl, server),
        state.peers == seq![client_acl],
        state.observed_uid == client_acl.uid,
        own_hello(server_hello, server, state.sent),
        own_hello(client_answer, client, server_hello.challenge),
        own_hello(client_hello, client, fresh),
        own_hello(server_answer, server, client_hello.challenge),
    ensures
        hello_check(server_hello, server_acl) is Ok,
        answer_check(state, client_answer) == Ok::<AclView, WireErrorView>(client_acl),
        hello_check(client_hello, client_acl) is Ok,
        hello_check(server_answer, server_acl) is Ok,
        server_answer.challenge == fresh,
{
    law_own_hello_verifies(server_hello, server, state.sent, server_acl);
    law_own_hello_verifies(client_answer, client, server_hello.challenge, client_acl);
    law_own_hello_verifies(client_hello, client, fresh, client_acl);
    law_own_hello_verifies(server_answer, server, client_hello.challenge, server_acl);
    reveal_with_fuel(selected, 2);
    assert(state.peers.drop_last() =~= Seq::<AclView>::empty());
    assert(state.peers.last() == client_acl);
}

} // verus!
