//! Service-signed audit-journal heads.

use vstd::prelude::*;
use vstd::string::*;
use vstd::utf8::*;

use crate::base64url::Base64UrlBytes;
use crate::bytes::{array64, push_be};
use crate::crypto::{accepts_key, verifies};
use crate::error::{WireError, WireErrorCode, WireErrorView};
use crate::ids::{DecimalU64, Digest32, Token};
use crate::json::{Json, JsonView};
use crate::wire::{new_object, text_field, WireForm, WireValue};

verus! {

/// A service-signed audit-journal head exchanged with a peer or checkpointed by a recipient.
/// Signature verification is performed with the edge-manifest key pinned for `service_id`.
#[derive(Debug, PartialEq, Eq)]
pub struct SignedJournalHead {
    pub service_id: Token,
    pub sequence: DecimalU64,
    pub head_hash: Digest32,
    pub key_id: Token,
    pub signature: Base64UrlBytes,
}

/// What a [`SignedJournalHead`] says.
pub struct JournalHeadView {
    pub service_id: Seq<char>,
    pub sequence: u64,
    pub head_hash: Seq<char>,
    pub key_id: Seq<char>,
    pub signature: Seq<u8>,
}

impl View for SignedJournalHead {
    type V = JournalHeadView;

    open spec fn view(&self) -> JournalHeadView {
        JournalHeadView {
            service_id: self.service_id@,
            sequence: self.sequence@,
            head_hash: self.head_hash@,
            key_id: self.key_id@,
            signature: self.signature@,
        }
    }
}

impl Clone for SignedJournalHead {
    fn clone(&self) -> (r: Self)
        ensures
            r@ == self@,
    {
        SignedJournalHead {
            service_id: self.service_id.clone(),
            sequence: self.sequence.clone(),
            head_hash: self.head_hash.clone(),
            key_id: self.key_id.clone(),
            signature: self.signature.clone(),
        }
    }
}

pub open spec fn unauthenticated_error(message: Seq<char>) -> WireErrorView {
    WireErrorView { code: WireErrorCode::UnauthenticatedPeer, message }
}

/// The error for a peer that could not be authenticated.
pub fn unauthenticated(message: &str) -> (r: WireError)
    ensures
        r@ == unauthenticated_error(message@),
{
    WireError::new(WireErrorCode::UnauthenticatedPeer, message)
}

/// The bytes that a head's signature covers: every field but the signature, under a domain label.
pub open spec fn head_message(head: JournalHeadView) -> Seq<u8> {
    encode_utf8("bloom-audit-journal-head/v1\0"@) + encode_utf8(head.service_id) + seq![0u8]
        + crate::bytes::be_bytes(head.sequence as nat, 8) + encode_utf8(head.head_hash)
        + seq![0u8] + encode_utf8(head.key_id)
}

/// Whether a head comes from the named service under the given application key.
pub open spec fn head_sender(
    head: JournalHeadView,
    service_id: Seq<char>,
    key_id: Seq<char>,
    public_key: Seq<u8>,
) -> Result<(), WireErrorView> {
    if head.service_id != service_id || head.key_id != key_id {
        Err(unauthenticated_error("journal head service or application key identity mismatch"@))
    } else if !crate::crypto::ed25519_key_accepted(public_key) {
        Err(unauthenticated_error("invalid pinned journal-head public key"@))
    } else if head.signature.len() != 64 {
        Err(unauthenticated_error("journal-head signature must contain 64 bytes"@))
    } else if !crate::crypto::ed25519_verifies(public_key, head_message(head), head.signature) {
        Err(unauthenticated_error("journal-head application signature verification failed"@))
    } else {
        Ok(())
    }
}

/// The fields of a head have the forms that their types demand.
pub open spec fn well_formed_head(head: JournalHeadView) -> bool {
    &&& crate::ids::is_token_text(head.service_id)
    &&& crate::ids::is_token_text(head.key_id)
    &&& crate::hex_text::is_lower_hex_text(head.head_hash, 64)
}

/// A zero byte ends what holds none.
proof fn lemma_split_at_zero(a: Seq<u8>, after_a: Seq<u8>, b: Seq<u8>, after_b: Seq<u8>)
    requires
        a + seq![0u8] + after_a == b + seq![0u8] + after_b,
        forall|i: int| 0 <= i < a.len() ==> a[i] != 0,
        forall|i: int| 0 <= i < b.len() ==> b[i] != 0,
    ensures
        a == b,
        after_a == after_b,
{
    let left = a + seq![0u8] + after_a;
    let right = b + seq![0u8] + after_b;
    assert(left[a.len() as int] == 0);
    assert(right[b.len() as int] == 0);
    if a.len() < b.len() {
        assert(right[a.len() as int] == b[a.len() as int]);
    }
    if b.len() < a.len() {
        assert(left[b.len() as int] == a[b.len() as int]);
    }
    assert(a =~= left.take(a.len() as int));
    assert(b =~= right.take(b.len() as int));
    assert(after_a =~= left.skip(a.len() as int + 1));
    assert(after_b =~= right.skip(b.len() as int + 1));
}

/// A token's bytes hold no zero.
proof fn lemma_token_has_no_zero(token: Seq<char>)
    requires
        crate::ids::is_token_text(token),
    ensures
        forall|i: int| 0 <= i < encode_utf8(token).len() ==> encode_utf8(token)[i] != 0,
{
    crate::ids::lemma_token_is_ascii(token);
    is_ascii_chars_encode_utf8(token);
    assert forall|i: int| 0 <= i < encode_utf8(token).len() implies encode_utf8(token)[i] != 0 by {
        assert(crate::ids::is_token_char(token[i]));
    }
}

/// A digest's text has one byte for each digit.
proof fn lemma_digest_bytes(digest: Seq<char>)
    requires
        crate::hex_text::is_lower_hex_text(digest, 64),
    ensures
        encode_utf8(digest).len() == 64,
{
    assert forall|i: int| 0 <= i < digest.len() implies (#[trigger] digest[i] as u32) < 128 by {
        assert(crate::hex_text::is_lower_hex_digit(digest[i]));
    }
    is_ascii_chars_encode_utf8(digest);
}

/// What a head's signature covers says every other field: heads with one message have the same
/// service, sequence, hash and key.
pub proof fn law_head_message_says_every_field(a: JournalHeadView, b: JournalHeadView)
    requires
        well_formed_head(a),
        well_formed_head(b),
        head_message(a) == head_message(b),
    ensures
        a.service_id == b.service_id,
        a.sequence == b.sequence,
        a.head_hash == b.head_hash,
        a.key_id == b.key_id,
{
    let label = encode_utf8("bloom-audit-journal-head/v1\0"@);
    let rest_a = crate::bytes::be_bytes(a.sequence as nat, 8) + encode_utf8(a.head_hash)
        + seq![0u8] + encode_utf8(a.key_id);
    let rest_b = crate::bytes::be_bytes(b.sequence as nat, 8) + encode_utf8(b.head_hash)
        + seq![0u8] + encode_utf8(b.key_id);
    let service_a = encode_utf8(a.service_id);
    let service_b = encode_utf8(b.service_id);
    assert(head_message(a).skip(label.len() as int) =~= service_a + seq![0u8] + rest_a);
    assert(head_message(b).skip(label.len() as int) =~= service_b + seq![0u8] + rest_b);
    lemma_token_has_no_zero(a.service_id);
    lemma_token_has_no_zero(b.service_id);
    lemma_split_at_zero(service_a, rest_a, service_b, rest_b);
    crate::text::lemma_same_utf8(a.service_id, b.service_id);
    crate::bytes::lemma_be_bytes_len(a.sequence as nat, 8);
    crate::bytes::lemma_be_bytes_len(b.sequence as nat, 8);
    lemma_digest_bytes(a.head_hash);
    lemma_digest_bytes(b.head_hash);
    assert(rest_a.take(8) =~= crate::bytes::be_bytes(a.sequence as nat, 8));
    assert(rest_b.take(8) =~= crate::bytes::be_bytes(b.sequence as nat, 8));
    crate::bytes::lemma_be_bytes_of_u64(a.sequence, b.sequence);
    assert(rest_a.subrange(8, 72) =~= encode_utf8(a.head_hash));
    assert(rest_b.subrange(8, 72) =~= encode_utf8(b.head_hash));
    crate::text::lemma_same_utf8(a.head_hash, b.head_hash);
    assert(rest_a.skip(73) =~= encode_utf8(a.key_id));
    assert(rest_b.skip(73) =~= encode_utf8(b.key_id));
    crate::text::lemma_same_utf8(a.key_id, b.key_id);
}

/// A head is refused with no other code than that of an unauthenticated peer. A head of another
/// service or key ID is refused, and so is a signature that is not 64 bytes long.
pub proof fn law_refused_head_is_unauthenticated(
    head: JournalHeadView,
    service_id: Seq<char>,
    key_id: Seq<char>,
    public_key: Seq<u8>,
)
    ensures
        head_sender(head, service_id, key_id, public_key) matches Err(e) ==> e.code
            == WireErrorCode::UnauthenticatedPeer,
        head.service_id != service_id || head.key_id != key_id || head.signature.len() != 64
            ==> head_sender(head, service_id, key_id, public_key) is Err,
{
}

/// A head that was altered under its signature has another message, and is accepted only where
/// the signature verifies that message too.
pub proof fn law_altered_head_has_another_message(
    head: JournalHeadView,
    altered: JournalHeadView,
    service_id: Seq<char>,
    key_id: Seq<char>,
    public_key: Seq<u8>,
)
    requires
        well_formed_head(head),
        well_formed_head(altered),
        altered.signature == head.signature,
        altered != head,
    ensures
        head_message(altered) != head_message(head),
        head_sender(altered, service_id, key_id, public_key) is Ok
            ==> crate::crypto::ed25519_verifies(
            public_key,
            head_message(altered),
            head.signature,
        ),
{
    if head_message(altered) == head_message(head) {
        law_head_message_says_every_field(altered, head);
    }
}

/// The JSON form of a head.
pub open spec fn head_wire(head: JournalHeadView) -> JsonView {
    let object = crate::wire::no_fields();
    let object = crate::wire::with_field(object, "service_id"@, JsonView::Text(head.service_id));
    let object = crate::wire::with_field(
        object,
        "sequence"@,
        JsonView::Text(crate::decimal::decimal_chars(head.sequence as nat)),
    );
    let object = crate::wire::with_field(object, "head_hash"@, JsonView::Text(head.head_hash));
    let object = crate::wire::with_field(object, "key_id"@, JsonView::Text(head.key_id));
    crate::wire::with_field(
        object,
        "signature"@,
        JsonView::Text(crate::base64url::base64url_text(head.signature)),
    )
}

/// The JSON form of a head holds no number.
pub proof fn lemma_head_wire_is_exact(head: JournalHeadView)
    ensures
        crate::codec::exact_numbers(head_wire(head)),
{
    let o = crate::wire::no_fields();
    let service = JsonView::Text(head.service_id);
    let sequence = JsonView::Text(crate::decimal::decimal_chars(head.sequence as nat));
    let hash = JsonView::Text(head.head_hash);
    let key = JsonView::Text(head.key_id);
    let signature = JsonView::Text(crate::base64url::base64url_text(head.signature));
    crate::wire::lemma_field_keeps_numbers(o, "service_id"@, service);
    let o = crate::wire::with_field(o, "service_id"@, service);
    crate::wire::lemma_field_keeps_numbers(o, "sequence"@, sequence);
    let o = crate::wire::with_field(o, "sequence"@, sequence);
    crate::wire::lemma_field_keeps_numbers(o, "head_hash"@, hash);
    let o = crate::wire::with_field(o, "head_hash"@, hash);
    crate::wire::lemma_field_keeps_numbers(o, "key_id"@, key);
    let o = crate::wire::with_field(o, "key_id"@, key);
    crate::wire::lemma_field_keeps_numbers(o, "signature"@, signature);
}

impl SignedJournalHead {
    pub fn signature_message(&self) -> (r: Vec<u8>)
        ensures
            r@ == head_message(self@),
    {
        let mut message: Vec<u8> = Vec::new();
        message.extend_from_slice("bloom-audit-journal-head/v1\0".as_bytes());
        message.extend_from_slice(self.service_id.as_str().as_bytes());
        message.push(0);
        push_be(&mut message, self.sequence.get(), 8);
        message.extend_from_slice(self.head_hash.as_str().as_bytes());
        message.push(0);
        message.extend_from_slice(self.key_id.as_str().as_bytes());
        assert(message@ =~= head_message(self@));
        message
    }

    /// Verifies that this head was produced by the authenticated envelope sender using the
    /// application identity pinned for that transport edge.
    pub fn verify_sender_identity(
        &self,
        service_id: &Token,
        application_key_id: &Token,
        application_public_key: &[u8; 32],
    ) -> (r: Result<(), WireError>)
        ensures
            crate::error::outcome(r) == head_sender(
                self@,
                service_id@,
                application_key_id@,
                application_public_key@,
            ),
    {
        if !self.service_id.same_as(service_id) || !self.key_id.same_as(application_key_id) {
            return Err(
                unauthenticated("journal head service or application key identity mismatch"),
            );
        }
        if !accepts_key(application_public_key) {
            return Err(unauthenticated("invalid pinned journal-head public key"));
        }
        let signature = match array64(self.signature.decode().as_slice()) {
            Some(signature) => signature,
            None => {
                return Err(unauthenticated("journal-head signature must contain 64 bytes"));
            },
        };
        if !verifies(application_public_key, self.signature_message().as_slice(), &signature) {
            return Err(
                unauthenticated("journal-head application signature verification failed"),
            );
        }
        Ok(())
    }
}

impl WireValue for SignedJournalHead {
    open spec fn wire(&self) -> WireForm {
        Ok(head_wire(self@))
    }

    fn to_json(&self) -> (r: Result<Json, String>) {
        let mut entries = new_object();
        text_field(&mut entries, "service_id", self.service_id.as_str());
        text_field(&mut entries, "sequence", self.sequence.as_str());
        text_field(&mut entries, "head_hash", self.head_hash.as_str());
        text_field(&mut entries, "key_id", self.key_id.as_str());
        text_field(&mut entries, "signature", self.signature.encoded());
        Ok(Json::Object(entries))
    }
}

} // verus!
