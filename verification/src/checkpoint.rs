//! Independently retained peer audit heads: what is trusted, and what a record must be.

use vstd::prelude::*;
use vstd::string::*;

use crate::audit::{JournalHeadView, SignedJournalHead};
use crate::crypto::{accepts_key, sha256, verifies};
use crate::files::{FileFacts, FileKind};
use crate::ids::{DecimalU64, Digest32, Token};
use crate::json::{Json, JsonView};
use crate::wire::{canonical_wire, json_field, new_object, text_field, WireForm, WireValue};

verus! {

pub const CHECKPOINT_SCHEMA: &'static str = "bloom.audit-checkpoint/1";

/// An error of the operating system.
#[verifier::external_type_specification]
#[verifier::external_body]
pub struct ExIoError(std::io::Error);

#[derive(Debug)]
pub enum CheckpointError {
    InvalidRoot,
    WrongOwner { expected_uid: u32, actual_uid: u32 },
    InsecurePermissions,
    Malformed(String),
    SequenceRollback,
    SequenceConflict,
    InvalidSignature,
    UnpinnedPeer,
    Io(std::io::Error),
}

/// What a [`CheckpointError`] says.
pub enum CheckpointErrorView {
    InvalidRoot,
    WrongOwner { expected_uid: u32, actual_uid: u32 },
    InsecurePermissions,
    Malformed(Seq<char>),
    SequenceRollback,
    SequenceConflict,
    InvalidSignature,
    UnpinnedPeer,
    Io(std::io::Error),
}

impl View for CheckpointError {
    type V = CheckpointErrorView;

    open spec fn view(&self) -> CheckpointErrorView {
        match *self {
            CheckpointError::InvalidRoot => CheckpointErrorView::InvalidRoot,
            CheckpointError::WrongOwner { expected_uid, actual_uid } =>
                CheckpointErrorView::WrongOwner { expected_uid, actual_uid },
            CheckpointError::InsecurePermissions => CheckpointErrorView::InsecurePermissions,
            CheckpointError::Malformed(text) => CheckpointErrorView::Malformed(text@),
            CheckpointError::SequenceRollback => CheckpointErrorView::SequenceRollback,
            CheckpointError::SequenceConflict => CheckpointErrorView::SequenceConflict,
            CheckpointError::InvalidSignature => CheckpointErrorView::InvalidSignature,
            CheckpointError::UnpinnedPeer => CheckpointErrorView::UnpinnedPeer,
            CheckpointError::Io(error) => CheckpointErrorView::Io(error),
        }
    }
}

/// The outcome of a check: nothing, or what the error says.
pub open spec fn checked<T>(r: Result<T, CheckpointError>) -> Result<(), CheckpointErrorView> {
    match r {
        Ok(_) => Ok(()),
        Err(e) => Err(e@),
    }
}

pub open spec fn malformed_entry(text: Seq<char>) -> CheckpointErrorView {
    CheckpointErrorView::Malformed(text)
}

/// The error for what is not as a checkpoint must be.
pub fn malformed_checkpoint(text: &str) -> (r: CheckpointError)
    ensures
        r@ == malformed_entry(text@),
{
    CheckpointError::Malformed(text.to_owned())
}

/// One retained head, bound to the service that retains it.
#[derive(Debug, PartialEq, Eq)]
pub struct CheckpointRecord {
    pub schema: Token,
    pub recipient_service_id: Token,
    pub peer_head: SignedJournalHead,
}

/// What a [`CheckpointRecord`] says.
pub struct RecordView {
    pub schema: Seq<char>,
    pub recipient: Seq<char>,
    pub head: JournalHeadView,
}

impl View for CheckpointRecord {
    type V = RecordView;

    open spec fn view(&self) -> RecordView {
        RecordView {
            schema: self.schema@,
            recipient: self.recipient_service_id@,
            head: self.peer_head@,
        }
    }
}

/// The JSON form of a record.
pub open spec fn record_wire(record: RecordView) -> JsonView {
    let o = crate::wire::no_fields();
    let o = crate::wire::with_field(o, "schema"@, JsonView::Text(record.schema));
    let o = crate::wire::with_field(o, "recipient_service_id"@, JsonView::Text(record.recipient));
    crate::wire::with_field(o, "peer_head"@, crate::audit::head_wire(record.head))
}

impl WireValue for CheckpointRecord {
    open spec fn wire(&self) -> WireForm {
        Ok(record_wire(self@))
    }

    fn to_json(&self) -> (r: Result<Json, String>) {
        let mut entries = new_object();
        text_field(&mut entries, "schema", self.schema.as_str());
        text_field(&mut entries, "recipient_service_id", self.recipient_service_id.as_str());
        if let Ok(head) = self.peer_head.to_json() {
            json_field(&mut entries, "peer_head", head);
        }
        Ok(Json::Object(entries))
    }
}

/// The bytes that a record has on disk, or why it has none.
pub open spec fn record_bytes(record: RecordView) -> Result<Seq<u8>, CheckpointErrorView> {
    match crate::codec::canonical(record_wire(record)) {
        Ok(bytes) => Ok(bytes),
        Err(text) => Err(malformed_entry(text)),
    }
}

pub open spec fn bytes_outcome(r: Result<Vec<u8>, CheckpointError>) -> Result<
    Seq<u8>,
    CheckpointErrorView,
> {
    match r {
        Ok(bytes) => Ok(bytes@),
        Err(e) => Err(e@),
    }
}

impl CheckpointRecord {
    /// The bytes that the record has on disk.
    pub fn bytes(&self) -> (r: Result<Vec<u8>, CheckpointError>)
        ensures
            bytes_outcome(r) == record_bytes(self@),
            r is Ok,
    {
        proof {
            let record = self@;
            let o = crate::wire::no_fields();
            let schema = JsonView::Text(record.schema);
            let recipient = JsonView::Text(record.recipient);
            crate::wire::lemma_field_keeps_numbers(o, "schema"@, schema);
            let o = crate::wire::with_field(o, "schema"@, schema);
            crate::wire::lemma_field_keeps_numbers(o, "recipient_service_id"@, recipient);
            let o = crate::wire::with_field(o, "recipient_service_id"@, recipient);
            crate::audit::lemma_head_wire_is_exact(record.head);
            crate::wire::lemma_field_keeps_numbers(
                o,
                "peer_head"@,
                crate::audit::head_wire(record.head),
            );
        }
        match canonical_wire(self) {
            Ok(bytes) => Ok(bytes),
            Err(text) => Err(malformed_checkpoint(text.as_str())),
        }
    }
}

impl Clone for CheckpointRecord {
    fn clone(&self) -> (r: Self)
        ensures
            r@ == self@,
    {
        CheckpointRecord {
            schema: self.schema.clone(),
            recipient_service_id: self.recipient_service_id.clone(),
            peer_head: self.peer_head.clone(),
        }
    }
}

#[derive(Clone, Copy, Debug, PartialEq, Eq, Structural)]
pub enum AppendOutcome {
    Appended,
    AlreadyPresent,
}

/// Injectable recipient-side sink used by Broker/Signer transport integration. Implementations
/// must preserve the monotonic, independently retained peer head contract or return an error
/// before a caller publishes mutation success.
pub trait CheckpointSink: Send + Sync {
    fn append_peer_head(&self, peer_head: &SignedJournalHead) -> Result<
        AppendOutcome,
        CheckpointError,
    >;

    fn latest_peer_head(&self, _service_id: &Token) -> (r: Result<
        Option<SignedJournalHead>,
        CheckpointError,
    >)
        default_ensures
            r == Ok::<Option<SignedJournalHead>, CheckpointError>(None),
    {
        Ok(None)
    }
}

/// A public key that the signature scheme accepts.
#[derive(Debug, PartialEq, Eq)]
pub struct VerifyingKey([u8; 32]);

impl View for VerifyingKey {
    type V = Seq<u8>;

    closed spec fn view(&self) -> Seq<u8> {
        self.0@
    }
}

impl Clone for VerifyingKey {
    fn clone(&self) -> (r: Self)
        ensures
            r@ == self@,
    {
        proof {
            use_type_invariant(self);
        }
        VerifyingKey(self.0)
    }
}

impl VerifyingKey {
    #[verifier::type_invariant]
    spec fn well_formed(self) -> bool {
        crate::crypto::ed25519_key_accepted(self.0@)
    }

    /// The key with these bytes, if the scheme accepts them.
    pub fn from_bytes(bytes: &[u8; 32]) -> (r: Option<Self>)
        ensures
            r is Some <==> crate::crypto::ed25519_key_accepted(bytes@),
            r matches Some(key) ==> key@ == bytes@,
    {
        if accepts_key(bytes) {
            Some(VerifyingKey(*bytes))
        } else {
            None
        }
    }

    pub fn to_bytes(&self) -> (r: [u8; 32])
        ensures
            r@ == self@,
            crate::crypto::ed25519_key_accepted(self@),
    {
        proof {
            use_type_invariant(self);
        }
        self.0
    }

    /// Whether a signature of a message verifies under the key.
    pub fn verify(&self, message: &[u8], signature: &[u8; 64]) -> (r: bool)
        ensures
            r == crate::crypto::ed25519_verifies(self@, message@, signature@),
    {
        proof {
            use_type_invariant(self);
        }
        verifies(&self.0, message, signature)
    }
}

#[derive(Debug)]
pub struct PinnedAuditKey {
    pub service_id: Token,
    pub key_id: Token,
    pub verifying_key: VerifyingKey,
}

/// What a [`PinnedAuditKey`] says.
pub struct PinView {
    pub service: Seq<char>,
    pub key_id: Seq<char>,
    pub key: Seq<u8>,
}

impl View for PinnedAuditKey {
    type V = PinView;

    open spec fn view(&self) -> PinView {
        PinView { service: self.service_id@, key_id: self.key_id@, key: self.verifying_key@ }
    }
}

/// Exact packaging-owned transition from a retired application key to its successor. It is
/// verification metadata, not a live transport credential.
#[derive(Debug, PartialEq, Eq)]
pub struct ApplicationKeyHandover {
    pub service_id: Token,
    pub old_key_id: Token,
    pub new_key_id: Token,
    pub sequence: DecimalU64,
    pub head_hash: Digest32,
}

/// What an [`ApplicationKeyHandover`] says.
pub struct HandoverView {
    pub service: Seq<char>,
    pub old_key_id: Seq<char>,
    pub new_key_id: Seq<char>,
    pub sequence: u64,
    pub head_hash: Seq<char>,
}

impl View for ApplicationKeyHandover {
    type V = HandoverView;

    open spec fn view(&self) -> HandoverView {
        HandoverView {
            service: self.service_id@,
            old_key_id: self.old_key_id@,
            new_key_id: self.new_key_id@,
            sequence: self.sequence@,
            head_hash: self.head_hash@,
        }
    }
}

impl Clone for ApplicationKeyHandover {
    fn clone(&self) -> (r: Self)
        ensures
            r@ == self@,
    {
        ApplicationKeyHandover {
            service_id: self.service_id.clone(),
            old_key_id: self.old_key_id.clone(),
            new_key_id: self.new_key_id.clone(),
            sequence: self.sequence.clone(),
            head_hash: self.head_hash.clone(),
        }
    }
}

/// Each head, key or handover as what it says.
pub open spec fn views<A: View>(items: Seq<A>) -> Seq<A::V> {
    items.map_values(|item: A| item@)
}

/// The key under which heads of a service are accepted live.
pub open spec fn live_key(current: Seq<PinView>, service: Seq<char>) -> Option<Seq<char>>
    decreases current.len(),
{
    if current.len() == 0 {
        None
    } else if current.last().service == service {
        Some(current.last().key_id)
    } else {
        live_key(current.drop_last(), service)
    }
}

/// The pinned key of a service with a key ID, live or historical.
pub open spec fn pinned_key(pins: Seq<PinView>, service: Seq<char>, key_id: Seq<char>) -> Option<
    Seq<u8>,
>
    decreases pins.len(),
{
    if pins.len() == 0 {
        None
    } else if pins.last().service == service && pins.last().key_id == key_id {
        Some(pins.last().key)
    } else {
        pinned_key(pins.drop_last(), service, key_id)
    }
}

/// The handover into a key of a service.
pub open spec fn handover_into(
    handovers: Seq<HandoverView>,
    service: Seq<char>,
    key_id: Seq<char>,
) -> Option<HandoverView>
    decreases handovers.len(),
{
    if handovers.len() == 0 {
        None
    } else if handovers.last().service == service && handovers.last().new_key_id == key_id {
        Some(handovers.last())
    } else {
        handover_into(handovers.drop_last(), service, key_id)
    }
}

/// What packaging trusts: one live key per service, keys for verification only, and the exact
/// transitions between them.
pub struct TrustView {
    pub current: Seq<PinView>,
    pub historical: Seq<PinView>,
    pub handovers: Seq<HandoverView>,
}

impl TrustView {
    /// The pinned key of a service with a key ID, live or historical.
    pub open spec fn key(self, service: Seq<char>, key_id: Seq<char>) -> Option<Seq<u8>> {
        pinned_key(self.current + self.historical, service, key_id)
    }
}

/// Whether each service has one live key.
pub open spec fn current_check(current: Seq<PinView>) -> Result<(), CheckpointErrorView>
    decreases current.len(),
{
    if current.len() == 0 {
        Ok(())
    } else {
        match current_check(current.drop_last()) {
            Err(e) => Err(e),
            Ok(_) => if live_key(current.drop_last(), current.last().service) is Some {
                Err(malformed_entry("duplicate current peer application service"@))
            } else {
                Ok(())
            },
        }
    }
}

/// Whether each historical key belongs to a pinned service and is new to it.
pub open spec fn historical_check(current: Seq<PinView>, historical: Seq<PinView>) -> Result<
    (),
    CheckpointErrorView,
>
    decreases historical.len(),
{
    if historical.len() == 0 {
        Ok(())
    } else {
        let pin = historical.last();
        let before = historical.drop_last();
        match historical_check(current, before) {
            Err(e) => Err(e),
            Ok(_) => if live_key(current, pin.service) is None {
                Err(malformed_entry("historical application key has no current peer service"@))
            } else if pinned_key(current + before, pin.service, pin.key_id) is Some {
                Err(malformed_entry("duplicate current or historical peer application key"@))
            } else {
                Ok(())
            },
        }
    }
}

/// Whether each handover joins two different pinned keys of a service, one into each key.
pub open spec fn handovers_check(
    current: Seq<PinView>,
    historical: Seq<PinView>,
    handovers: Seq<HandoverView>,
) -> Result<(), CheckpointErrorView>
    decreases handovers.len(),
{
    if handovers.len() == 0 {
        Ok(())
    } else {
        let h = handovers.last();
        let before = handovers.drop_last();
        match handovers_check(current, historical, before) {
            Err(e) => Err(e),
            Ok(_) => if live_key(current, h.service) is None {
                Err(malformed_entry("handover has no pinned peer service"@))
            } else if h.old_key_id == h.new_key_id || pinned_key(
                current + historical,
                h.service,
                h.old_key_id,
            ) is None || pinned_key(current + historical, h.service, h.new_key_id) is None {
                Err(
                    malformed_entry(
                        "handover keys are equal or are not present in packaging key history"@,
                    ),
                )
            } else if handover_into(before, h.service, h.new_key_id) is Some {
                Err(malformed_entry("duplicate application-key handover"@))
            } else {
                Ok(())
            },
        }
    }
}

/// Whether packaging's keys and transitions are consistent.
pub open spec fn trust_check(trust: TrustView) -> Result<(), CheckpointErrorView> {
    match current_check(trust.current) {
        Err(e) => Err(e),
        Ok(_) => match historical_check(trust.current, trust.historical) {
            Err(e) => Err(e),
            Ok(_) => handovers_check(trust.current, trust.historical, trust.handovers),
        },
    }
}

/// Whether a directory may hold checkpoints.
pub open spec fn root_check(root: FileFacts, expected_uid: u32) -> Result<
    (),
    CheckpointErrorView,
> {
    if root.kind != FileKind::Directory {
        Err(CheckpointErrorView::InvalidRoot)
    } else if root.uid != expected_uid {
        Err(CheckpointErrorView::WrongOwner { expected_uid, actual_uid: root.uid })
    } else if root.permissions() != 0o700 {
        Err(CheckpointErrorView::InsecurePermissions)
    } else {
        Ok(())
    }
}

pub fn validate_root(root: &FileFacts, expected_uid: u32) -> (r: Result<(), CheckpointError>)
    ensures
        checked(r) == root_check(*root, expected_uid),
{
    if root.kind != FileKind::Directory {
        return Err(CheckpointError::InvalidRoot);
    }
    if root.uid != expected_uid {
        return Err(CheckpointError::WrongOwner { expected_uid, actual_uid: root.uid });
    }
    if root.mode & 0o7777 != 0o700 {
        return Err(CheckpointError::InsecurePermissions);
    }
    Ok(())
}

/// What identifies one state of the checkpoint directory.
#[derive(Clone, Copy, Debug, PartialEq, Eq, Structural)]
pub struct RootStamp {
    pub device: u64,
    pub inode: u64,
    pub mode: u32,
    pub uid: u32,
    pub modified_secs: i64,
    pub modified_nanos: i64,
    pub changed_secs: i64,
    pub changed_nanos: i64,
}

pub open spec fn root_stamp_of(root: FileFacts) -> RootStamp {
    RootStamp {
        device: root.device,
        inode: root.inode,
        mode: root.mode,
        uid: root.uid,
        modified_secs: root.modified_secs,
        modified_nanos: root.modified_nanos,
        changed_secs: root.changed_secs,
        changed_nanos: root.changed_nanos,
    }
}

/// The stamp of a directory that may hold checkpoints.
pub fn root_stamp(root: &FileFacts, expected_uid: u32) -> (r: Result<RootStamp, CheckpointError>)
    ensures
        match r {
            Ok(stamp) => root_check(*root, expected_uid) is Ok && stamp == root_stamp_of(*root),
            Err(e) => root_check(*root, expected_uid) == Err::<(), CheckpointErrorView>(e@),
        },
{
    if let Err(error) = validate_root(root, expected_uid) {
        return Err(error);
    }
    Ok(
        RootStamp {
            device: root.device,
            inode: root.inode,
            mode: root.mode,
            uid: root.uid,
            modified_secs: root.modified_secs,
            modified_nanos: root.modified_nanos,
            changed_secs: root.changed_secs,
            changed_nanos: root.changed_nanos,
        },
    )
}

/// What identifies one state of a record's file.
#[derive(Clone, Copy, Debug, PartialEq, Eq, Structural)]
pub struct RecordStamp {
    pub device: u64,
    pub inode: u64,
    pub mode: u32,
    pub uid: u32,
    pub links: u64,
    pub size: u64,
    pub modified_secs: i64,
    pub modified_nanos: i64,
    pub changed_secs: i64,
    pub changed_nanos: i64,
}

pub open spec fn record_stamp_of(facts: FileFacts) -> RecordStamp {
    RecordStamp {
        device: facts.device,
        inode: facts.inode,
        mode: facts.mode,
        uid: facts.uid,
        links: facts.links,
        size: facts.size,
        modified_secs: facts.modified_secs,
        modified_nanos: facts.modified_nanos,
        changed_secs: facts.changed_secs,
        changed_nanos: facts.changed_nanos,
    }
}

/// The stamp of a record's file.
pub fn record_stamp(facts: &FileFacts) -> (r: RecordStamp)
    ensures
        r == record_stamp_of(*facts),
{
    RecordStamp {
        device: facts.device,
        inode: facts.inode,
        mode: facts.mode,
        uid: facts.uid,
        links: facts.links,
        size: facts.size,
        modified_secs: facts.modified_secs,
        modified_nanos: facts.modified_nanos,
        changed_secs: facts.changed_secs,
        changed_nanos: facts.changed_nanos,
    }
}

/// The name of the file that holds a head: its service, its sequence in twenty digits, its key.
pub open spec fn filename_of(head: JournalHeadView) -> Seq<char> {
    crate::hex_text::hex_chars(
        crate::crypto::sha256_of(vstd::utf8::encode_utf8(head.service_id)),
    ) + "-"@ + crate::decimal::padded_decimal(head.sequence as nat, 20) + "-"@
        + crate::hex_text::hex_chars(
        crate::crypto::sha256_of(vstd::utf8::encode_utf8(head.key_id)),
    ) + ".jcs"@
}

pub fn checkpoint_filename(head: &SignedJournalHead) -> (r: String)
    ensures
        r@ == filename_of(head@),
{
    let service_name = Digest32::from_bytes(sha256(head.service_id.as_str().as_bytes()));
    let key_name = Digest32::from_bytes(sha256(head.key_id.as_str().as_bytes()));
    let mut name = service_name.as_str().to_owned();
    name.append("-");
    crate::decimal::push_padded_decimal(&mut name, head.sequence.get(), 20);
    name.append("-");
    name.append(key_name.as_str());
    name.append(".jcs");
    assert(name@ =~= filename_of(head@));
    name
}

} // verus!
