use bloom_triad::checkpoint::{checkpoint_filename, validate_root, CHECKPOINT_SCHEMA};
use bloom_triad::files::{FileFacts, FileKind};
use bloom_triad::history::AuthorityEdgeHistoricalKey;
use bloom_triad::peer_trust::PeerTrust;
use bloom_triad::store::{CheckpointTask, DiskAction, DiskReply};
use bloom_triad::{
    AppendOutcome, ApplicationKeyHandover, AuthorityEdgeHistory, Base64UrlBytes, CheckpointError,
    CheckpointRecord, CheckpointSink, CheckpointStore, DecimalU64, Digest32, PinnedAuditKey,
    SignedJournalHead, SigningKey, Token, VerifyingKey,
};
use std::collections::{BTreeMap, VecDeque};

const UID: u32 = 501;

struct ForcedFailureSink;

impl CheckpointSink for ForcedFailureSink {
    fn append_peer_head(
        &self,
        _peer_head: &SignedJournalHead,
    ) -> Result<AppendOutcome, CheckpointError> {
        Err(CheckpointError::Io(std::io::Error::new(
            std::io::ErrorKind::PermissionDenied,
            "forced checkpoint failure",
        )))
    }
}

fn signing_key() -> SigningKey {
    SigningKey::from_bytes(&[7; 32])
}

fn rotated_signing_key() -> SigningKey {
    SigningKey::from_bytes(&[8; 32])
}

fn head(sequence: u64, hash_byte: &str) -> SignedJournalHead {
    keyed_head(&signing_key(), "signer-audit-1", sequence, hash_byte)
}

fn keyed_head(
    signing_key: &SigningKey,
    key_id: &str,
    sequence: u64,
    hash_byte: &str,
) -> SignedJournalHead {
    service_head("bloom-signer", signing_key, key_id, sequence, hash_byte)
}

fn service_head(
    service: &str,
    signing_key: &SigningKey,
    key_id: &str,
    sequence: u64,
    hash_byte: &str,
) -> SignedJournalHead {
    let mut head = SignedJournalHead {
        service_id: Token::new(service).unwrap(),
        sequence: DecimalU64::new(sequence),
        head_hash: Digest32::new(&hash_byte.repeat(32)).unwrap(),
        key_id: Token::new(key_id).unwrap(),
        signature: Base64UrlBytes::from_bytes(&[0; 64]),
    };
    head.signature = Base64UrlBytes::from_bytes(&signing_key.sign(&head.signature_message()));
    head
}

fn pin(service: &str, key_id: &str, signing_key: &SigningKey) -> PinnedAuditKey {
    PinnedAuditKey {
        service_id: Token::new(service).unwrap(),
        key_id: Token::new(key_id).unwrap(),
        verifying_key: VerifyingKey::from_bytes(&signing_key.verifying_key()).unwrap(),
    }
}

fn record(recipient: &str, peer_head: SignedJournalHead) -> CheckpointRecord {
    CheckpointRecord {
        schema: Token::new(CHECKPOINT_SCHEMA).unwrap(),
        recipient_service_id: Token::new(recipient).unwrap(),
        peer_head,
    }
}

struct Entry {
    kind: FileKind,
    mode: u32,
    bytes: Vec<u8>,
    inode: u64,
    written_at: i64,
}

/// A directory in memory, with a clock that ticks at every change.
struct Disk {
    root_kind: FileKind,
    root_mode: u32,
    changed_at: i64,
    clock: i64,
    entries: BTreeMap<Vec<u8>, Entry>,
    listing: VecDeque<Vec<u8>>,
    scans: usize,
    reads: usize,
    syncs: usize,
    restless: bool,
    failing: bool,
}

impl Disk {
    fn new() -> Self {
        Disk {
            root_kind: FileKind::Directory,
            root_mode: 0o700,
            changed_at: 1,
            clock: 1,
            entries: BTreeMap::new(),
            listing: VecDeque::new(),
            scans: 0,
            reads: 0,
            syncs: 0,
            restless: false,
            failing: false,
        }
    }

    fn root(&self) -> FileFacts {
        FileFacts {
            kind: self.root_kind,
            device: 1,
            inode: 1,
            mode: 0o040000 | self.root_mode,
            uid: UID,
            gid: UID,
            links: 2,
            size: 0,
            modified_secs: self.changed_at,
            modified_nanos: 0,
            changed_secs: self.changed_at,
            changed_nanos: 0,
        }
    }

    fn place(&mut self, name: &[u8], kind: FileKind, mode: u32, bytes: Vec<u8>) {
        self.clock += 1;
        self.changed_at = self.clock;
        self.entries.insert(
            name.to_vec(),
            Entry {
                kind,
                mode,
                bytes,
                inode: self.clock as u64 + 100,
                written_at: self.clock,
            },
        );
    }

    fn overwrite(&mut self, name: &[u8], bytes: Vec<u8>) {
        self.clock += 1;
        let entry = self.entries.get_mut(name).unwrap();
        entry.bytes = bytes;
        entry.written_at = self.clock;
    }

    fn bytes(&self, name: &[u8]) -> Vec<u8> {
        self.entries[name].bytes.clone()
    }

    fn missing() -> DiskReply {
        DiskReply::Failed(std::io::Error::new(std::io::ErrorKind::NotFound, "missing"))
    }

    fn reply(&mut self, action: &DiskAction) -> DiskReply {
        if self.failing {
            return DiskReply::Failed(std::io::Error::new(
                std::io::ErrorKind::PermissionDenied,
                "forced disk failure",
            ));
        }
        match action {
            DiskAction::StatRoot => {
                if self.restless {
                    self.clock += 1;
                    self.changed_at = self.clock;
                }
                DiskReply::Facts(self.root())
            }
            DiskAction::NextEntry { restart } => {
                if *restart {
                    self.scans += 1;
                    self.listing = self.entries.keys().cloned().collect();
                }
                match self.listing.pop_front() {
                    Some(name) => DiskReply::Entry(name),
                    None => DiskReply::NoMoreEntries,
                }
            }
            DiskAction::StatEntry(name) => match self.entries.get(name) {
                Some(entry) => DiskReply::Facts(FileFacts {
                    kind: entry.kind,
                    device: 1,
                    inode: entry.inode,
                    mode: 0o100000 | entry.mode,
                    uid: UID,
                    gid: UID,
                    links: 1,
                    size: entry.bytes.len() as u64,
                    modified_secs: entry.written_at,
                    modified_nanos: 0,
                    changed_secs: entry.written_at,
                    changed_nanos: 0,
                }),
                None => Self::missing(),
            },
            DiskAction::ReadEntry(name) => {
                self.reads += 1;
                match self.entries.get(name) {
                    Some(entry) => DiskReply::Record {
                        bytes: entry.bytes.clone(),
                        parsed: parse(&entry.bytes),
                    },
                    None => Self::missing(),
                }
            }
            DiskAction::Publish { name, bytes } => {
                if self.entries.contains_key(name) {
                    DiskReply::AlreadyExists
                } else {
                    self.place(name, FileKind::Regular, 0o600, bytes.clone());
                    DiskReply::Linked
                }
            }
            DiskAction::SyncRoot => {
                self.syncs += 1;
                DiskReply::Synced
            }
            other => panic!("the work has ended: {other:?}"),
        }
    }
}

fn field(value: &serde_json::Value, name: &str) -> Result<String, String> {
    value[name]
        .as_str()
        .map(str::to_owned)
        .ok_or(format!("missing field `{name}`"))
}

fn parse(bytes: &[u8]) -> Result<CheckpointRecord, String> {
    let value: serde_json::Value =
        serde_json::from_slice(bytes).map_err(|error| error.to_string())?;
    let token = |value: &serde_json::Value, name: &str| {
        Token::new(&field(value, name)?).map_err(|error| error.text())
    };
    let head = &value["peer_head"];
    Ok(CheckpointRecord {
        schema: token(&value, "schema")?,
        recipient_service_id: token(&value, "recipient_service_id")?,
        peer_head: SignedJournalHead {
            service_id: token(head, "service_id")?,
            sequence: DecimalU64::parse(&field(head, "sequence")?).map_err(|e| e.text())?,
            head_hash: Digest32::new(&field(head, "head_hash")?).map_err(|e| e.text())?,
            key_id: token(head, "key_id")?,
            signature: Base64UrlBytes::parse(&field(head, "signature")?).map_err(|e| e.text())?,
        },
    })
}

/// Runs work on the disk until it ends.
fn run(
    store: &mut CheckpointStore,
    disk: &mut Disk,
    (mut task, mut action): (CheckpointTask, DiskAction),
) -> DiskAction {
    loop {
        match action {
            DiskAction::Opened
            | DiskAction::Appended(_)
            | DiskAction::Latest(_)
            | DiskAction::Failed(_) => return action,
            _ => {
                let reply = disk.reply(&action);
                action = store.answer(&mut task, reply);
            }
        }
    }
}

fn opened(
    disk: &mut Disk,
    store: Result<CheckpointStore, CheckpointError>,
) -> Result<CheckpointStore, CheckpointError> {
    let mut store = store?;
    let work = store.read_all();
    match run(&mut store, disk, work) {
        DiskAction::Opened => Ok(store),
        DiskAction::Failed(error) => Err(error),
        other => panic!("opening ended in {other:?}"),
    }
}

fn open_store_result(disk: &mut Disk) -> Result<CheckpointStore, CheckpointError> {
    let store = CheckpointStore::open(
        &disk.root(),
        UID,
        Token::new("bloom-broker").unwrap(),
        vec![pin("bloom-signer", "signer-audit-1", &signing_key())],
    );
    opened(disk, store)
}

fn open_store(disk: &mut Disk) -> CheckpointStore {
    open_store_result(disk).unwrap()
}

fn open_rotated_store(
    disk: &mut Disk,
    include_history: bool,
    handover: Option<ApplicationKeyHandover>,
) -> Result<CheckpointStore, CheckpointError> {
    let mut historical = Vec::new();
    if include_history {
        historical.push(pin("bloom-signer", "signer-audit-1", &signing_key()));
    }
    let store = CheckpointStore::open_with_history(
        &disk.root(),
        UID,
        Token::new("bloom-broker").unwrap(),
        vec![pin("bloom-signer", "signer-app-2", &rotated_signing_key())],
        historical,
        handover.into_iter().collect(),
    );
    opened(disk, store)
}

fn append(
    store: &mut CheckpointStore,
    disk: &mut Disk,
    head: &SignedJournalHead,
) -> Result<AppendOutcome, CheckpointError> {
    let work = store.append(head);
    match run(store, disk, work) {
        DiskAction::Appended(outcome) => Ok(outcome),
        DiskAction::Failed(error) => Err(error),
        other => panic!("appending ended in {other:?}"),
    }
}

fn latest(
    store: &mut CheckpointStore,
    disk: &mut Disk,
    service: &str,
) -> Result<Option<SignedJournalHead>, CheckpointError> {
    let work = store.latest(&Token::new(service).unwrap());
    match run(store, disk, work) {
        DiskAction::Latest(head) => Ok(head),
        DiskAction::Failed(error) => Err(error),
        other => panic!("reading ended in {other:?}"),
    }
}

#[test]
fn append_is_monotonic_idempotent_and_restart_safe() {
    let disk = &mut Disk::new();
    let store = &mut open_store(disk);
    assert_eq!(
        append(store, disk, &head(7, "11")).unwrap(),
        AppendOutcome::Appended
    );
    assert_eq!(
        append(store, disk, &head(7, "11")).unwrap(),
        AppendOutcome::AlreadyPresent
    );
    assert!(matches!(
        append(store, disk, &head(7, "22")),
        Err(CheckpointError::SequenceConflict)
    ));
    assert_eq!(
        append(store, disk, &head(8, "22")).unwrap(),
        AppendOutcome::Appended
    );
    assert!(matches!(
        append(store, disk, &head(6, "33")),
        Err(CheckpointError::SequenceRollback)
    ));
    assert_eq!(
        append(store, disk, &head(9, "33")).unwrap(),
        AppendOutcome::Appended
    );
    assert_eq!(
        append(store, disk, &head(10, "44")).unwrap(),
        AppendOutcome::Appended
    );
    assert_eq!(
        append(store, disk, &head(11, "55")).unwrap(),
        AppendOutcome::Appended
    );
    let reopened = &mut open_store(disk);
    assert_eq!(
        append(reopened, disk, &head(11, "55")).unwrap(),
        AppendOutcome::AlreadyPresent
    );
}

#[test]
fn unchanged_authenticated_head_has_bounded_disk_work() {
    let disk = &mut Disk::new();
    let store = &mut open_store(disk);
    let mut expected = head(7, "11");
    assert_eq!(disk.scans, 1);
    assert_eq!(
        append(store, disk, &expected).unwrap(),
        AppendOutcome::Appended
    );
    for sequence in 8..=39 {
        expected = head(sequence, "11");
        assert_eq!(
            append(store, disk, &expected).unwrap(),
            AppendOutcome::Appended
        );
    }
    let scans_after_publication = disk.scans;
    assert_eq!(scans_after_publication, 67);

    let reads = disk.reads;
    for _ in 0..1_000 {
        assert_eq!(
            append(store, disk, &expected).unwrap(),
            AppendOutcome::AlreadyPresent
        );
    }
    assert_eq!(
        disk.scans, scans_after_publication,
        "an unchanged peer head must not rescan retained history"
    );
    assert_eq!(disk.reads, reads + 1_000);
    assert_eq!(disk.entries.len(), 33);
}

#[test]
fn unchanged_head_fast_path_rejects_disk_tamper_and_directory_conflicts() {
    let disk = &mut Disk::new();
    let store = &mut open_store(disk);
    let expected = head(7, "11");
    append(store, disk, &expected).unwrap();

    let name = checkpoint_filename(&expected).into_bytes();
    let mut bytes = disk.bytes(&name);
    *bytes.last_mut().unwrap() ^= 1;
    disk.overwrite(&name, bytes);
    assert!(
        append(store, disk, &expected).is_err(),
        "tail in-place tamper must fail before unchanged-head admission"
    );

    let exact = record("bloom-broker", expected.clone()).bytes().unwrap();
    disk.overwrite(&name, exact.clone());
    let newest = head(8, "22");
    append(store, disk, &newest).unwrap();
    let mut historical_bytes = disk.bytes(&name);
    *historical_bytes.last_mut().unwrap() ^= 1;
    disk.overwrite(&name, historical_bytes);
    assert!(
        append(store, disk, &newest).is_err(),
        "historical in-place tamper must fail before unchanged-head admission"
    );

    disk.overwrite(&name, exact);
    disk.place(b"outside", FileKind::Regular, 0o644, b"{}".to_vec());
    disk.place(b"unsafe.jcs", FileKind::Symlink, 0o777, b"outside".to_vec());
    assert!(matches!(
        append(store, disk, &expected),
        Err(CheckpointError::Malformed(_))
    ));
}

#[test]
fn concurrent_identical_append_publishes_once_and_reconciles_the_loser() {
    let disk = &mut Disk::new();
    let stores = &mut [open_store(disk), open_store(disk)];
    let expected = head(12, "66");

    // Both publishers have decided before either links its record.
    let mut works = Vec::new();
    for store in stores.iter_mut() {
        let (mut task, mut action) = store.append(&expected);
        while !matches!(action, DiskAction::Publish { .. }) {
            let reply = disk.reply(&action);
            action = store.answer(&mut task, reply);
        }
        works.push((task, action));
    }
    let outcomes: Vec<AppendOutcome> = stores
        .iter_mut()
        .zip(works)
        .map(|(store, work)| match run(store, disk, work) {
            DiskAction::Appended(outcome) => outcome,
            other => panic!("appending ended in {other:?}"),
        })
        .collect();
    assert_eq!(
        outcomes,
        vec![AppendOutcome::Appended, AppendOutcome::AlreadyPresent]
    );
    assert_eq!(disk.entries.len(), 1);
    assert_eq!(disk.syncs, 2);

    let reopened = &mut open_store(disk);
    assert_eq!(
        append(reopened, disk, &expected).unwrap(),
        AppendOutcome::AlreadyPresent
    );
}

#[test]
fn one_recipient_serializes_concurrent_peer_head_advances() {
    let disk = &mut Disk::new();
    let peers = [
        (
            "bloom-machine",
            "machine-app",
            SigningKey::from_bytes(&[11; 32]),
        ),
        (
            "bloom-broker",
            "broker-app",
            SigningKey::from_bytes(&[12; 32]),
        ),
        (
            "bloom-signer",
            "signer-app",
            SigningKey::from_bytes(&[13; 32]),
        ),
    ];
    let store = CheckpointStore::open(
        &disk.root(),
        UID,
        Token::new("bloom-broker").unwrap(),
        peers
            .iter()
            .map(|(service, key_id, key)| pin(service, key_id, key))
            .collect(),
    );
    let store = &mut opened(disk, store).unwrap();
    for sequence in 1..=24 {
        for turn in 0..peers.len() {
            let peer_index = (turn + sequence as usize) % peers.len();
            let (service, key_id, key) = &peers[peer_index];
            let hash_byte = format!("{:02x}", (sequence + peer_index as u64) % 255);
            let head = service_head(service, key, key_id, sequence, &hash_byte);
            append(store, disk, &head).unwrap();
        }
    }
    for service in ["bloom-machine", "bloom-broker", "bloom-signer"] {
        assert_eq!(
            latest(store, disk, service)
                .unwrap()
                .unwrap()
                .sequence
                .get(),
            24
        );
    }
    assert_eq!(latest(store, disk, "bloom-session").unwrap(), None);
}

#[test]
fn roots_and_entries_fail_closed_on_permissions_symlinks_and_tamper() {
    let insecure = &mut Disk::new();
    insecure.root_mode = 0o755;
    assert!(matches!(
        open_store_result(insecure),
        Err(CheckpointError::InsecurePermissions)
    ));

    let disk = &mut Disk::new();
    let store = &mut open_store(disk);
    let mut forged = head(1, "11");
    forged.signature = Base64UrlBytes::from_bytes(&[9; 64]);
    assert!(matches!(
        append(store, disk, &forged),
        Err(CheckpointError::InvalidSignature)
    ));
    append(store, disk, &head(1, "11")).unwrap();
    disk.place(b"target", FileKind::Regular, 0o644, b"{}".to_vec());
    disk.place(b"linked.jcs", FileKind::Symlink, 0o777, b"target".to_vec());
    assert!(matches!(
        append(store, disk, &head(2, "22")),
        Err(CheckpointError::Malformed(_))
    ));
}

#[test]
fn restart_rejects_filename_and_sequence_conflict_tampering() {
    let disk = &mut Disk::new();
    let store = &mut open_store(disk);
    append(store, disk, &head(4, "44")).unwrap();
    let conflicting = record("bloom-broker", head(4, "55")).bytes().unwrap();
    disk.place(
        b"wrong-00000000000000000004.jcs",
        FileKind::Regular,
        0o600,
        conflicting,
    );
    assert!(matches!(
        open_store_result(disk),
        Err(CheckpointError::Malformed(_))
    ));
}

#[test]
fn restart_rejects_owner_only_but_noncanonical_entry_modes() {
    for mode in [0o400, 0o700] {
        let disk = &mut Disk::new();
        let store = &mut open_store(disk);
        let first = head(2, "22");
        append(store, disk, &first).unwrap();
        disk.entries
            .get_mut(checkpoint_filename(&first).as_bytes())
            .unwrap()
            .mode = mode;
        assert!(matches!(
            open_store_result(disk),
            Err(CheckpointError::Malformed(_))
        ));
    }
}

fn handover(sequence: u64, hash_byte: &str) -> ApplicationKeyHandover {
    ApplicationKeyHandover {
        service_id: Token::new("bloom-signer").unwrap(),
        old_key_id: Token::new("signer-audit-1").unwrap(),
        new_key_id: Token::new("signer-app-2").unwrap(),
        sequence: DecimalU64::new(sequence),
        head_hash: Digest32::new(&hash_byte.repeat(32)).unwrap(),
    }
}

#[test]
fn application_key_handover_is_exact_once_and_history_is_verification_only() {
    let disk = &mut Disk::new();
    let old_store = &mut open_store(disk);
    append(old_store, disk, &head(7, "11")).unwrap();

    let handover = handover(7, "11");
    let rotated = &mut open_rotated_store(disk, true, Some(handover.clone())).unwrap();
    let first_new = keyed_head(&rotated_signing_key(), "signer-app-2", 7, "11");
    assert_eq!(
        append(rotated, disk, &first_new).unwrap(),
        AppendOutcome::Appended
    );
    assert_eq!(
        append(rotated, disk, &first_new).unwrap(),
        AppendOutcome::AlreadyPresent
    );
    assert_eq!(
        append(
            rotated,
            disk,
            &keyed_head(&rotated_signing_key(), "signer-app-2", 8, "22")
        )
        .unwrap(),
        AppendOutcome::Appended
    );
    assert!(matches!(
        append(
            rotated,
            disk,
            &keyed_head(&signing_key(), "signer-audit-1", 9, "33")
        ),
        Err(CheckpointError::InvalidSignature)
    ));

    assert!(open_rotated_store(disk, true, Some(handover)).is_ok());
    assert!(matches!(
        open_rotated_store(disk, false, None),
        Err(CheckpointError::UnpinnedPeer)
    ));
}

#[test]
fn handover_rejects_missing_substituted_rollback_and_equal_sequence_fork() {
    let scenarios = [
        (7, "22", 7, "11"), // equal-sequence hash fork
        (7, "11", 6, "11"), // packaging history rollback
        (7, "11", 7, "22"), // substituted tuple hash
    ];
    for (new_sequence, new_hash, tuple_sequence, tuple_hash) in scenarios {
        let disk = &mut Disk::new();
        let old_store = &mut open_store(disk);
        append(old_store, disk, &head(7, "11")).unwrap();
        let rotated =
            &mut open_rotated_store(disk, true, Some(handover(tuple_sequence, tuple_hash)))
                .unwrap();
        assert!(matches!(
            append(
                rotated,
                disk,
                &keyed_head(
                    &rotated_signing_key(),
                    "signer-app-2",
                    new_sequence,
                    new_hash
                )
            ),
            Err(CheckpointError::SequenceConflict | CheckpointError::SequenceRollback)
        ));
    }
}

fn history_file(mode: u32, links: u64) -> FileFacts {
    FileFacts {
        kind: FileKind::Regular,
        device: 1,
        inode: 9,
        mode: 0o100000 | mode,
        uid: UID,
        gid: UID,
        links,
        size: 10,
        modified_secs: 0,
        modified_nanos: 0,
        changed_secs: 0,
        changed_nanos: 0,
    }
}

fn historical_key(public_key_hex: &str) -> AuthorityEdgeHistoricalKey {
    AuthorityEdgeHistoricalKey {
        service_id: "bloom-signer".to_owned(),
        key_id: "signer-audit-1".to_owned(),
        public_key_hex: public_key_hex.to_owned(),
    }
}

const HISTORY: &str = "bloom.authority-edge-application-history.1";

#[test]
fn root_owned_authority_history_rejects_unsafe_or_substituted_files() {
    let key_hex = Digest32::from_bytes(signing_key().verifying_key());
    AuthorityEdgeHistory::check_file(&history_file(0o644, 1), UID).unwrap();
    let history = AuthorityEdgeHistory::from_document(Ok((
        HISTORY.to_owned(),
        vec![historical_key(key_hex.as_str())],
        vec![],
    )))
    .unwrap();
    let signer = Token::new("bloom-signer").unwrap();
    assert_eq!(history.historical_pins_for(&[&signer]).unwrap().len(), 1);
    assert_eq!(
        history.historical_pins_for(&[&signer]).unwrap()[0]
            .verifying_key
            .to_bytes(),
        signing_key().verifying_key()
    );
    let other = Token::new("bloom-machine").unwrap();
    assert_eq!(history.historical_pins_for(&[&other]).unwrap().len(), 0);

    for refused in [history_file(0o664, 1), history_file(0o644, 2)] {
        assert!(matches!(
            AuthorityEdgeHistory::check_file(&refused, UID),
            Err(CheckpointError::Malformed(_))
        ));
    }
    let mut linked = history_file(0o644, 1);
    linked.kind = FileKind::Symlink;
    assert!(matches!(
        AuthorityEdgeHistory::check_file(&linked, UID),
        Err(CheckpointError::Malformed(_))
    ));
    assert!(matches!(
        AuthorityEdgeHistory::check_file(&history_file(0o644, 1), UID + 1),
        Err(CheckpointError::Malformed(_))
    ));
}

#[test]
fn authority_history_schema_and_public_keys_are_closed() {
    assert!(matches!(
        AuthorityEdgeHistory::from_document(Ok((
            "bloom.authority-edge-application-history.0".to_owned(),
            vec![],
            vec![],
        ))),
        Err(CheckpointError::Malformed(_))
    ));
    let signer = Token::new("bloom-signer").unwrap();
    for (hex, message) in [
        ("00", "history key must be 32 bytes"),
        ("zz", "history key is not hex"),
        (&*"02".repeat(32), "invalid history key"),
    ] {
        let history = AuthorityEdgeHistory::from_document(Ok((
            HISTORY.to_owned(),
            vec![historical_key(hex)],
            vec![],
        )))
        .unwrap();
        match history.historical_pins_for(&[&signer]) {
            Err(CheckpointError::Malformed(text)) => assert_eq!(text, message),
            other => panic!("a closed history gave {:?}", other.map(|pins| pins.len())),
        }
    }
    assert!(matches!(
        AuthorityEdgeHistory::from_document(Err("expected value".to_owned())),
        Err(CheckpointError::Malformed(text)) if text == "expected value"
    ));
}

#[test]
fn history_hands_out_the_handovers_of_the_services_asked_for() {
    let signer = Token::new("bloom-signer").unwrap();
    let machine = Token::new("bloom-machine").unwrap();
    let history = AuthorityEdgeHistory::from_document(Ok((
        HISTORY.to_owned(),
        vec![],
        vec![handover(7, "11")],
    )))
    .unwrap();
    assert_eq!(history.handovers_for(&[&machine, &signer]), vec![handover(7, "11")]);
    assert!(history.handovers_for(&[&machine]).is_empty());
    assert!(AuthorityEdgeHistory::empty().handovers_for(&[&signer]).is_empty());
}

#[test]
fn injectable_sink_propagates_forced_write_failure() {
    let sink: &dyn CheckpointSink = &ForcedFailureSink;
    assert!(matches!(
        sink.append_peer_head(&head(1, "11")),
        Err(CheckpointError::Io(error))
            if error.kind() == std::io::ErrorKind::PermissionDenied
    ));
    assert!(matches!(
        sink.latest_peer_head(&Token::new("bloom-signer").unwrap()),
        Ok(None)
    ));
}

#[test]
fn a_failing_disk_ends_the_work_with_its_error() {
    let disk = &mut Disk::new();
    let store = &mut open_store(disk);
    disk.failing = true;
    assert!(matches!(
        append(store, disk, &head(1, "11")),
        Err(CheckpointError::Io(error))
            if error.kind() == std::io::ErrorKind::PermissionDenied
    ));
}

#[test]
fn a_root_that_keeps_changing_is_refused() {
    let disk = &mut Disk::new();
    let store = &mut open_store(disk);
    disk.restless = true;
    match append(store, disk, &head(1, "11")) {
        Err(CheckpointError::Malformed(text)) => assert_eq!(
            text,
            "checkpoint root changed repeatedly during reconciliation"
        ),
        other => panic!("a restless root gave {other:?}"),
    }
    assert_eq!(disk.scans, 4);
    assert!(disk.entries.is_empty());
}

#[test]
fn a_root_must_be_an_owned_private_directory() {
    let disk = Disk::new();
    validate_root(&disk.root(), UID).unwrap();
    assert!(matches!(
        validate_root(&disk.root(), UID + 1),
        Err(CheckpointError::WrongOwner {
            expected_uid,
            actual_uid: UID,
        }) if expected_uid == UID + 1
    ));
    let mut file = disk.root();
    file.kind = FileKind::Regular;
    assert!(matches!(
        validate_root(&file, UID),
        Err(CheckpointError::InvalidRoot)
    ));
}

#[test]
fn a_peer_without_a_pin_is_refused() {
    let disk = &mut Disk::new();
    let store = &mut open_store(disk);
    assert!(matches!(
        append(
            store,
            disk,
            &service_head("bloom-machine", &signing_key(), "signer-audit-1", 1, "11")
        ),
        Err(CheckpointError::UnpinnedPeer)
    ));
    assert_eq!(disk.syncs, 0);
}

#[test]
fn retained_records_must_be_canonical_and_addressed_to_the_recipient() {
    let message = |bytes: Vec<u8>| {
        let disk = &mut Disk::new();
        disk.place(
            checkpoint_filename(&head(1, "11")).as_bytes(),
            FileKind::Regular,
            0o600,
            bytes,
        );
        match open_store_result(disk) {
            Err(CheckpointError::Malformed(text)) => text,
            Err(other) => panic!("{other:?}"),
            Ok(_) => panic!("the store opened"),
        }
    };
    let exact = record("bloom-broker", head(1, "11")).bytes().unwrap();
    let mut spaced = exact.clone();
    spaced.push(b' ');
    assert_eq!(message(spaced), "checkpoint entry is not canonical JCS");
    assert_eq!(
        message(record("bloom-signer", head(1, "11")).bytes().unwrap()),
        "checkpoint schema or recipient mismatch"
    );
    assert_eq!(
        message(record("bloom-broker", head(2, "11")).bytes().unwrap()),
        "checkpoint filename does not bind its peer and sequence"
    );
    let disk = &mut Disk::new();
    disk.place(b"stray\xff", FileKind::Directory, 0o600, vec![]);
    match open_store_result(disk) {
        Err(CheckpointError::Malformed(text)) => assert_eq!(text, "unsafe entry stray\u{fffd}"),
        other => panic!("a stray entry gave {:?}", other.map(|_| ())),
    }
}

#[test]
fn a_higher_head_that_lands_during_publication_is_reconciled() {
    let disk = &mut Disk::new();
    let store = &mut open_store(disk);
    let (mut task, mut action) = store.append(&head(5, "55"));
    while !matches!(action, DiskAction::Publish { .. }) {
        let reply = disk.reply(&action);
        action = store.answer(&mut task, reply);
    }
    let newer = head(6, "66");
    disk.place(
        checkpoint_filename(&newer).as_bytes(),
        FileKind::Regular,
        0o600,
        record("bloom-broker", newer.clone()).bytes().unwrap(),
    );
    assert!(matches!(
        run(store, disk, (task, action)),
        DiskAction::Appended(AppendOutcome::Appended)
    ));
    assert_eq!(latest(store, disk, "bloom-signer").unwrap(), Some(newer));
    assert!(matches!(
        append(store, disk, &head(5, "55")),
        Err(CheckpointError::SequenceRollback)
    ));
}

#[test]
fn checkpoint_names_bind_service_sequence_and_key() {
    assert_eq!(
        checkpoint_filename(&head(7, "11")),
        "664ad59ddd002fe19a9c6dd22012d850b3fb11b5d5ff23174b57b6062c66c1cf-00000000000000000007-\
         511559ece21bb8ffb6487e8dca9b98b1dd3521f7584d4f699460a6383da27de0.jcs"
    );
}

#[test]
fn trust_needs_one_live_key_and_a_closed_history() {
    let refused = |current, historical, handovers| match PeerTrust::new(
        current, historical, handovers,
    ) {
        Err(CheckpointError::Malformed(text)) => text,
        Err(other) => panic!("{other:?}"),
        Ok(_) => panic!("the trust was accepted"),
    };
    let live = || pin("bloom-signer", "signer-app-2", &rotated_signing_key());
    let old = || pin("bloom-signer", "signer-audit-1", &signing_key());
    assert_eq!(
        refused(vec![live(), old()], vec![], vec![]),
        "duplicate current peer application service"
    );
    assert_eq!(
        refused(vec![], vec![old()], vec![]),
        "historical application key has no current peer service"
    );
    assert_eq!(
        refused(vec![live()], vec![live()], vec![]),
        "duplicate current or historical peer application key"
    );
    assert_eq!(
        refused(vec![live()], vec![old(), old()], vec![]),
        "duplicate current or historical peer application key"
    );
    assert_eq!(
        refused(vec![], vec![], vec![handover(7, "11")]),
        "handover has no pinned peer service"
    );
    assert_eq!(
        refused(vec![live()], vec![], vec![handover(7, "11")]),
        "handover keys are equal or are not present in packaging key history"
    );
    assert_eq!(
        refused(
            vec![live()],
            vec![old()],
            vec![handover(7, "11"), handover(8, "11")]
        ),
        "duplicate application-key handover"
    );
    let trust = PeerTrust::new(vec![live()], vec![old()], vec![handover(7, "11")]).unwrap();
    trust.verify_retained_head(&head(7, "11")).unwrap();
    assert!(matches!(
        trust.verify_live_head(&head(7, "11")),
        Err(CheckpointError::InvalidSignature)
    ));
    let next = keyed_head(&rotated_signing_key(), "signer-app-2", 7, "11");
    assert!(trust.valid_equal_sequence_handover(&head(7, "11"), &next));
    assert!(!trust.valid_handover(&next, &head(7, "11")));
    assert!(trust.head_stands_after(&next, &head(7, "11")));
}

#[test]
fn chains_are_put_in_order_and_checked() {
    let trust = PeerTrust::new(
        vec![pin("bloom-signer", "signer-app-2", &rotated_signing_key())],
        vec![pin("bloom-signer", "signer-audit-1", &signing_key())],
        vec![handover(7, "11")],
    )
    .unwrap();
    let new = |sequence, hash| {
        record(
            "bloom-broker",
            keyed_head(&rotated_signing_key(), "signer-app-2", sequence, hash),
        )
    };
    let old = |sequence, hash| record("bloom-broker", head(sequence, hash));
    let mut records = vec![new(8, "22"), new(7, "11"), old(7, "11"), old(6, "33")];
    trust.verify_record_chains(&mut records).unwrap();
    let order: Vec<(u64, &str)> = records
        .iter()
        .map(|record| {
            (
                record.peer_head.sequence.get(),
                record.peer_head.key_id.as_str(),
            )
        })
        .collect();
    assert_eq!(
        order,
        [
            (6, "signer-audit-1"),
            (7, "signer-audit-1"),
            (7, "signer-app-2"),
            (8, "signer-app-2"),
        ]
    );
    assert!(matches!(
        trust.verify_record_chains(&mut vec![old(7, "11"), old(7, "22")]),
        Err(CheckpointError::SequenceConflict)
    ));
    // The retired key may not speak again after its handover.
    assert!(matches!(
        trust.verify_record_chains(&mut vec![old(7, "11"), new(7, "11"), old(8, "22")]),
        Err(CheckpointError::SequenceConflict)
    ));
    // A handover is bound to the head that it names.
    assert!(matches!(
        trust.verify_record_chains(&mut vec![old(6, "11"), new(8, "22")]),
        Err(CheckpointError::SequenceConflict)
    ));
}

#[test]
fn chains_do_not_depend_on_the_listing_order() {
    let trust = PeerTrust::new(
        vec![pin("bloom-signer", "signer-app-2", &rotated_signing_key())],
        vec![pin("bloom-signer", "signer-audit-1", &signing_key())],
        vec![handover(7, "11")],
    )
    .unwrap();
    let records = || {
        vec![
            record("bloom-broker", head(6, "33")),
            record("bloom-broker", head(7, "11")),
            record(
                "bloom-broker",
                keyed_head(&rotated_signing_key(), "signer-app-2", 7, "11"),
            ),
            record(
                "bloom-broker",
                keyed_head(&rotated_signing_key(), "signer-app-2", 8, "22"),
            ),
        ]
    };
    for order in [[0, 1, 2, 3], [3, 2, 1, 0], [2, 0, 3, 1], [1, 3, 0, 2]] {
        let mut listed: Vec<CheckpointRecord> =
            order.iter().map(|at| records()[*at].clone()).collect();
        trust.verify_record_chains(&mut listed).unwrap();
        assert_eq!(listed, records());
    }
}

/// Keys `key-a`, `key-b` and `key-c` of one service, handed over from b to c and from c to a.
fn descending_handovers() -> (Vec<PinnedAuditKey>, Vec<PinnedAuditKey>, Vec<ApplicationKeyHandover>) {
    let step = |old: &str, new: &str| ApplicationKeyHandover {
        service_id: Token::new("bloom-signer").unwrap(),
        old_key_id: Token::new(old).unwrap(),
        new_key_id: Token::new(new).unwrap(),
        sequence: DecimalU64::new(7),
        head_hash: Digest32::new(&"11".repeat(32)).unwrap(),
    };
    (
        vec![pin("bloom-signer", "key-a", &lettered_key("a"))],
        vec![
            pin("bloom-signer", "key-b", &lettered_key("b")),
            pin("bloom-signer", "key-c", &lettered_key("c")),
        ],
        vec![step("key-b", "key-c"), step("key-c", "key-a")],
    )
}

fn lettered_key(letter: &str) -> SigningKey {
    SigningKey::from_bytes(&[letter.as_bytes()[0]; 32])
}

fn lettered_head(letter: &str, sequence: u64, hash_byte: &str) -> SignedJournalHead {
    keyed_head(
        &lettered_key(letter),
        &format!("key-{letter}"),
        sequence,
        hash_byte,
    )
}

#[test]
fn heads_at_one_sequence_follow_their_handovers() {
    let (current, historical, handovers) = descending_handovers();
    let trust = PeerTrust::new(current, historical, handovers).unwrap();
    let at_seven = |letter: &str| record("bloom-broker", lettered_head(letter, 7, "11"));
    for listed in [["a", "b", "c"], ["c", "b", "a"], ["b", "a", "c"]] {
        let mut records: Vec<CheckpointRecord> =
            listed.iter().map(|letter| at_seven(letter)).collect();
        trust.verify_record_chains(&mut records).unwrap();
        let order: Vec<&str> = records
            .iter()
            .map(|record| record.peer_head.key_id.as_str())
            .collect();
        assert_eq!(order, ["key-b", "key-c", "key-a"]);
    }
    assert!(trust.head_stands_after(
        &lettered_head("a", 7, "11"),
        &lettered_head("b", 7, "11")
    ));
    assert!(!trust.head_stands_after(
        &lettered_head("b", 7, "11"),
        &lettered_head("a", 7, "11")
    ));
    // Without a handover at this hash only the key IDs decide.
    assert!(trust.head_stands_after(
        &lettered_head("b", 7, "22"),
        &lettered_head("a", 7, "22")
    ));
}

#[test]
fn two_handovers_at_one_head_survive_a_restart() {
    let disk = &mut Disk::new();
    for letter in ["a", "b", "c"] {
        let retained = record("bloom-broker", lettered_head(letter, 7, "11"));
        let name = checkpoint_filename(&retained.peer_head).into_bytes();
        disk.place(&name, FileKind::Regular, 0o600, retained.bytes().unwrap());
    }
    let (current, historical, handovers) = descending_handovers();
    let store = CheckpointStore::open_with_history(
        &disk.root(),
        UID,
        Token::new("bloom-broker").unwrap(),
        current,
        historical,
        handovers,
    );
    let store = &mut opened(disk, store).unwrap();
    assert_eq!(
        latest(store, disk, "bloom-signer").unwrap(),
        Some(lettered_head("a", 7, "11"))
    );
    assert_eq!(
        append(store, disk, &lettered_head("a", 8, "22")).unwrap(),
        AppendOutcome::Appended
    );
}

#[test]
fn a_lookup_reads_a_directory_that_was_not_read_yet() {
    let disk = &mut Disk::new();
    let store = &mut open_store(disk);
    append(store, disk, &head(7, "11")).unwrap();
    let unread = &mut CheckpointStore::open(
        &disk.root(),
        UID,
        Token::new("bloom-broker").unwrap(),
        vec![pin("bloom-signer", "signer-audit-1", &signing_key())],
    )
    .unwrap();
    let scans = disk.scans;
    assert_eq!(
        latest(unread, disk, "bloom-signer").unwrap(),
        Some(head(7, "11"))
    );
    assert_eq!(disk.scans, scans + 1);
    latest(unread, disk, "bloom-signer").unwrap();
    assert_eq!(disk.scans, scans + 1);
}

#[test]
fn cached_files_are_compared_in_the_order_of_their_names() {
    let disk = &mut Disk::new();
    let names: Vec<Vec<u8>> = [9, 7, 8]
        .iter()
        .map(|sequence| {
            let retained = record("bloom-broker", head(*sequence, "11"));
            let name = checkpoint_filename(&retained.peer_head).into_bytes();
            disk.place(&name, FileKind::Regular, 0o600, retained.bytes().unwrap());
            name
        })
        .collect();
    let mut store = CheckpointStore::open(
        &disk.root(),
        UID,
        Token::new("bloom-broker").unwrap(),
        vec![pin("bloom-signer", "signer-audit-1", &signing_key())],
    )
    .unwrap();
    let (mut task, mut action) = store.read_all();
    while !matches!(action, DiskAction::Opened) {
        let listed = matches!(action, DiskAction::NextEntry { restart: true });
        let mut reply = disk.reply(&action);
        if listed {
            disk.listing = VecDeque::from(vec![names[1].clone(), names[2].clone()]);
            reply = DiskReply::Entry(names[0].clone());
        }
        action = store.answer(&mut task, reply);
    }
    let (mut task, mut action) = store.latest(&Token::new("bloom-signer").unwrap());
    let mut compared = Vec::new();
    while !matches!(action, DiskAction::ReadEntry(_)) {
        if let DiskAction::StatEntry(name) = &action {
            compared.push(name.clone());
        }
        let reply = disk.reply(&action);
        action = store.answer(&mut task, reply);
    }
    assert_eq!(
        compared,
        vec![
            names[1].clone(),
            names[2].clone(),
            names[0].clone(),
            names[0].clone()
        ]
    );
}

#[test]
fn a_lookup_answers_the_head_that_was_appended_last() {
    let disk = &mut Disk::new();
    let store = &mut open_store(disk);
    assert_eq!(latest(store, disk, "bloom-signer").unwrap(), None);
    for (sequence, hash_byte) in [(9, "11"), (12, "22"), (10, "33"), (12, "44"), (100, "55")] {
        let _ = append(store, disk, &head(sequence, hash_byte));
    }
    assert_eq!(
        latest(store, disk, "bloom-signer").unwrap(),
        Some(head(100, "55"))
    );
    assert_eq!(latest(store, disk, "bloom-machine").unwrap(), None);
    assert_eq!(disk.entries.len(), 3);
    let reopened = &mut open_store(disk);
    assert_eq!(
        latest(reopened, disk, "bloom-signer").unwrap(),
        Some(head(100, "55"))
    );
}
