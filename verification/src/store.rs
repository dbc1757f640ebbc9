//! The checkpoint store: what it asks of the disk, and what it makes of the answers.

use vstd::prelude::*;
use vstd::string::*;
use vstd::utf8::*;

use crate::audit::{JournalHeadView, SignedJournalHead};
use crate::chain::{latest_head, same_head, AppendDecision};
use crate::checkpoint::{
    checkpoint_filename, malformed_checkpoint, malformed_entry, record_stamp, root_stamp,
    ApplicationKeyHandover, AppendOutcome, CheckpointError, CheckpointErrorView,
    CheckpointRecord, PinnedAuditKey, RecordStamp, RecordView, RootStamp, TrustView,
    CHECKPOINT_SCHEMA,
};
use crate::files::FileFacts;
use crate::ids::Token;
use crate::peer_trust::PeerTrust;
use crate::text::{is_bytes_before, same_bytes, same_text};

verus! {

/// How often a directory that changes while it is read is read again.
pub const SCAN_ATTEMPTS: u8 = 3;

/// What is asked of the disk next, or how the work ended.
#[derive(Debug)]
pub enum DiskAction {
    /// Read the metadata of the checkpoint directory: [`DiskReply::Facts`].
    StatRoot,
    /// Read the next name in the directory, from a new listing where `restart` is set:
    /// [`DiskReply::Entry`] or [`DiskReply::NoMoreEntries`].
    NextEntry { restart: bool },
    /// Read the metadata of an entry: [`DiskReply::Facts`].
    StatEntry(Vec<u8>),
    /// Read and parse an entry: [`DiskReply::Record`].
    ReadEntry(Vec<u8>),
    /// Write a file beside the directory, make it durable and link it into the directory under
    /// its name: [`DiskReply::Linked`], [`DiskReply::AlreadyExists`] or [`DiskReply::NoParent`].
    Publish { name: Vec<u8>, bytes: Vec<u8> },
    /// Make the directory durable: [`DiskReply::Synced`].
    SyncRoot,
    Opened,
    Appended(AppendOutcome),
    Latest(Option<SignedJournalHead>),
    Failed(CheckpointError),
}

/// What the disk answered. Every request may also fail.
#[derive(Debug)]
pub enum DiskReply {
    Facts(FileFacts),
    Entry(Vec<u8>),
    NoMoreEntries,
    Record { bytes: Vec<u8>, parsed: Result<CheckpointRecord, String> },
    Linked,
    AlreadyExists,
    NoParent,
    Synced,
    Failed(std::io::Error),
}

/// What a [`DiskAction`] says.
pub enum ActionView {
    StatRoot,
    NextEntry { restart: bool },
    StatEntry(Seq<u8>),
    ReadEntry(Seq<u8>),
    Publish { name: Seq<u8>, bytes: Seq<u8> },
    SyncRoot,
    Opened,
    Appended(AppendOutcome),
    Latest(Option<JournalHeadView>),
    Failed(CheckpointErrorView),
}

impl View for DiskAction {
    type V = ActionView;

    open spec fn view(&self) -> ActionView {
        match *self {
            DiskAction::StatRoot => ActionView::StatRoot,
            DiskAction::NextEntry { restart } => ActionView::NextEntry { restart },
            DiskAction::StatEntry(name) => ActionView::StatEntry(name@),
            DiskAction::ReadEntry(name) => ActionView::ReadEntry(name@),
            DiskAction::Publish { name, bytes } => ActionView::Publish {
                name: name@,
                bytes: bytes@,
            },
            DiskAction::SyncRoot => ActionView::SyncRoot,
            DiskAction::Opened => ActionView::Opened,
            DiskAction::Appended(outcome) => ActionView::Appended(outcome),
            DiskAction::Latest(None) => ActionView::Latest(None),
            DiskAction::Latest(Some(head)) => ActionView::Latest(Some(head@)),
            DiskAction::Failed(error) => ActionView::Failed(error@),
        }
    }
}

/// What a [`DiskReply`] says.
pub enum ReplyView {
    Facts(FileFacts),
    Entry(Seq<u8>),
    NoMoreEntries,
    Record { bytes: Seq<u8>, parsed: Result<RecordView, Seq<char>> },
    Linked,
    AlreadyExists,
    NoParent,
    Synced,
    Failed(std::io::Error),
}

pub open spec fn parsed_view(parsed: Result<CheckpointRecord, String>) -> Result<
    RecordView,
    Seq<char>,
> {
    match parsed {
        Ok(record) => Ok(record@),
        Err(text) => Err(text@),
    }
}

impl View for DiskReply {
    type V = ReplyView;

    open spec fn view(&self) -> ReplyView {
        match *self {
            DiskReply::Facts(facts) => ReplyView::Facts(facts),
            DiskReply::Entry(name) => ReplyView::Entry(name@),
            DiskReply::NoMoreEntries => ReplyView::NoMoreEntries,
            DiskReply::Record { bytes, parsed } => ReplyView::Record {
                bytes: bytes@,
                parsed: parsed_view(parsed),
            },
            DiskReply::Linked => ReplyView::Linked,
            DiskReply::AlreadyExists => ReplyView::AlreadyExists,
            DiskReply::NoParent => ReplyView::NoParent,
            DiskReply::Synced => ReplyView::Synced,
            DiskReply::Failed(error) => ReplyView::Failed(error),
        }
    }
}

/// What a piece of work is for.
#[derive(Debug)]
pub enum Goal {
    Open,
    Append(SignedJournalHead),
    Latest(Token),
}

/// What a [`Goal`] says.
pub enum GoalView {
    Open,
    Append(JournalHeadView),
    Latest(Seq<char>),
}

impl View for Goal {
    type V = GoalView;

    open spec fn view(&self) -> GoalView {
        match *self {
            Goal::Open => GoalView::Open,
            Goal::Append(head) => GoalView::Append(head@),
            Goal::Latest(service) => GoalView::Latest(service@),
        }
    }
}

/// Which request is outstanding.
#[derive(Debug)]
pub enum Phase {
    CacheRoot,
    CacheEntry(usize),
    CachedFacts,
    CachedRecord,
    ScanRoot,
    ScanEntry,
    ScanFacts(Vec<u8>),
    ScanRecord(Vec<u8>),
    ScanEnd,
    Publishing,
    ExistingFacts,
    ExistingRecord,
    Syncing(AppendOutcome),
    Done,
}

/// What a [`Phase`] says.
pub enum PhaseView {
    CacheRoot,
    CacheEntry(int),
    CachedFacts,
    CachedRecord,
    ScanRoot,
    ScanEntry,
    ScanFacts(Seq<u8>),
    ScanRecord(Seq<u8>),
    ScanEnd,
    Publishing,
    ExistingFacts,
    ExistingRecord,
    Syncing(AppendOutcome),
    Done,
}

impl View for Phase {
    type V = PhaseView;

    open spec fn view(&self) -> PhaseView {
        match *self {
            Phase::CacheRoot => PhaseView::CacheRoot,
            Phase::CacheEntry(i) => PhaseView::CacheEntry(i as int),
            Phase::CachedFacts => PhaseView::CachedFacts,
            Phase::CachedRecord => PhaseView::CachedRecord,
            Phase::ScanRoot => PhaseView::ScanRoot,
            Phase::ScanEntry => PhaseView::ScanEntry,
            Phase::ScanFacts(name) => PhaseView::ScanFacts(name@),
            Phase::ScanRecord(name) => PhaseView::ScanRecord(name@),
            Phase::ScanEnd => PhaseView::ScanEnd,
            Phase::Publishing => PhaseView::Publishing,
            Phase::ExistingFacts => PhaseView::ExistingFacts,
            Phase::ExistingRecord => PhaseView::ExistingRecord,
            Phase::Syncing(outcome) => PhaseView::Syncing(outcome),
            Phase::Done => PhaseView::Done,
        }
    }
}

/// One piece of work on a store, as far as it has come.
#[derive(Debug)]
pub struct CheckpointTask {
    goal: Goal,
    phase: Phase,
    published: Option<AppendOutcome>,
    attempts: u8,
    before: Option<RootStamp>,
    records: Vec<CheckpointRecord>,
    stamps: Vec<(Vec<u8>, RecordStamp)>,
}

/// What a [`CheckpointTask`] says.
pub struct TaskView {
    pub goal: GoalView,
    pub phase: PhaseView,
    /// What the head's publication gave, once it was published.
    pub published: Option<AppendOutcome>,
    /// How often the directory was read to its end since the work last asked for it.
    pub attempts: int,
    /// The directory's stamp when it was read last.
    pub before: Option<RootStamp>,
    /// What was read of the directory.
    pub records: Seq<RecordView>,
    pub stamps: Seq<(Seq<u8>, RecordStamp)>,
}

pub open spec fn stamp_views(stamps: Seq<(Vec<u8>, RecordStamp)>) -> Seq<(Seq<u8>, RecordStamp)> {
    stamps.map_values(|s: (Vec<u8>, RecordStamp)| (s.0@, s.1))
}

impl View for CheckpointTask {
    type V = TaskView;

    closed spec fn view(&self) -> TaskView {
        TaskView {
            goal: self.goal@,
            phase: self.phase@,
            published: self.published,
            attempts: self.attempts as int,
            before: self.before,
            records: crate::checkpoint::views(self.records@),
            stamps: stamp_views(self.stamps@),
        }
    }
}

/// Retained heads of a recipient's peers, with the last verified state of their directory.
pub struct CheckpointStore {
    expected_uid: u32,
    recipient_service_id: Token,
    trust: PeerTrust,
    read: bool,
    root_stamp: RootStamp,
    records: Vec<CheckpointRecord>,
    stamps: Vec<(Vec<u8>, RecordStamp)>,
}

/// What a [`CheckpointStore`] says.
pub struct StoreView {
    pub expected_uid: u32,
    pub recipient: Seq<char>,
    pub trust: TrustView,
    /// Whether the directory was read since the store was opened.
    pub read: bool,
    /// The last verified state of the directory: its stamp, its records in the order of chains,
    /// and the stamp of each file, in the order of names.
    pub root_stamp: RootStamp,
    pub records: Seq<RecordView>,
    pub stamps: Seq<(Seq<u8>, RecordStamp)>,
}

impl View for CheckpointStore {
    type V = StoreView;

    closed spec fn view(&self) -> StoreView {
        StoreView {
            expected_uid: self.expected_uid,
            recipient: self.recipient_service_id@,
            trust: self.trust@,
            read: self.read,
            root_stamp: self.root_stamp,
            records: crate::checkpoint::views(self.records@),
            stamps: stamp_views(self.stamps@),
        }
    }
}

/// The text that stands for a name that may not be UTF-8.
pub uninterp spec fn lossy_text(bytes: Seq<u8>) -> Seq<char>;

/// `String::from_utf8_lossy`.
#[verifier::external_body]
fn lossy(bytes: &[u8]) -> (r: String)
    ensures
        r@ == lossy_text(bytes@),
{
    String::from_utf8_lossy(bytes).into_owned()
}

/// The record that retains a head.
pub open spec fn record_of(store: StoreView, head: JournalHeadView) -> RecordView {
    RecordView { schema: CHECKPOINT_SCHEMA@, recipient: store.recipient, head }
}

/// The name of the entry that retains a head.
pub open spec fn entry_name(head: JournalHeadView) -> Seq<u8> {
    encode_utf8(crate::checkpoint::filename_of(head))
}

/// Whether what was read of an entry is a record of this store.
pub open spec fn entry_check(
    store: StoreView,
    name: Seq<u8>,
    bytes: Seq<u8>,
    parsed: Result<RecordView, Seq<char>>,
) -> Result<(), CheckpointErrorView> {
    match parsed {
        Err(text) => Err(malformed_entry(text)),
        Ok(record) => match crate::checkpoint::record_bytes(record) {
            Err(e) => Err(e),
            Ok(canonical) => if canonical != bytes {
                Err(malformed_entry("checkpoint entry is not canonical JCS"@))
            } else if record.schema != CHECKPOINT_SCHEMA@ || record.recipient != store.recipient {
                Err(malformed_entry("checkpoint schema or recipient mismatch"@))
            } else {
                match crate::peer_trust::retained_check(store.trust, record.head) {
                    Err(e) => Err(e),
                    Ok(_) => if name != entry_name(record.head) {
                        Err(
                            malformed_entry(
                                "checkpoint filename does not bind its peer and sequence"@,
                            ),
                        )
                    } else {
                        Ok(())
                    },
                }
            },
        },
    }
}

/// Whether what was read of a head's entry is exactly the record that retains it.
pub open spec fn exact_check(
    store: StoreView,
    head: JournalHeadView,
    bytes: Seq<u8>,
    parsed: Result<RecordView, Seq<char>>,
) -> Result<(), CheckpointErrorView> {
    match crate::checkpoint::record_bytes(record_of(store, head)) {
        Err(e) => Err(e),
        Ok(expected) => if bytes != expected {
            Err(CheckpointErrorView::SequenceConflict)
        } else {
            match parsed {
                Err(text) => Err(malformed_entry(text)),
                Ok(record) => match crate::checkpoint::record_bytes(record) {
                    Err(e) => Err(e),
                    Ok(canonical) => if canonical != bytes || record != record_of(store, head) {
                        Err(CheckpointErrorView::SequenceConflict)
                    } else {
                        crate::peer_trust::retained_check(store.trust, record.head)
                    },
                },
            }
        },
    }
}

/// The store, the work and the next request.
pub struct Step {
    pub store: StoreView,
    pub task: TaskView,
    pub action: ActionView,
}

pub open spec fn wait(store: StoreView, task: TaskView, phase: PhaseView, action: ActionView) -> Step {
    Step { store, task: TaskView { phase, ..task }, action }
}

pub open spec fn finish(store: StoreView, task: TaskView, action: ActionView) -> Step {
    wait(store, task, PhaseView::Done, action)
}

pub open spec fn fail(store: StoreView, task: TaskView, error: CheckpointErrorView) -> Step {
    finish(store, task, ActionView::Failed(error))
}

/// Reads the directory from its beginning.
pub open spec fn scan(store: StoreView, task: TaskView, attempts: int) -> Step {
    Step {
        store,
        task: TaskView {
            phase: PhaseView::ScanRoot,
            attempts,
            records: Seq::empty(),
            stamps: Seq::empty(),
            ..task
        },
        action: ActionView::StatRoot,
    }
}

/// The cached head of the service that the work is about.
pub open spec fn cached(store: StoreView, goal: GoalView) -> Option<JournalHeadView> {
    match goal {
        GoalView::Open => None,
        GoalView::Append(head) => crate::chain::last_of(store.records, head.service_id),
        GoalView::Latest(service) => crate::chain::last_of(store.records, service),
    }
}

/// Reads the entry of a cached head again.
pub open spec fn recheck(store: StoreView, task: TaskView, head: JournalHeadView) -> Step {
    match crate::checkpoint::record_bytes(record_of(store, head)) {
        Err(e) => fail(store, task, e),
        Ok(_) => wait(
            store,
            task,
            PhaseView::CachedFacts,
            ActionView::StatEntry(entry_name(head)),
        ),
    }
}

/// Uses the cache, whose directory and files are unchanged.
pub open spec fn use_cache(store: StoreView, task: TaskView) -> Step {
    match task.goal {
        GoalView::Latest(_) => match cached(store, task.goal) {
            None => finish(store, task, ActionView::Latest(None)),
            Some(head) => recheck(store, task, head),
        },
        GoalView::Append(wanted) => if cached(store, task.goal) == Some(wanted) {
            recheck(store, task, wanted)
        } else {
            scan(store, task, 0)
        },
        GoalView::Open => scan(store, task, 0),
    }
}

/// Compares the next file's stamp with the cache, or uses the cache when all were compared.
pub open spec fn compare_from(store: StoreView, task: TaskView, i: int) -> Step {
    if i < store.stamps.len() {
        wait(store, task, PhaseView::CacheEntry(i), ActionView::StatEntry(store.stamps[i].0))
    } else {
        use_cache(store, task)
    }
}

/// Publishes the record of a head.
pub open spec fn publish(store: StoreView, task: TaskView, head: JournalHeadView) -> Step {
    match crate::checkpoint::record_bytes(record_of(store, head)) {
        Err(e) => fail(store, task, e),
        Ok(bytes) => wait(
            store,
            task,
            PhaseView::Publishing,
            ActionView::Publish { name: entry_name(head), bytes },
        ),
    }
}

/// What follows once the directory was read in one state.
pub open spec fn scanned(store: StoreView, task: TaskView) -> Step {
    match task.goal {
        GoalView::Open => finish(store, task, ActionView::Opened),
        GoalView::Latest(service) => finish(
            store,
            task,
            ActionView::Latest(crate::chain::last_of(store.records, service)),
        ),
        GoalView::Append(head) => match task.published {
            Some(outcome) => finish(store, task, ActionView::Appended(outcome)),
            None => match crate::chain::append_decision(store.trust, store.records, head) {
                Err(e) => fail(store, task, e),
                Ok(AppendDecision::AlreadyPresent) => finish(
                    store,
                    task,
                    ActionView::Appended(AppendOutcome::AlreadyPresent),
                ),
                Ok(AppendDecision::Publish) => publish(store, task, head),
            },
        },
    }
}

/// What follows when the directory's metadata was read behind its last entry.
pub open spec fn scan_ended(store: StoreView, task: TaskView, root: FileFacts) -> Step {
    match crate::checkpoint::root_check(root, store.expected_uid) {
        Err(e) => fail(store, task, e),
        Ok(_) => if task.before == Some(crate::checkpoint::root_stamp_of(root)) {
            scanned(
                StoreView {
                    read: true,
                    root_stamp: crate::checkpoint::root_stamp_of(root),
                    records: task.records,
                    stamps: task.stamps,
                    ..store
                },
                TaskView { records: Seq::empty(), stamps: Seq::empty(), ..task },
            )
        } else if task.attempts + 1 < SCAN_ATTEMPTS {
            scan(store, task, task.attempts + 1)
        } else {
            fail(
                store,
                task,
                malformed_entry("checkpoint root changed repeatedly during reconciliation"@),
            )
        },
    }
}

/// What follows when every entry was read: the records must be unbroken chains.
pub open spec fn entries_ended(store: StoreView, task: TaskView) -> Step {
    let ordered = crate::chain::in_chain_order(store.trust, task.records);
    let task = TaskView { records: ordered, ..task };
    match crate::chain::chain_check(store.trust, ordered) {
        Err(e) => fail(store, task, e),
        Ok(_) => wait(store, task, PhaseView::ScanEnd, ActionView::StatRoot),
    }
}

pub open spec fn unexpected() -> CheckpointErrorView {
    malformed_entry("checkpoint disk reply does not answer the request"@)
}

/// What follows on the directory's metadata, while the cache is compared.
pub open spec fn on_cache_root(store: StoreView, task: TaskView, root: FileFacts) -> Step {
    match crate::checkpoint::root_check(root, store.expected_uid) {
        Err(e) => fail(store, task, e),
        Ok(_) => if store.read && crate::checkpoint::root_stamp_of(root) == store.root_stamp {
            compare_from(store, task, 0)
        } else {
            scan(store, task, 0)
        },
    }
}

/// What follows on a cached file's metadata.
pub open spec fn on_cache_entry(store: StoreView, task: TaskView, i: int, facts: FileFacts) -> Step {
    if 0 <= i < store.stamps.len() && crate::checkpoint::record_stamp_of(facts)
        == store.stamps[i].1 {
        compare_from(store, task, i + 1)
    } else {
        scan(store, task, 0)
    }
}

/// What follows on the metadata of the cached head's file.
pub open spec fn on_cached_facts(store: StoreView, task: TaskView, facts: FileFacts) -> Step {
    match cached(store, task.goal) {
        None => fail(store, task, unexpected()),
        Some(head) => if !facts.is_private_file() {
            fail(store, task, malformed_entry("existing checkpoint path is unsafe"@))
        } else {
            wait(
                store,
                task,
                PhaseView::CachedRecord,
                ActionView::ReadEntry(entry_name(head)),
            )
        },
    }
}

/// What follows on the contents of the cached head's file.
pub open spec fn on_cached_record(
    store: StoreView,
    task: TaskView,
    bytes: Seq<u8>,
    parsed: Result<RecordView, Seq<char>>,
) -> Step {
    match cached(store, task.goal) {
        None => fail(store, task, unexpected()),
        Some(head) => match exact_check(store, head, bytes, parsed) {
            Err(e) => fail(store, task, e),
            Ok(_) => finish(
                store,
                task,
                match task.goal {
                    GoalView::Append(_) => ActionView::Appended(AppendOutcome::AlreadyPresent),
                    _ => ActionView::Latest(Some(head)),
                },
            ),
        },
    }
}

/// What follows on the directory's metadata, before it is read.
pub open spec fn on_scan_root(store: StoreView, task: TaskView, root: FileFacts) -> Step {
    match crate::checkpoint::root_check(root, store.expected_uid) {
        Err(e) => fail(store, task, e),
        Ok(_) => wait(
            store,
            TaskView { before: Some(crate::checkpoint::root_stamp_of(root)), ..task },
            PhaseView::ScanEntry,
            ActionView::NextEntry { restart: true },
        ),
    }
}

/// The stamps with that of a name: in place of an equal name, or in its place by name.
pub open spec fn with_stamp(
    stamps: Seq<(Seq<u8>, RecordStamp)>,
    name: Seq<u8>,
    stamp: RecordStamp,
) -> Seq<(Seq<u8>, RecordStamp)>
    decreases stamps.len(),
{
    if stamps.len() == 0 {
        seq![(name, stamp)]
    } else if stamps.last().0 == name {
        stamps.drop_last().push((name, stamp))
    } else if crate::text::bytes_before(stamps.last().0, name) {
        stamps.push((name, stamp))
    } else {
        with_stamp(stamps.drop_last(), name, stamp).push(stamps.last())
    }
}

/// What follows on an entry's metadata: only private files are read.
pub open spec fn on_scan_facts(
    store: StoreView,
    task: TaskView,
    name: Seq<u8>,
    facts: FileFacts,
) -> Step {
    if !facts.is_private_file() {
        fail(store, task, malformed_entry("unsafe entry "@ + lossy_text(name)))
    } else {
        wait(
            store,
            TaskView {
                stamps: with_stamp(
                    task.stamps,
                    name,
                    crate::checkpoint::record_stamp_of(facts),
                ),
                ..task
            },
            PhaseView::ScanRecord(name),
            ActionView::ReadEntry(name),
        )
    }
}

/// What follows on an entry's contents.
pub open spec fn on_scan_record(
    store: StoreView,
    task: TaskView,
    name: Seq<u8>,
    bytes: Seq<u8>,
    parsed: Result<RecordView, Seq<char>>,
) -> Step {
    match entry_check(store, name, bytes, parsed) {
        Err(e) => fail(store, task, e),
        Ok(_) => wait(
            store,
            TaskView { records: task.records.push(parsed->Ok_0), ..task },
            PhaseView::ScanEntry,
            ActionView::NextEntry { restart: false },
        ),
    }
}

/// What follows when the head's entry exists already.
pub open spec fn on_existing(store: StoreView, task: TaskView) -> Step {
    match task.goal {
        GoalView::Append(head) => wait(
            store,
            task,
            PhaseView::ExistingFacts,
            ActionView::StatEntry(entry_name(head)),
        ),
        _ => fail(store, task, unexpected()),
    }
}

/// What follows on the metadata of the head's existing entry.
pub open spec fn on_existing_facts(store: StoreView, task: TaskView, facts: FileFacts) -> Step {
    match task.goal {
        GoalView::Append(head) => if !facts.is_private_file() {
            fail(store, task, malformed_entry("existing checkpoint path is unsafe"@))
        } else {
            wait(
                store,
                task,
                PhaseView::ExistingRecord,
                ActionView::ReadEntry(entry_name(head)),
            )
        },
        _ => fail(store, task, unexpected()),
    }
}

/// What follows on the contents of the head's existing entry.
pub open spec fn on_existing_record(
    store: StoreView,
    task: TaskView,
    bytes: Seq<u8>,
    parsed: Result<RecordView, Seq<char>>,
) -> Step {
    match task.goal {
        GoalView::Append(head) => match exact_check(store, head, bytes, parsed) {
            Err(e) => fail(store, task, e),
            Ok(_) => wait(
                store,
                task,
                PhaseView::Syncing(AppendOutcome::AlreadyPresent),
                ActionView::SyncRoot,
            ),
        },
        _ => fail(store, task, unexpected()),
    }
}

/// What follows on a reply.
pub open spec fn next(store: StoreView, task: TaskView, reply: ReplyView) -> Step {
    match (task.phase, reply) {
        (_, ReplyView::Failed(error)) => fail(store, task, CheckpointErrorView::Io(error)),
        (PhaseView::CacheRoot, ReplyView::Facts(root)) => on_cache_root(store, task, root),
        (PhaseView::CacheEntry(i), ReplyView::Facts(facts)) => on_cache_entry(store, task, i, facts),
        (PhaseView::CachedFacts, ReplyView::Facts(facts)) => on_cached_facts(store, task, facts),
        (PhaseView::CachedRecord, ReplyView::Record { bytes, parsed }) => on_cached_record(
            store,
            task,
            bytes,
            parsed,
        ),
        (PhaseView::ScanRoot, ReplyView::Facts(root)) => on_scan_root(store, task, root),
        (PhaseView::ScanEntry, ReplyView::Entry(name)) => wait(
            store,
            task,
            PhaseView::ScanFacts(name),
            ActionView::StatEntry(name),
        ),
        (PhaseView::ScanEntry, ReplyView::NoMoreEntries) => entries_ended(store, task),
        (PhaseView::ScanFacts(name), ReplyView::Facts(facts)) => on_scan_facts(
            store,
            task,
            name,
            facts,
        ),
        (PhaseView::ScanRecord(name), ReplyView::Record { bytes, parsed }) => on_scan_record(
            store,
            task,
            name,
            bytes,
            parsed,
        ),
        (PhaseView::ScanEnd, ReplyView::Facts(root)) => scan_ended(store, task, root),
        (PhaseView::Publishing, ReplyView::NoParent) => fail(
            store,
            task,
            CheckpointErrorView::InvalidRoot,
        ),
        (PhaseView::Publishing, ReplyView::Linked) => wait(
            store,
            task,
            PhaseView::Syncing(AppendOutcome::Appended),
            ActionView::SyncRoot,
        ),
        (PhaseView::Publishing, ReplyView::AlreadyExists) => on_existing(store, task),
        (PhaseView::ExistingFacts, ReplyView::Facts(facts)) => on_existing_facts(store, task, facts),
        (PhaseView::ExistingRecord, ReplyView::Record { bytes, parsed }) => on_existing_record(
            store,
            task,
            bytes,
            parsed,
        ),
        (PhaseView::Syncing(outcome), ReplyView::Synced) => scan(
            store,
            TaskView { published: Some(outcome), ..task },
            0,
        ),
        _ => fail(store, task, unexpected()),
    }
}

/// The step that a store, a piece of work and a request make.
pub open spec fn step(store: CheckpointStore, task: CheckpointTask, action: DiskAction) -> Step {
    Step { store: store@, task: task@, action: action@ }
}

/// A copy of the bytes.
fn copy_bytes(bytes: &[u8]) -> (r: Vec<u8>)
    ensures
        r@ == bytes@,
{
    let mut out: Vec<u8> = Vec::new();
    out.extend_from_slice(bytes);
    assert(out@ =~= bytes@);
    out
}

/// The name of the entry that retains a head.
fn entry_name_bytes(head: &SignedJournalHead) -> (r: Vec<u8>)
    ensures
        r@ == entry_name(head@),
{
    copy_bytes(checkpoint_filename(head).as_str().as_bytes())
}

impl Clone for Phase {
    fn clone(&self) -> (r: Self)
        ensures
            r@ == self@,
    {
        match self {
            Phase::CacheRoot => Phase::CacheRoot,
            Phase::CacheEntry(i) => Phase::CacheEntry(*i),
            Phase::CachedFacts => Phase::CachedFacts,
            Phase::CachedRecord => Phase::CachedRecord,
            Phase::ScanRoot => Phase::ScanRoot,
            Phase::ScanEntry => Phase::ScanEntry,
            Phase::ScanFacts(name) => Phase::ScanFacts(copy_bytes(name.as_slice())),
            Phase::ScanRecord(name) => Phase::ScanRecord(copy_bytes(name.as_slice())),
            Phase::ScanEnd => Phase::ScanEnd,
            Phase::Publishing => Phase::Publishing,
            Phase::ExistingFacts => Phase::ExistingFacts,
            Phase::ExistingRecord => Phase::ExistingRecord,
            Phase::Syncing(outcome) => Phase::Syncing(*outcome),
            Phase::Done => Phase::Done,
        }
    }
}

impl CheckpointTask {
    /// Ends the work with an error.
    fn fail_with(&mut self, error: CheckpointError) -> (r: DiskAction)
        ensures
            final(self)@ == (TaskView { phase: PhaseView::Done, ..old(self)@ }),
            r@ == ActionView::Failed(error@),
    {
        self.phase = Phase::Done;
        DiskAction::Failed(error)
    }

    fn new(goal: Goal) -> (r: Self)
        ensures
            r@ == new_task(goal@),
    {
        let r = CheckpointTask {
            goal,
            phase: Phase::Done,
            published: None,
            attempts: 0,
            before: None,
            records: Vec::new(),
            stamps: Vec::new(),
        };
        assert(r@.records =~= Seq::empty());
        assert(r@.stamps =~= Seq::empty());
        r
    }
}

/// Work that has asked for nothing yet.
pub open spec fn new_task(goal: GoalView) -> TaskView {
    TaskView {
        goal,
        phase: PhaseView::Done,
        published: None,
        attempts: 0,
        before: None,
        records: Seq::empty(),
        stamps: Seq::empty(),
    }
}

/// A head that no service retains yet is signed by its live key before the disk is asked.
pub open spec fn begin_append(store: StoreView, head: JournalHeadView) -> Step {
    let task = new_task(GoalView::Append(head));
    match crate::peer_trust::live_check(store.trust, head) {
        Err(e) => fail(store, task, e),
        Ok(_) => wait(store, task, PhaseView::CacheRoot, ActionView::StatRoot),
    }
}

proof fn lemma_schema_is_token()
    ensures
        crate::ids::is_token_text(CHECKPOINT_SCHEMA@),
{
    reveal_strlit("bloom.audit-checkpoint/1");
}

impl CheckpointStore {
    /// Opens a checkpoint directory with exactly one live application key per peer.
    pub fn open(
        root: &FileFacts,
        expected_uid: u32,
        recipient_service_id: Token,
        pinned_keys: Vec<PinnedAuditKey>,
    ) -> (r: Result<Self, CheckpointError>)
        ensures
            opened(
                r,
                *root,
                expected_uid,
                recipient_service_id@,
                TrustView {
                    current: crate::checkpoint::views(pinned_keys@),
                    historical: Seq::empty(),
                    handovers: Seq::empty(),
                },
            ),
    {
        let none: Vec<PinnedAuditKey> = Vec::new();
        let no_handovers: Vec<ApplicationKeyHandover> = Vec::new();
        assert(crate::checkpoint::views(none@) =~= Seq::empty());
        assert(crate::checkpoint::views(no_handovers@) =~= Seq::empty());
        Self::open_with_history(
            root,
            expected_uid,
            recipient_service_id,
            pinned_keys,
            none,
            no_handovers,
        )
    }

    /// Opens a checkpoint directory with exactly one live application key per peer, plus
    /// packaging-owned verification-only history and handover tuples. Historical keys can
    /// validate retained records but can never append a newly observed live head. The directory's
    /// records are read by the work that [`Self::read_all`] begins, or by the first other work.
    pub fn open_with_history(
        root: &FileFacts,
        expected_uid: u32,
        recipient_service_id: Token,
        current_keys: Vec<PinnedAuditKey>,
        historical_keys: Vec<PinnedAuditKey>,
        handovers: Vec<ApplicationKeyHandover>,
    ) -> (r: Result<Self, CheckpointError>)
        ensures
            opened(
                r,
                *root,
                expected_uid,
                recipient_service_id@,
                TrustView {
                    current: crate::checkpoint::views(current_keys@),
                    historical: crate::checkpoint::views(historical_keys@),
                    handovers: crate::checkpoint::views(handovers@),
                },
            ),
    {
        let stamp = match root_stamp(root, expected_uid) {
            Ok(stamp) => stamp,
            Err(error) => {
                return Err(error);
            },
        };
        let trust = match PeerTrust::new(current_keys, historical_keys, handovers) {
            Ok(trust) => trust,
            Err(error) => {
                return Err(error);
            },
        };
        let store = CheckpointStore {
            expected_uid,
            recipient_service_id,
            trust,
            read: false,
            root_stamp: stamp,
            records: Vec::new(),
            stamps: Vec::new(),
        };
        assert(store@.records =~= Seq::empty());
        assert(store@.stamps =~= Seq::empty());
        Ok(store)
    }

    /// The record that retains a head.
    pub fn record_for(&self, head: &SignedJournalHead) -> (r: CheckpointRecord)
        ensures
            r@ == record_of(self@, head@),
    {
        proof {
            lemma_schema_is_token();
        }
        let schema = match Token::new(CHECKPOINT_SCHEMA) {
            Ok(schema) => schema,
            Err(_) => vstd::pervasive::unreached(),
        };
        CheckpointRecord {
            schema,
            recipient_service_id: self.recipient_service_id.clone(),
            peer_head: head.clone(),
        }
    }

    /// Whether what was read of an entry is a record of this store.
    fn check_entry(
        &mut self,
        name: &[u8],
        bytes: &[u8],
        parsed: &Result<CheckpointRecord, String>,
    ) -> (r: Result<(), CheckpointError>)
        ensures
            final(self)@ == old(self)@,
            crate::checkpoint::checked(r) == entry_check(
                old(self)@,
                name@,
                bytes@,
                parsed_view(*parsed),
            ),
    {
        let record = match parsed {
            Ok(record) => record,
            Err(text) => {
                return Err(malformed_checkpoint(text.as_str()));
            },
        };
        let canonical = match record.bytes() {
            Ok(canonical) => canonical,
            Err(error) => {
                return Err(error);
            },
        };
        if !same_bytes(canonical.as_slice(), bytes) {
            return Err(malformed_checkpoint("checkpoint entry is not canonical JCS"));
        }
        if !same_text(record.schema.as_str(), CHECKPOINT_SCHEMA)
            || !record.recipient_service_id.same_as(&self.recipient_service_id) {
            return Err(malformed_checkpoint("checkpoint schema or recipient mismatch"));
        }
        if let Err(error) = self.trust.verify_once(&record.peer_head) {
            return Err(error);
        }
        if !same_bytes(name, entry_name_bytes(&record.peer_head).as_slice()) {
            return Err(
                malformed_checkpoint("checkpoint filename does not bind its peer and sequence"),
            );
        }
        Ok(())
    }

    /// Whether what was read of a head's entry is exactly the record that retains it.
    pub fn validate_exact_record(
        &self,
        head: &SignedJournalHead,
        bytes: &[u8],
        parsed: &Result<CheckpointRecord, String>,
    ) -> (r: Result<(), CheckpointError>)
        ensures
            crate::checkpoint::checked(r) == exact_check(
                self@,
                head@,
                bytes@,
                parsed_view(*parsed),
            ),
    {
        let expected = match self.record_for(head).bytes() {
            Ok(expected) => expected,
            Err(error) => {
                return Err(error);
            },
        };
        if !same_bytes(bytes, expected.as_slice()) {
            return Err(CheckpointError::SequenceConflict);
        }
        let record = match parsed {
            Ok(record) => record,
            Err(text) => {
                return Err(malformed_checkpoint(text.as_str()));
            },
        };
        let canonical = match record.bytes() {
            Ok(canonical) => canonical,
            Err(error) => {
                return Err(error);
            },
        };
        if !same_bytes(canonical.as_slice(), bytes) || !same_text(
            record.schema.as_str(),
            CHECKPOINT_SCHEMA,
        ) || !record.recipient_service_id.same_as(&self.recipient_service_id) || !same_head(
            &record.peer_head,
            head,
        ) {
            return Err(CheckpointError::SequenceConflict);
        }
        self.trust.verify_retained_head(&record.peer_head)
    }

    /// Begins to append a head. The work goes on with each answer of the disk.
    pub fn append(&self, peer_head: &SignedJournalHead) -> (r: (CheckpointTask, DiskAction))
        ensures
            step(*self, r.0, r.1) == begin_append(self@, peer_head@),
    {
        let mut task = CheckpointTask::new(Goal::Append(peer_head.clone()));
        if let Err(error) = self.trust.verify_live_head(peer_head) {
            return (task, DiskAction::Failed(error));
        }
        task.phase = Phase::CacheRoot;
        (task, DiskAction::StatRoot)
    }

    /// Begins to look up the latest head of a service.
    pub fn latest(&self, service_id: &Token) -> (r: (CheckpointTask, DiskAction))
        ensures
            step(*self, r.0, r.1) == wait(
                self@,
                new_task(GoalView::Latest(service_id@)),
                PhaseView::CacheRoot,
                ActionView::StatRoot,
            ),
    {
        let mut task = CheckpointTask::new(Goal::Latest(service_id.clone()));
        task.phase = Phase::CacheRoot;
        (task, DiskAction::StatRoot)
    }

    /// Begins to read the directory for the first time.
    pub fn read_all(&self) -> (r: (CheckpointTask, DiskAction))
        ensures
            step(*self, r.0, r.1) == scan(self@, new_task(GoalView::Open), 0),
    {
        let mut task = CheckpointTask::new(Goal::Open);
        let action = begin_scan(&mut task, 0);
        (task, action)
    }
}

/// How a store is opened: the directory first, then the keys.
pub open spec fn opened(
    r: Result<CheckpointStore, CheckpointError>,
    root: FileFacts,
    expected_uid: u32,
    recipient: Seq<char>,
    trust: TrustView,
) -> bool {
    match r {
        Ok(store) => {
            &&& crate::checkpoint::root_check(root, expected_uid) is Ok
            &&& crate::checkpoint::trust_check(trust) is Ok
            &&& store@ == StoreView {
                expected_uid,
                recipient,
                trust,
                read: false,
                root_stamp: crate::checkpoint::root_stamp_of(root),
                records: Seq::empty(),
                stamps: Seq::empty(),
            }
        },
        Err(e) => match crate::checkpoint::root_check(root, expected_uid) {
            Err(root_error) => e@ == root_error,
            Ok(_) => crate::checkpoint::trust_check(trust) == Err::<(), CheckpointErrorView>(e@),
        },
    }
}

/// Where a stamp goes in the order of names.
proof fn lemma_with_stamp_at(
    stamps: Seq<(Seq<u8>, RecordStamp)>,
    name: Seq<u8>,
    stamp: RecordStamp,
    at: int,
)
    requires
        0 <= at <= stamps.len(),
        forall|i: int|
            at <= i < stamps.len() ==> (#[trigger] stamps[i]).0 != name
                && !crate::text::bytes_before(stamps[i].0, name),
        at > 0 ==> stamps[at - 1].0 == name || crate::text::bytes_before(stamps[at - 1].0, name),
    ensures
        with_stamp(stamps, name, stamp) == (if at > 0 && stamps[at - 1].0 == name {
            stamps.update(at - 1, (name, stamp))
        } else {
            stamps.insert(at, (name, stamp))
        }),
    decreases stamps.len(),
{
    if at < stamps.len() {
        let last = stamps[stamps.len() - 1];
        let before = stamps.drop_last();
        lemma_with_stamp_at(before, name, stamp, at);
        if at > 0 && stamps[at - 1].0 == name {
            assert(before.update(at - 1, (name, stamp)).push(last) =~= stamps.update(
                at - 1,
                (name, stamp),
            ));
        } else {
            assert(before.insert(at, (name, stamp)).push(last) =~= stamps.insert(
                at,
                (name, stamp),
            ));
        }
    } else if at > 0 {
        if stamps[at - 1].0 == name {
            assert(stamps.drop_last().push((name, stamp)) =~= stamps.update(at - 1, (name, stamp)));
        } else {
            assert(stamps.push((name, stamp)) =~= stamps.insert(at, (name, stamp)));
        }
    } else {
        assert(seq![(name, stamp)] =~= stamps.insert(at, (name, stamp)));
    }
}

/// Keeps the stamp of a name, in the order of names.
fn keep_stamp(stamps: &mut Vec<(Vec<u8>, RecordStamp)>, name: Vec<u8>, stamp: RecordStamp)
    ensures
        stamp_views(final(stamps)@) == with_stamp(stamp_views(old(stamps)@), name@, stamp),
{
    let ghost given = stamp_views(stamps@);
    let mut at: usize = stamps.len();
    let mut found = false;
    let mut equal = false;
    while at > 0 && !found
        invariant
            at <= stamps@.len(),
            given == stamp_views(stamps@),
            forall|i: int|
                at <= i < given.len() ==> (#[trigger] given[i]).0 != name@
                    && !crate::text::bytes_before(given[i].0, name@),
            found ==> at > 0 && equal == (given[at - 1].0 == name@) && (equal
                || crate::text::bytes_before(given[at - 1].0, name@)),
            !found ==> !equal,
        decreases at + (if found {
            0int
        } else {
            1int
        }),
    {
        assert(given[at - 1].0 == stamps@[at - 1].0@);
        if same_bytes(stamps[at - 1].0.as_slice(), name.as_slice()) {
            equal = true;
            found = true;
        } else if is_bytes_before(stamps[at - 1].0.as_slice(), name.as_slice()) {
            found = true;
        } else {
            at = at - 1;
        }
    }
    proof {
        lemma_with_stamp_at(given, name@, stamp, at as int);
    }
    let ghost label = name@;
    if equal {
        stamps.remove(at - 1);
        stamps.insert(at - 1, (name, stamp));
        assert(stamp_views(stamps@) =~= given.update(at - 1, (label, stamp)));
    } else {
        stamps.insert(at, (name, stamp));
        assert(stamp_views(stamps@) =~= given.insert(at as int, (label, stamp)));
    }
}

/// Reads the directory from its beginning.
fn begin_scan(task: &mut CheckpointTask, attempts: u8) -> (r: DiskAction)
    ensures
        forall|store: StoreView|
            (#[trigger] scan(store, old(task)@, attempts as int)) == (Step {
                store,
                task: final(task)@,
                action: r@,
            }),
{
    task.phase = Phase::ScanRoot;
    task.attempts = attempts;
    task.records = Vec::new();
    task.stamps = Vec::new();
    assert(task@.records =~= Seq::empty());
    assert(task@.stamps =~= Seq::empty());
    DiskAction::StatRoot
}

impl CheckpointStore {
    /// Reads the entry of a cached head again.
    fn begin_recheck(&self, task: &mut CheckpointTask, head: &SignedJournalHead) -> (r: DiskAction)
        ensures
            step(*self, *final(task), r) == recheck(self@, old(task)@, head@),
    {
        if let Err(error) = self.record_for(head).bytes() {
            task.phase = Phase::Done;
            return DiskAction::Failed(error);
        }
        task.phase = Phase::CachedFacts;
        DiskAction::StatEntry(entry_name_bytes(head))
    }

    /// Uses the cache, whose directory and files are unchanged.
    fn begin_use_cache(&self, task: &mut CheckpointTask) -> (r: DiskAction)
        ensures
            step(*self, *final(task), r) == use_cache(self@, old(task)@),
    {
        let cached = match &task.goal {
            Goal::Open => {
                return begin_scan(task, 0);
            },
            Goal::Latest(service) => match latest_head(&self.records, service) {
                None => {
                    task.phase = Phase::Done;
                    return DiskAction::Latest(None);
                },
                Some(head) => head,
            },
            Goal::Append(wanted) => match latest_head(&self.records, &wanted.service_id) {
                None => {
                    return begin_scan(task, 0);
                },
                Some(head) => {
                    if !same_head(head, wanted) {
                        return begin_scan(task, 0);
                    }
                    head
                },
            },
        };
        self.begin_recheck(task, cached)
    }

    /// Compares the next file's stamp with the cache.
    fn begin_compare(&self, task: &mut CheckpointTask, i: usize) -> (r: DiskAction)
        ensures
            step(*self, *final(task), r) == compare_from(self@, old(task)@, i as int),
    {
        if i < self.stamps.len() {
            task.phase = Phase::CacheEntry(i);
            let name = copy_bytes(self.stamps[i].0.as_slice());
            assert(self@.stamps[i as int].0 == name@);
            return DiskAction::StatEntry(name);
        }
        self.begin_use_cache(task)
    }

    /// Publishes the record of a head.
    fn begin_publish(&self, task: &mut CheckpointTask, head: &SignedJournalHead) -> (r: DiskAction)
        ensures
            step(*self, *final(task), r) == publish(self@, old(task)@, head@),
    {
        match self.record_for(head).bytes() {
            Err(error) => {
                task.phase = Phase::Done;
                DiskAction::Failed(error)
            },
            Ok(bytes) => {
                task.phase = Phase::Publishing;
                DiskAction::Publish { name: entry_name_bytes(head), bytes }
            },
        }
    }

    /// Goes on once the directory was read in one state.
    fn after_scan(&self, task: &mut CheckpointTask) -> (r: DiskAction)
        ensures
            step(*self, *final(task), r) == scanned(self@, old(task)@),
    {
        let head = match &task.goal {
            Goal::Open => {
                task.phase = Phase::Done;
                return DiskAction::Opened;
            },
            Goal::Latest(service) => {
                let latest = match latest_head(&self.records, service) {
                    Some(head) => Some(head.clone()),
                    None => None,
                };
                task.phase = Phase::Done;
                return DiskAction::Latest(latest);
            },
            Goal::Append(head) => head.clone(),
        };
        if let Some(outcome) = task.published {
            task.phase = Phase::Done;
            return DiskAction::Appended(outcome);
        }
        match self.trust.decide_append(&self.records, &head) {
            Err(error) => {
                task.phase = Phase::Done;
                DiskAction::Failed(error)
            },
            Ok(AppendDecision::AlreadyPresent) => {
                task.phase = Phase::Done;
                DiskAction::Appended(AppendOutcome::AlreadyPresent)
            },
            Ok(AppendDecision::Publish) => self.begin_publish(task, &head),
        }
    }

    /// Goes on when the directory's metadata was read behind its last entry.
    fn end_scan(&mut self, task: &mut CheckpointTask, root: &FileFacts) -> (r: DiskAction)
        ensures
            step(*final(self), *final(task), r) == scan_ended(old(self)@, old(task)@, *root),
    {
        let stamp = match root_stamp(root, self.expected_uid) {
            Ok(stamp) => stamp,
            Err(error) => {
                task.phase = Phase::Done;
                return DiskAction::Failed(error);
            },
        };
        let unchanged = match task.before {
            Some(before) => before == stamp,
            None => false,
        };
        if unchanged {
            self.read = true;
            self.root_stamp = stamp;
            let mut records: Vec<CheckpointRecord> = Vec::new();
            let mut stamps: Vec<(Vec<u8>, RecordStamp)> = Vec::new();
            std::mem::swap(&mut records, &mut task.records);
            std::mem::swap(&mut stamps, &mut task.stamps);
            self.records = records;
            self.stamps = stamps;
            assert(task@.records =~= Seq::empty());
            assert(task@.stamps =~= Seq::empty());
            return self.after_scan(task);
        }
        if task.attempts < SCAN_ATTEMPTS - 1 {
            let attempts: u8 = task.attempts + 1;
            return begin_scan(task, attempts);
        }
        task.phase = Phase::Done;
        DiskAction::Failed(
            malformed_checkpoint("checkpoint root changed repeatedly during reconciliation"),
        )
    }

    /// Goes on when every entry was read.
    fn end_entries(&self, task: &mut CheckpointTask) -> (r: DiskAction)
        ensures
            step(*self, *final(task), r) == entries_ended(self@, old(task)@),
    {
        match self.trust.verify_record_chains(&mut task.records) {
            Err(error) => {
                task.phase = Phase::Done;
                DiskAction::Failed(error)
            },
            Ok(_) => {
                task.phase = Phase::ScanEnd;
                DiskAction::StatRoot
            },
        }
    }

    fn cache_root_read(&self, task: &mut CheckpointTask, root: &FileFacts) -> (r: DiskAction)
        ensures
            step(*self, *final(task), r) == on_cache_root(self@, old(task)@, *root),
    {
        match root_stamp(root, self.expected_uid) {
            Err(error) => {
                task.phase = Phase::Done;
                DiskAction::Failed(error)
            },
            Ok(stamp) => if self.read && stamp == self.root_stamp {
                self.begin_compare(task, 0)
            } else {
                begin_scan(task, 0)
            },
        }
    }

    fn cache_entry_read(&self, task: &mut CheckpointTask, i: usize, facts: &FileFacts) -> (r:
        DiskAction)
        ensures
            step(*self, *final(task), r) == on_cache_entry(self@, old(task)@, i as int, *facts),
    {
        if i < self.stamps.len() && record_stamp(facts) == self.stamps[i].1 {
            assert(self@.stamps[i as int].1 == self.stamps@[i as int].1);
            self.begin_compare(task, i + 1)
        } else {
            begin_scan(task, 0)
        }
    }

    fn cached_facts_read(&self, task: &mut CheckpointTask, facts: &FileFacts) -> (r: DiskAction)
        ensures
            step(*self, *final(task), r) == on_cached_facts(self@, old(task)@, *facts),
    {
        match self.cached_head(task) {
            None => {
                task.phase = Phase::Done;
                DiskAction::Failed(unexpected_reply())
            },
            Some(head) => if !facts.private_file() {
                task.phase = Phase::Done;
                DiskAction::Failed(malformed_checkpoint("existing checkpoint path is unsafe"))
            } else {
                task.phase = Phase::CachedRecord;
                DiskAction::ReadEntry(entry_name_bytes(head))
            },
        }
    }

    fn cached_record_read(
        &self,
        task: &mut CheckpointTask,
        bytes: &[u8],
        parsed: &Result<CheckpointRecord, String>,
    ) -> (r: DiskAction)
        ensures
            step(*self, *final(task), r) == on_cached_record(
                self@,
                old(task)@,
                bytes@,
                parsed_view(*parsed),
            ),
    {
        let found = self.cached_head(task);
        task.phase = Phase::Done;
        match found {
            None => DiskAction::Failed(unexpected_reply()),
            Some(head) => match self.validate_exact_record(head, bytes, parsed) {
                Err(error) => DiskAction::Failed(error),
                Ok(_) => match &task.goal {
                    Goal::Append(_) => DiskAction::Appended(AppendOutcome::AlreadyPresent),
                    _ => DiskAction::Latest(Some(head.clone())),
                },
            },
        }
    }

    fn scan_root_read(&self, task: &mut CheckpointTask, root: &FileFacts) -> (r: DiskAction)
        ensures
            step(*self, *final(task), r) == on_scan_root(self@, old(task)@, *root),
    {
        match root_stamp(root, self.expected_uid) {
            Err(error) => {
                task.phase = Phase::Done;
                DiskAction::Failed(error)
            },
            Ok(stamp) => {
                task.before = Some(stamp);
                task.phase = Phase::ScanEntry;
                DiskAction::NextEntry { restart: true }
            },
        }
    }

    fn scan_facts_read(&self, task: &mut CheckpointTask, name: Vec<u8>, facts: &FileFacts) -> (r:
        DiskAction)
        ensures
            step(*self, *final(task), r) == on_scan_facts(self@, old(task)@, name@, *facts),
    {
        if !facts.private_file() {
            let mut text = "unsafe entry ".to_owned();
            text.append(lossy(name.as_slice()).as_str());
            task.phase = Phase::Done;
            return DiskAction::Failed(malformed_checkpoint(text.as_str()));
        }
        let asked = copy_bytes(name.as_slice());
        keep_stamp(&mut task.stamps, copy_bytes(name.as_slice()), record_stamp(facts));
        task.phase = Phase::ScanRecord(name);
        DiskAction::ReadEntry(asked)
    }

    fn scan_record_read(
        &mut self,
        task: &mut CheckpointTask,
        name: &[u8],
        bytes: &[u8],
        parsed: Result<CheckpointRecord, String>,
    ) -> (r: DiskAction)
        ensures
            step(*final(self), *final(task), r) == on_scan_record(
                old(self)@,
                old(task)@,
                name@,
                bytes@,
                parsed_view(parsed),
            ),
    {
        if let Err(error) = self.check_entry(name, bytes, &parsed) {
            task.phase = Phase::Done;
            return DiskAction::Failed(error);
        }
        if let Ok(record) = parsed {
            let ghost before = task@.records;
            task.records.push(record);
            assert(task@.records =~= before.push(record@));
        }
        task.phase = Phase::ScanEntry;
        DiskAction::NextEntry { restart: false }
    }

    fn existing_found(&self, task: &mut CheckpointTask) -> (r: DiskAction)
        ensures
            step(*self, *final(task), r) == on_existing(self@, old(task)@),
    {
        let name = match &task.goal {
            Goal::Append(head) => entry_name_bytes(head),
            _ => {
                task.phase = Phase::Done;
                return DiskAction::Failed(unexpected_reply());
            },
        };
        task.phase = Phase::ExistingFacts;
        DiskAction::StatEntry(name)
    }

    fn existing_facts_read(&self, task: &mut CheckpointTask, facts: &FileFacts) -> (r: DiskAction)
        ensures
            step(*self, *final(task), r) == on_existing_facts(self@, old(task)@, *facts),
    {
        let name = match &task.goal {
            Goal::Append(head) => entry_name_bytes(head),
            _ => {
                task.phase = Phase::Done;
                return DiskAction::Failed(unexpected_reply());
            },
        };
        if !facts.private_file() {
            task.phase = Phase::Done;
            return DiskAction::Failed(malformed_checkpoint("existing checkpoint path is unsafe"));
        }
        task.phase = Phase::ExistingRecord;
        DiskAction::ReadEntry(name)
    }

    fn existing_record_read(
        &self,
        task: &mut CheckpointTask,
        bytes: &[u8],
        parsed: &Result<CheckpointRecord, String>,
    ) -> (r: DiskAction)
        ensures
            step(*self, *final(task), r) == on_existing_record(
                self@,
                old(task)@,
                bytes@,
                parsed_view(*parsed),
            ),
    {
        let verdict = match &task.goal {
            Goal::Append(head) => self.validate_exact_record(head, bytes, parsed),
            _ => Err(unexpected_reply()),
        };
        match verdict {
            Err(error) => {
                task.phase = Phase::Done;
                DiskAction::Failed(error)
            },
            Ok(_) => {
                task.phase = Phase::Syncing(AppendOutcome::AlreadyPresent);
                DiskAction::SyncRoot
            },
        }
    }

    /// Goes on with the work on an answer of the disk.
    pub fn answer(&mut self, task: &mut CheckpointTask, reply: DiskReply) -> (r: DiskAction)
        ensures
            step(*final(self), *final(task), r) == next(old(self)@, old(task)@, reply@),
    {
        let phase = task.phase.clone();
        match (phase, reply) {
            (_, DiskReply::Failed(error)) => task.fail_with(CheckpointError::Io(error)),
            (Phase::CacheRoot, DiskReply::Facts(root)) => self.cache_root_read(task, &root),
            (Phase::CacheEntry(i), DiskReply::Facts(facts)) => self.cache_entry_read(
                task,
                i,
                &facts,
            ),
            (Phase::CachedFacts, DiskReply::Facts(facts)) => self.cached_facts_read(task, &facts),
            (Phase::CachedRecord, DiskReply::Record { bytes, parsed }) => self.cached_record_read(
                task,
                bytes.as_slice(),
                &parsed,
            ),
            (Phase::ScanRoot, DiskReply::Facts(root)) => self.scan_root_read(task, &root),
            (Phase::ScanEntry, DiskReply::Entry(name)) => {
                let asked = copy_bytes(name.as_slice());
                task.phase = Phase::ScanFacts(name);
                DiskAction::StatEntry(asked)
            },
            (Phase::ScanEntry, DiskReply::NoMoreEntries) => self.end_entries(task),
            (Phase::ScanFacts(name), DiskReply::Facts(facts)) => self.scan_facts_read(
                task,
                name,
                &facts,
            ),
            (Phase::ScanRecord(name), DiskReply::Record { bytes, parsed }) => self.scan_record_read(
                task,
                name.as_slice(),
                bytes.as_slice(),
                parsed,
            ),
            (Phase::ScanEnd, DiskReply::Facts(root)) => self.end_scan(task, &root),
            (Phase::Publishing, DiskReply::NoParent) => {
                task.fail_with(CheckpointError::InvalidRoot)
            },
            (Phase::Publishing, DiskReply::Linked) => {
                task.phase = Phase::Syncing(AppendOutcome::Appended);
                DiskAction::SyncRoot
            },
            (Phase::Publishing, DiskReply::AlreadyExists) => self.existing_found(task),
            (Phase::ExistingFacts, DiskReply::Facts(facts)) => self.existing_facts_read(
                task,
                &facts,
            ),
            (Phase::ExistingRecord, DiskReply::Record { bytes, parsed }) => {
                self.existing_record_read(task, bytes.as_slice(), &parsed)
            },
            (Phase::Syncing(outcome), DiskReply::Synced) => {
                task.published = Some(outcome);
                begin_scan(task, 0)
            },
            _ => task.fail_with(unexpected_reply()),
        }
    }

    /// The cached head of the service that the work is about.
    fn cached_head(&self, task: &CheckpointTask) -> (r: Option<&SignedJournalHead>)
        ensures
            match r {
                Some(head) => cached(self@, task@.goal) == Some(head@),
                None => cached(self@, task@.goal) is None,
            },
    {
        match &task.goal {
            Goal::Open => None,
            Goal::Append(head) => latest_head(&self.records, &head.service_id),
            Goal::Latest(service) => latest_head(&self.records, service),
        }
    }
}

fn unexpected_reply() -> (r: CheckpointError)
    ensures
        r@ == unexpected(),
{
    malformed_checkpoint("checkpoint disk reply does not answer the request")
}

} // verus!
