//! Whole pieces of work against a checkpoint directory: what an append and a lookup come to, what
//! the directory holds afterwards, and what a reopened store makes of it.

use vstd::prelude::*;

use crate::audit::JournalHeadView;
use crate::chain::AppendDecision;
use crate::checkpoint::{AppendOutcome, CheckpointErrorView, RecordStamp, RecordView};
use crate::files::FileFacts;
use crate::store::{ActionView, GoalView, PhaseView, ReplyView, Step, StoreView, TaskView};

verus! {

/// A file of a checkpoint directory: the record whose bytes it holds, under the record's name,
/// and its metadata.
pub struct StoredFile {
    pub record: RecordView,
    pub facts: FileFacts,
}

/// A checkpoint directory: its metadata, its files in the order in which it lists them, and how
/// many of them the open listing has handed out.
pub struct Directory {
    pub root: FileFacts,
    pub files: Seq<StoredFile>,
    pub handed: nat,
}

/// The name of a file.
pub open spec fn name_of(file: StoredFile) -> Seq<u8> {
    crate::store::entry_name(file.record.head)
}

/// The directory has a file of this name.
pub open spec fn held(files: Seq<StoredFile>, name: Seq<u8>) -> bool {
    exists|i: int| 0 <= i < files.len() && name_of(#[trigger] files[i]) == name
}

/// The file of a name.
pub open spec fn file_of(files: Seq<StoredFile>, name: Seq<u8>) -> StoredFile {
    files[choose|i: int| 0 <= i < files.len() && name_of(#[trigger] files[i]) == name]
}

/// The records of the files.
pub open spec fn records_in(files: Seq<StoredFile>) -> Seq<RecordView> {
    files.map_values(|file: StoredFile| file.record)
}

/// The records of a directory in the order of chains.
pub open spec fn chains(store: StoreView, dir: Directory) -> Seq<RecordView> {
    crate::chain::in_chain_order(store.trust, records_in(dir.files))
}

/// The latest head of a service that a directory retains.
pub open spec fn latest_in(store: StoreView, dir: Directory, service: Seq<char>) -> Option<
    JournalHeadView,
> {
    crate::chain::last_of(chains(store, dir), service)
}

/// No two files have one name, every file is private and holds a record's bytes, and the
/// directory is the recipient's own.
pub open spec fn intact(store: StoreView, dir: Directory) -> bool {
    &&& crate::checkpoint::root_check(dir.root, store.expected_uid) is Ok
    &&& forall|i: int| #![trigger dir.files[i]]
        0 <= i < dir.files.len() ==> dir.files[i].facts.is_private_file()
            && crate::checkpoint::record_bytes(dir.files[i].record) is Ok
    &&& forall|i: int, j: int|
        0 <= i < j < dir.files.len() ==> name_of(#[trigger] dir.files[i]) != name_of(
            #[trigger] dir.files[j],
        )
}

/// An intact directory whose records are verified and form unbroken chains.
pub open spec fn retained(store: StoreView, dir: Directory) -> bool {
    &&& intact(store, dir)
    &&& crate::store_laws::verified_records(store, records_in(dir.files))
    &&& crate::chain::chain_check(store.trust, chains(store, dir)) is Ok
}

/// A cached stamp is that of the file of its name.
pub open spec fn stamp_held(dir: Directory, stamp: (Seq<u8>, RecordStamp)) -> bool {
    held(dir.files, stamp.0) && crate::checkpoint::record_stamp_of(
        file_of(dir.files, stamp.0).facts,
    ) == stamp.1
}

pub open spec fn stamps_held(dir: Directory, stamps: Seq<(Seq<u8>, RecordStamp)>) -> bool {
    forall|i: int| 0 <= i < stamps.len() ==> stamp_held(dir, #[trigger] stamps[i])
}

/// The cache speaks of this directory: while the directory's stamp is unchanged its files are the
/// cached ones, and while their stamps are unchanged too, so are the records. A store that has
/// not read the directory says nothing of it.
pub open spec fn coherent(store: StoreView, dir: Directory) -> bool {
    store.read && crate::checkpoint::root_stamp_of(dir.root) == store.root_stamp ==> {
        &&& forall|i: int|
            0 <= i < store.stamps.len() ==> held(dir.files, (#[trigger] store.stamps[i]).0)
        &&& stamps_held(dir, store.stamps) ==> store.records == chains(store, dir)
    }
}

/// Two directories hold the same.
pub open spec fn same_contents(a: Directory, b: Directory) -> bool {
    a.root == b.root && a.files == b.files
}

/// A store at work on a directory, and the directory as it is once a record's file is linked
/// into it.
pub struct World {
    pub now: Step,
    pub dir: Directory,
    pub grown: Directory,
}

/// What a directory answers.
pub open spec fn reply_of(dir: Directory, action: ActionView) -> ReplyView {
    match action {
        ActionView::NextEntry { restart } => {
            let handed = if restart {
                0
            } else {
                dir.handed
            };
            if handed < dir.files.len() {
                ReplyView::Entry(name_of(dir.files[handed as int]))
            } else {
                ReplyView::NoMoreEntries
            }
        },
        ActionView::StatEntry(name) => ReplyView::Facts(file_of(dir.files, name).facts),
        ActionView::ReadEntry(name) => ReplyView::Record {
            bytes: crate::checkpoint::record_bytes(file_of(dir.files, name).record)->Ok_0,
            parsed: Ok(file_of(dir.files, name).record),
        },
        ActionView::Publish { name, .. } => if held(dir.files, name) {
            ReplyView::AlreadyExists
        } else {
            ReplyView::Linked
        },
        ActionView::SyncRoot => ReplyView::Synced,
        _ => ReplyView::Facts(dir.root),
    }
}

/// The directory once it has answered.
pub open spec fn dir_after(dir: Directory, action: ActionView, grown: Directory) -> Directory {
    match action {
        ActionView::NextEntry { restart } => Directory {
            handed: if restart {
                1
            } else {
                dir.handed + 1
            },
            ..dir
        },
        ActionView::Publish { name, .. } => if held(dir.files, name) {
            dir
        } else {
            grown
        },
        _ => dir,
    }
}

/// One request is answered.
pub open spec fn advance(w: World) -> World {
    World {
        now: crate::store::next(w.now.store, w.now.task, reply_of(w.dir, w.now.action)),
        dir: dir_after(w.dir, w.now.action, w.grown),
        ..w
    }
}

/// The work has come to its end.
pub open spec fn ended(action: ActionView) -> bool {
    action is Opened || action is Appended || action is Latest || action is Failed
}

/// The work after so many answers, or at its end.
pub open spec fn run(w: World, answers: nat) -> World
    decreases answers,
{
    if answers == 0 || ended(w.now.action) {
        w
    } else {
        run(advance(w), (answers - 1) as nat)
    }
}

/// The work at its end.
pub open spec fn settled(w: World) -> World {
    run(w, choose|answers: nat| ended(#[trigger] run(w, answers).now.action))
}

/// The work comes from one point to the other.
pub open spec fn leads(w: World, v: World) -> bool {
    exists|answers: nat| #[trigger] run(w, answers) == v
}

/// An append of a head begins.
pub open spec fn append_begun(
    store: StoreView,
    dir: Directory,
    head: JournalHeadView,
    grown: Directory,
) -> World {
    World { now: crate::store::begin_append(store, head), dir, grown }
}

/// A lookup of a service's latest head begins.
pub open spec fn latest_begun(store: StoreView, dir: Directory, service: Seq<char>) -> World {
    World {
        now: crate::store::wait(
            store,
            crate::store::new_task(GoalView::Latest(service)),
            PhaseView::CacheRoot,
            ActionView::StatRoot,
        ),
        dir,
        grown: dir,
    }
}

proof fn lemma_run_adds(w: World, m: nat, n: nat)
    ensures
        run(run(w, m), n) == run(w, m + n),
    decreases m,
{
    if m > 0 && !ended(w.now.action) {
        lemma_run_adds(advance(w), (m - 1) as nat, n);
    }
}

pub proof fn lemma_leads_self(w: World)
    ensures
        leads(w, w),
{
    assert(run(w, 0) == w);
}

proof fn lemma_leads_on(w: World, m: World, v: World)
    requires
        leads(w, m),
        leads(m, v),
    ensures
        leads(w, v),
{
    let a = choose|answers: nat| #[trigger] run(w, answers) == m;
    let b = choose|answers: nat| #[trigger] run(m, answers) == v;
    lemma_run_adds(w, a, b);
}

/// Where work has come, and its next answer.
pub proof fn lemma_step(w: World, m: World)
    requires
        leads(w, m),
        !ended(m.now.action),
    ensures
        leads(w, advance(m)),
{
    reveal_with_fuel(run, 2);
    assert(run(m, 1) == advance(m));
    lemma_leads_on(w, m, advance(m));
}

/// Work has one end.
pub proof fn lemma_settled(w: World, v: World)
    requires
        leads(w, v),
        ended(v.now.action),
    ensures
        settled(w) == v,
{
    let a = choose|answers: nat| #[trigger] run(w, answers) == v;
    assert(ended(run(w, a).now.action));
    let b = choose|answers: nat| ended(#[trigger] run(w, answers).now.action);
    if a <= b {
        lemma_run_adds(w, a, (b - a) as nat);
    } else {
        lemma_run_adds(w, b, (a - b) as nat);
    }
}

/// In an intact directory a name leads to its one file.
pub proof fn lemma_file_of(store: StoreView, dir: Directory, i: int)
    requires
        intact(store, dir),
        0 <= i < dir.files.len(),
    ensures
        held(dir.files, name_of(dir.files[i])),
        file_of(dir.files, name_of(dir.files[i])) == dir.files[i],
{
    let name = name_of(dir.files[i]);
    let j = choose|j: int| 0 <= j < dir.files.len() && name_of(#[trigger] dir.files[j]) == name;
    assert(name_of(dir.files[i]) == name_of(dir.files[j]));
}

proof fn lemma_with_stamp_held(
    dir: Directory,
    stamps: Seq<(Seq<u8>, RecordStamp)>,
    name: Seq<u8>,
    stamp: RecordStamp,
)
    requires
        stamps_held(dir, stamps),
        stamp_held(dir, (name, stamp)),
    ensures
        stamps_held(dir, crate::store::with_stamp(stamps, name, stamp)),
    decreases stamps.len(),
{
    if stamps.len() > 0 {
        let before = stamps.drop_last();
        assert(stamps_held(dir, before)) by {
            assert forall|i: int| 0 <= i < before.len() implies stamp_held(
                dir,
                #[trigger] before[i],
            ) by {
                assert(before[i] == stamps[i]);
            }
        }
        lemma_with_stamp_held(dir, before, name, stamp);
        let inner = crate::store::with_stamp(before, name, stamp);
        let out = crate::store::with_stamp(stamps, name, stamp);
        assert(stamps.last() == stamps[stamps.len() - 1]);
        assert forall|i: int| 0 <= i < out.len() implies stamp_held(dir, #[trigger] out[i]) by {
            if i < inner.len() {
                assert(stamp_held(dir, inner[i]));
            }
            if i < before.len() {
                assert(stamp_held(dir, before[i]));
            }
            if i < stamps.len() {
                assert(stamp_held(dir, stamps[i]));
            }
        }
    }
}

/// The work reads the directory and has read its first `k` entries.
spec fn reading(w: World, from: World, k: nat) -> bool {
    &&& w.now.store == from.now.store
    &&& w.now.task.goal == from.now.task.goal
    &&& w.now.task.published == from.now.task.published
    &&& w.now.task.phase == PhaseView::ScanEntry
    &&& w.now.task.before == Some(crate::checkpoint::root_stamp_of(from.dir.root))
    &&& w.now.task.records == records_in(from.dir.files.take(k as int))
    &&& stamps_held(from.dir, w.now.task.stamps)
    &&& w.now.action == ActionView::NextEntry { restart: k == 0 }
    &&& same_contents(w.dir, from.dir)
    &&& k > 0 ==> w.dir.handed == k
    &&& w.grown == from.grown
}

proof fn lemma_read_entry(from: World, w: World, k: nat) -> (v: World)
    requires
        retained(from.now.store, from.dir),
        leads(from, w),
        reading(w, from, k),
        k < from.dir.files.len(),
    ensures
        leads(from, v),
        reading(v, from, k + 1),
{
    let store = from.now.store;
    let files = from.dir.files;
    let file = files[k as int];
    lemma_file_of(store, from.dir, k as int);
    assert(records_in(files)[k as int] == file.record);
    assert(crate::store_laws::verified_record(store, file.record));
    let bytes = crate::checkpoint::record_bytes(file.record)->Ok_0;
    crate::store_laws::law_published_record_is_read_back(store, file.record.head, bytes);

    let named = advance(w);
    lemma_step(from, w);
    assert(named.now.task.phase == PhaseView::ScanFacts(name_of(file)));

    let looked = advance(named);
    lemma_step(from, named);
    lemma_with_stamp_held(
        from.dir,
        w.now.task.stamps,
        name_of(file),
        crate::checkpoint::record_stamp_of(file.facts),
    );
    assert(looked.now.task.phase == PhaseView::ScanRecord(name_of(file)));

    let v = advance(looked);
    lemma_step(from, looked);
    assert(records_in(files.take(k as int)).push(file.record) =~= records_in(
        files.take(k as int + 1),
    ));
    v
}

proof fn lemma_read_entries(from: World, w: World, k: nat) -> (v: World)
    requires
        retained(from.now.store, from.dir),
        leads(from, w),
        reading(w, from, k),
        k <= from.dir.files.len(),
    ensures
        leads(from, v),
        reading(v, from, from.dir.files.len()),
    decreases from.dir.files.len() - k,
{
    if k == from.dir.files.len() {
        w
    } else {
        let next = lemma_read_entry(from, w, k);
        lemma_read_entries(from, next, k + 1)
    }
}

/// The store once it has read a directory.
pub open spec fn refreshed(before: StoreView, after: StoreView, dir: Directory) -> bool {
    &&& after.expected_uid == before.expected_uid
    &&& after.recipient == before.recipient
    &&& after.trust == before.trust
    &&& after.read
    &&& after.root_stamp == crate::checkpoint::root_stamp_of(dir.root)
    &&& after.records == chains(before, dir)
    &&& stamps_held(dir, after.stamps)
}

/// Reading a retained directory gives its chains.
pub proof fn lemma_scan(start: World, from: World) -> (r: (World, TaskView))
    requires
        leads(start, from),
        retained(from.now.store, from.dir),
        from.now.task.phase == PhaseView::ScanRoot,
        from.now.task.records == Seq::<RecordView>::empty(),
        from.now.task.stamps == Seq::<(Seq<u8>, RecordStamp)>::empty(),
        from.now.action == ActionView::StatRoot,
    ensures
        leads(start, r.0),
        r.0.now == crate::store::scanned(r.0.now.store, r.1),
        r.1.goal == from.now.task.goal,
        r.1.published == from.now.task.published,
        refreshed(from.now.store, r.0.now.store, from.dir),
        same_contents(r.0.dir, from.dir),
        r.0.grown == from.grown,
{
    let store = from.now.store;
    let files = from.dir.files;
    lemma_leads_self(from);
    let first = advance(from);
    lemma_step(from, from);
    assert(records_in(files.take(0)) =~= Seq::<RecordView>::empty());
    assert(reading(first, from, 0));
    let last = lemma_read_entries(from, first, 0);
    assert(files.take(files.len() as int) =~= files);

    let ordered = advance(last);
    lemma_step(from, last);
    assert(ordered.now.task.phase == PhaseView::ScanEnd);

    let v = advance(ordered);
    lemma_step(from, ordered);
    lemma_leads_on(start, from, v);
    let t = TaskView {
        records: Seq::empty(),
        stamps: Seq::empty(),
        ..ordered.now.task
    };
    (v, t)
}

/// A store that has just read a directory speaks of it.
pub proof fn lemma_refreshed_coherent(before: StoreView, after: StoreView, dir: Directory)
    requires
        refreshed(before, after, dir),
    ensures
        coherent(after, dir),
{
}

/// One cached file's stamp is compared.
proof fn lemma_compare_one(w: World, store: StoreView, task: TaskView, i: nat)
    requires
        w.now == crate::store::compare_from(store, task, i as int),
        i < store.stamps.len(),
        held(w.dir.files, store.stamps[i as int].0),
    ensures
        !ended(w.now.action),
        w.now.task.goal == task.goal,
        w.now.task.published == task.published,
        advance(w).dir == w.dir,
        advance(w).grown == w.grown,
        advance(w).now == (if stamp_held(w.dir, store.stamps[i as int]) {
            crate::store::compare_from(store, w.now.task, i as int + 1)
        } else {
            crate::store::scan(store, w.now.task, 0)
        }),
{
    assert(w.now.task.phase == PhaseView::CacheEntry(i as int));
    assert(w.now.action == ActionView::StatEntry(store.stamps[i as int].0));
}

/// Comparing the cache ends in the use of a cache that holds the directory's chains, or in
/// reading the directory.
proof fn lemma_compare(start: World, w: World, store: StoreView, task: TaskView, i: nat) -> (r: (
    World,
    TaskView,
))
    requires
        leads(start, w),
        coherent(store, w.dir),
        store.read,
        crate::checkpoint::root_stamp_of(w.dir.root) == store.root_stamp,
        w.now == crate::store::compare_from(store, task, i as int),
        i <= store.stamps.len(),
        forall|j: int| 0 <= j < i ==> stamp_held(w.dir, #[trigger] store.stamps[j]),
    ensures
        leads(start, r.0),
        r.1.goal == task.goal,
        r.1.published == task.published,
        r.0.now == crate::store::scan(store, r.1, 0) || (r.0.now == crate::store::use_cache(
            store,
            r.1,
        ) && store.records == chains(store, w.dir)),
        r.0.dir == w.dir,
        r.0.grown == w.grown,
    decreases store.stamps.len() - i,
{
    if i == store.stamps.len() {
        assert(stamps_held(w.dir, store.stamps));
        (w, task)
    } else {
        lemma_compare_one(w, store, task, i);
        lemma_step(start, w);
        if stamp_held(w.dir, store.stamps[i as int]) {
            lemma_compare(start, advance(w), store, w.now.task, i + 1)
        } else {
            (advance(w), w.now.task)
        }
    }
}

/// Work begins with the cache where it may be used, or with reading the directory.
pub proof fn lemma_look(w: World) -> (r: (World, TaskView))
    requires
        retained(w.now.store, w.dir),
        coherent(w.now.store, w.dir),
        w.now.task.phase == PhaseView::CacheRoot,
        w.now.action == ActionView::StatRoot,
    ensures
        leads(w, r.0),
        r.1.goal == w.now.task.goal,
        r.1.published == w.now.task.published,
        r.0.now == crate::store::scan(w.now.store, r.1, 0) || (r.0.now == crate::store::use_cache(
            w.now.store,
            r.1,
        ) && w.now.store.records == chains(w.now.store, w.dir)),
        r.0.dir == w.dir,
        r.0.grown == w.grown,
{
    lemma_leads_self(w);
    lemma_step(w, w);
    let next = advance(w);
    if w.now.store.read && crate::checkpoint::root_stamp_of(w.dir.root) == w.now.store.root_stamp {
        lemma_compare(w, next, w.now.store, w.now.task, 0)
    } else {
        (next, w.now.task)
    }
}

/// The latest head of a service is the head of one of the files.
pub proof fn lemma_latest_is_stored(store: StoreView, dir: Directory, service: Seq<char>) -> (i: int)
    ensures
        latest_in(store, dir, service) matches Some(head) ==> 0 <= i < dir.files.len()
            && dir.files[i].record.head == head && head.service_id == service,
{
    broadcast use vstd::seq_lib::group_to_multiset_ensures;

    let ordered = chains(store, dir);
    let records = records_in(dir.files);
    let at = crate::chain::lemma_last_of(ordered, service);
    crate::chain::law_chain_order_is_a_permutation(store.trust, records);
    if latest_in(store, dir, service) is Some {
        let record = ordered[at];
        assert(ordered.contains(record));
        assert(ordered.to_multiset().count(record) > 0);
        assert(records.contains(record));
        let i = choose|i: int| 0 <= i < records.len() && records[i] == record;
        assert(dir.files[i].record == record);
        i
    } else {
        0
    }
}

/// A cached head whose file is retained is read again and found.
pub proof fn lemma_recheck(start: World, w: World, task: TaskView, head: JournalHeadView, i: int) -> (v:
    World)
    requires
        leads(start, w),
        retained(w.now.store, w.dir),
        w.now == crate::store::recheck(w.now.store, task, head),
        crate::store::cached(w.now.store, task.goal) == Some(head),
        0 <= i < w.dir.files.len(),
        w.dir.files[i].record.head == head,
    ensures
        leads(start, v),
        v.now.store == w.now.store,
        v.now.action == (match task.goal {
            GoalView::Append(_) => ActionView::Appended(AppendOutcome::AlreadyPresent),
            _ => ActionView::Latest(Some(head)),
        }),
        v.dir == w.dir,
        v.grown == w.grown,
{
    let store = w.now.store;
    let file = w.dir.files[i];
    lemma_file_of(store, w.dir, i);
    assert(records_in(w.dir.files)[i] == file.record);
    assert(crate::store_laws::verified_record(store, file.record));
    let bytes = crate::checkpoint::record_bytes(file.record)->Ok_0;
    crate::store_laws::law_published_record_is_read_back(store, head, bytes);
    let looked = advance(w);
    lemma_step(start, w);
    assert(looked.now.task.phase == PhaseView::CachedRecord);
    let v = advance(looked);
    lemma_step(start, looked);
    v
}

} // verus!
