//! What holds of a checkpoint store throughout its work.

use vstd::prelude::*;

use crate::audit::JournalHeadView;
use crate::chain::AppendDecision;
use crate::checkpoint::{AppendOutcome, CheckpointErrorView, RecordView};
use crate::store::{ActionView, GoalView, PhaseView, ReplyView, StoreView, TaskView};

verus! {

/// A record of this store, signed by a pinned key of its service.
pub open spec fn verified_record(store: StoreView, record: RecordView) -> bool {
    &&& record == crate::store::record_of(store, record.head)
    &&& crate::peer_trust::retained_check(store.trust, record.head) is Ok
}

pub open spec fn verified_records(store: StoreView, records: Seq<RecordView>) -> bool {
    forall|i: int| 0 <= i < records.len() ==> verified_record(store, #[trigger] records[i])
}

/// Verified records that form unbroken chains, in their order.
pub open spec fn verified_chains(store: StoreView, records: Seq<RecordView>) -> bool {
    &&& verified_records(store, records)
    &&& crate::chain::ascending(records)
    &&& crate::chain::chain_check(store.trust, records) is Ok
}

/// The store's cache holds verified chains.
pub open spec fn sound_store(store: StoreView) -> bool {
    verified_chains(store, store.records)
}

/// What the work has read so far is verified, and forms unbroken chains once all was read. A
/// cached head that is read again for an append is the very head that is appended.
pub open spec fn sound_task(store: StoreView, task: TaskView) -> bool {
    &&& verified_records(store, task.records)
    &&& task.phase == PhaseView::ScanEnd ==> verified_chains(store, task.records)
    &&& uses_cache(task.phase) ==> task.published is None
    &&& (task.phase == PhaseView::CachedFacts || task.phase == PhaseView::CachedRecord) ==> (
    task.goal matches GoalView::Append(head) ==> crate::store::cached(store, task.goal) == Some(
        head,
    ))
}

/// The work still compares the cache with the directory.
pub open spec fn uses_cache(phase: PhaseView) -> bool {
    phase is CacheRoot || phase is CacheEntry || phase is CachedFacts || phase is CachedRecord
}

proof fn lemma_placed_verified(
    store: StoreView,
    records: Seq<RecordView>,
    record: RecordView,
)
    requires
        verified_records(store, records),
        verified_record(store, record),
    ensures
        verified_records(store, crate::chain::placed(store.trust, records, record)),
    decreases records.len(),
{
    if records.len() > 0 {
        let head = records.drop_last();
        assert forall|i: int| 0 <= i < head.len() implies verified_record(
            store,
            #[trigger] head[i],
        ) by {
            assert(head[i] == records[i]);
        }
        assert(records.last() == records[records.len() - 1]);
        lemma_placed_verified(store, head, record);
        let out = crate::chain::placed(store.trust, records, record);
        let inner = crate::chain::placed(store.trust, head, record);
        assert forall|i: int| 0 <= i < out.len() implies verified_record(
            store,
            #[trigger] out[i],
        ) by {
            if crate::chain::stands_after(store.trust, records.last().head, record.head) {
                if i < inner.len() {
                    assert(verified_record(store, inner[i]));
                }
            } else if i < records.len() {
                assert(verified_record(store, records[i]));
            }
        }
    }
}

proof fn lemma_ordered_verified(store: StoreView, records: Seq<RecordView>)
    requires
        verified_records(store, records),
    ensures
        verified_records(store, crate::chain::in_chain_order(store.trust, records)),
    decreases records.len(),
{
    if records.len() > 0 {
        let head = records.drop_last();
        assert forall|i: int| 0 <= i < head.len() implies verified_record(
            store,
            #[trigger] head[i],
        ) by {
            assert(head[i] == records[i]);
        }
        assert(records.last() == records[records.len() - 1]);
        lemma_ordered_verified(store, head);
        lemma_placed_verified(
            store,
            crate::chain::in_chain_order(store.trust, head),
            records.last(),
        );
    }
}

/// Verification looks at the keys and the recipient alone.
proof fn lemma_verified_by_trust(a: StoreView, b: StoreView, records: Seq<RecordView>)
    requires
        a.trust == b.trust,
        a.recipient == b.recipient,
        verified_records(a, records),
    ensures
        verified_records(b, records),
{
    assert forall|i: int| 0 <= i < records.len() implies verified_record(
        b,
        #[trigger] records[i],
    ) by {
        assert(verified_record(a, records[i]));
    }
}

/// A store is sound when it is opened, and so is every piece of work when it begins.
pub proof fn law_work_begins_sound(
    store: StoreView,
    head: JournalHeadView,
    service: Seq<char>,
)
    ensures
        store.records == Seq::<RecordView>::empty() ==> sound_store(store),
        sound_task(store, crate::store::begin_append(store, head).task),
        sound_task(
            store,
            crate::store::wait(
                store,
                crate::store::new_task(GoalView::Latest(service)),
                PhaseView::CacheRoot,
                ActionView::StatRoot,
            ).task,
        ),
        sound_task(
            store,
            crate::store::scan(store, crate::store::new_task(GoalView::Open), 0).task,
        ),
{
}

/// Whatever the disk answers, the store keeps its keys, its recipient and its owner, and its
/// cache holds nothing but verified, unbroken chains.
pub proof fn law_work_keeps_the_store_sound(store: StoreView, task: TaskView, reply: ReplyView)
    requires
        sound_store(store),
        sound_task(store, task),
    ensures
        ({
            let after = crate::store::next(store, task, reply);
            &&& after.store.trust == store.trust
            &&& after.store.recipient == store.recipient
            &&& after.store.expected_uid == store.expected_uid
            &&& sound_store(after.store)
            &&& sound_task(after.store, after.task)
        }),
{
    let after = crate::store::next(store, task, reply);
    match (task.phase, reply) {
        (PhaseView::ScanRecord(name), ReplyView::Record { bytes, parsed }) => {
            if crate::store::entry_check(store, name, bytes, parsed) is Ok {
                let record = parsed->Ok_0;
                assert(verified_record(store, record));
                let grown = task.records.push(record);
                assert forall|i: int| 0 <= i < grown.len() implies verified_record(
                    store,
                    #[trigger] grown[i],
                ) by {
                    if i < task.records.len() {
                        assert(verified_record(store, task.records[i]));
                    }
                }
            }
        },
        (PhaseView::ScanEntry, ReplyView::NoMoreEntries) => {
            lemma_ordered_verified(store, task.records);
            crate::chain::law_chain_order_ascends(store.trust, task.records);
        },
        (PhaseView::ScanEnd, ReplyView::Facts(root)) => {
            lemma_verified_by_trust(store, after.store, after.store.records);
        },
        _ => {},
    }
}

/// A head is published only by work that appends it, as the exact record that retains it, and
/// only where the verified records allow it.
pub proof fn law_only_an_allowed_head_is_published(
    store: StoreView,
    task: TaskView,
    reply: ReplyView,
)
    requires
        crate::store::next(store, task, reply).action is Publish,
    ensures
        ({
            let after = crate::store::next(store, task, reply);
            &&& task.goal matches GoalView::Append(head)
            &&& task.published is None
            &&& after.action->name == crate::store::entry_name(head)
            &&& crate::checkpoint::record_bytes(crate::store::record_of(store, head)) == Ok::<
                Seq<u8>,
                CheckpointErrorView,
            >(after.action->bytes)
            &&& crate::chain::append_decision(store.trust, after.store.records, head) == Ok::<
                AppendDecision,
                CheckpointErrorView,
            >(AppendDecision::Publish)
        }),
{
}

/// What is published for a verified head is accepted when it is read back: as an entry of the
/// directory and as the exact record of the head.
pub proof fn law_published_record_is_read_back(
    store: StoreView,
    head: JournalHeadView,
    bytes: Seq<u8>,
)
    requires
        crate::peer_trust::retained_check(store.trust, head) is Ok,
        crate::checkpoint::record_bytes(crate::store::record_of(store, head)) == Ok::<
            Seq<u8>,
            CheckpointErrorView,
        >(bytes),
    ensures
        crate::store::entry_check(
            store,
            crate::store::entry_name(head),
            bytes,
            Ok(crate::store::record_of(store, head)),
        ) == Ok::<(), CheckpointErrorView>(()),
        crate::store::exact_check(store, head, bytes, Ok(crate::store::record_of(store, head)))
            == Ok::<(), CheckpointErrorView>(()),
{
}

/// Success is reported only for a head whose exact record is in the directory. Either the head
/// is the tail of its verified chain, or its record was linked, or found to hold exactly its
/// bytes, and the directory was made durable.
pub proof fn law_success_follows_a_durable_record(
    store: StoreView,
    task: TaskView,
    reply: ReplyView,
)
    requires
        sound_task(store, task),
        task.goal is Append,
    ensures
        ({
            let after = crate::store::next(store, task, reply);
            let head = task.goal->Append_0;
            &&& after.task.goal == task.goal
            &&& after.action matches ActionView::Appended(outcome) ==> (match task.published {
                Some(published) => outcome == published,
                None => outcome == AppendOutcome::AlreadyPresent && crate::chain::last_of(
                    after.store.records,
                    head.service_id,
                ) == Some(head),
            })
            &&& after.task.published != task.published ==> reply is Synced && (
            after.task.published matches Some(outcome) && task.phase == PhaseView::Syncing(outcome))
            &&& after.task.phase matches PhaseView::Syncing(outcome) ==> (match outcome {
                AppendOutcome::Appended => task.phase == PhaseView::Publishing && reply is Linked,
                AppendOutcome::AlreadyPresent => reply matches ReplyView::Record { bytes, .. }
                    && crate::checkpoint::record_bytes(crate::store::record_of(store, head))
                    == Ok::<Seq<u8>, CheckpointErrorView>(bytes),
            })
        }),
{
}

/// Work that appends a head which its signer's live key did not sign asks nothing of the disk.
pub proof fn law_foreign_heads_never_reach_the_disk(store: StoreView, head: JournalHeadView)
    ensures
        crate::checkpoint::live_key(store.trust.current, head.service_id) != Some(head.key_id)
            ==> crate::store::begin_append(store, head).action is Failed,
        crate::peer_trust::retained_check(store.trust, head) is Err
            ==> crate::store::begin_append(store, head).action is Failed,
{
}

/// A looked-up head is signed by a pinned key of the service that was asked for, and is its last
/// one in the verified chains.
pub proof fn law_latest_head_is_verified(store: StoreView, task: TaskView, reply: ReplyView)
    requires
        sound_store(store),
        sound_task(store, task),
        crate::store::next(store, task, reply).action matches ActionView::Latest(Some(_)),
        task.goal is Latest,
    ensures
        ({
            let after = crate::store::next(store, task, reply);
            &&& task.goal matches GoalView::Latest(service)
            &&& after.action matches ActionView::Latest(Some(head))
            &&& head.service_id == service
            &&& crate::chain::last_of(after.store.records, service) == Some(head)
            &&& crate::peer_trust::retained_check(after.store.trust, head) is Ok
        }),
{
    let after = crate::store::next(store, task, reply);
    law_work_keeps_the_store_sound(store, task, reply);
    let service = task.goal->Latest_0;
    lemma_last_is_verified(after.store, after.store.records, service);
}

proof fn lemma_last_is_verified(store: StoreView, records: Seq<RecordView>, service: Seq<char>)
    requires
        verified_records(store, records),
    ensures
        crate::chain::last_of(records, service) matches Some(head) ==> head.service_id == service
            && crate::peer_trust::retained_check(store.trust, head) is Ok,
    decreases records.len(),
{
    if records.len() > 0 {
        let head = records.drop_last();
        assert forall|i: int| 0 <= i < head.len() implies verified_record(
            store,
            #[trigger] head[i],
        ) by {
            assert(head[i] == records[i]);
        }
        assert(verified_record(store, records[records.len() - 1]));
        lemma_last_is_verified(store, head, service);
    }
}

} // verus!
