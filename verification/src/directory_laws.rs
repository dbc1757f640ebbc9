//! What appends and lookups come to on a checkpoint directory.

use vstd::prelude::*;

use crate::audit::JournalHeadView;
use crate::chain::{append_decision, AppendDecision};
use crate::checkpoint::{
    AppendOutcome, CheckpointError, CheckpointErrorView, PinView, TrustView,
};
use crate::directory::{
    append_begun, chains, coherent, held, intact, latest_begun, latest_in, leads, name_of,
    records_in, retained, same_contents, settled, Directory, StoredFile, World,
};
use crate::files::FileFacts;
use crate::store::{ActionView, CheckpointStore, GoalView, PhaseView, StoreView, TaskView};

verus! {

/// Two stores of one recipient with the same keys.
pub open spec fn same_keys(a: StoreView, b: StoreView) -> bool {
    &&& a.expected_uid == b.expected_uid
    &&& a.recipient == b.recipient
    &&& a.trust == b.trust
}

/// No file of another service, sequence or key has the head's name. Names hold the SHA-256 of the
/// service and of the key.
pub open spec fn own_name(files: Seq<StoredFile>, head: JournalHeadView) -> bool {
    forall|i: int| #![trigger files[i]]
        0 <= i < files.len() && name_of(files[i]) == crate::store::entry_name(head)
            ==> files[i].record.head.service_id == head.service_id
            && files[i].record.head.sequence == head.sequence && files[i].record.head.key_id
            == head.key_id
}

/// The directory once the head's record was linked into it, whatever the order in which it then
/// lists its files.
pub open spec fn links(
    store: StoreView,
    dir: Directory,
    head: JournalHeadView,
    grown: Directory,
) -> bool {
    &&& intact(store, grown)
    &&& records_in(grown.files).to_multiset() == records_in(dir.files).to_multiset().insert(
        crate::store::record_of(store, head),
    )
}

/// Whether a head may follow what a directory retains.
pub open spec fn decision(store: StoreView, dir: Directory, head: JournalHeadView) -> Result<
    AppendDecision,
    CheckpointErrorView,
> {
    append_decision(store.trust, chains(store, dir), head)
}

/// An append may be attempted: the head's record has bytes and a name of its own, and where the
/// head may follow, linking its record adds it to the directory.
pub open spec fn attemptable(
    store: StoreView,
    dir: Directory,
    head: JournalHeadView,
    grown: Directory,
) -> bool {
    &&& crate::checkpoint::record_bytes(crate::store::record_of(store, head)) is Ok
    &&& own_name(dir.files, head)
    &&& decision(store, dir, head) == Ok::<AppendDecision, CheckpointErrorView>(
        AppendDecision::Publish,
    ) ==> links(store, dir, head, grown)
}

/// What an append comes to.
pub open spec fn append_result(store: StoreView, dir: Directory, head: JournalHeadView) -> ActionView {
    match crate::peer_trust::live_check(store.trust, head) {
        Err(e) => ActionView::Failed(e),
        Ok(_) => match decision(store, dir, head) {
            Err(e) => ActionView::Failed(e),
            Ok(AppendDecision::AlreadyPresent) => ActionView::Appended(
                AppendOutcome::AlreadyPresent,
            ),
            Ok(AppendDecision::Publish) => ActionView::Appended(AppendOutcome::Appended),
        },
    }
}

/// What is retained for one store is retained for another with the same keys.
proof fn lemma_retained_by_keys(a: StoreView, b: StoreView, dir: Directory)
    requires
        same_keys(a, b),
        retained(a, dir),
    ensures
        retained(b, dir),
        chains(a, dir) == chains(b, dir),
{
    let records = records_in(dir.files);
    assert forall|i: int| 0 <= i < records.len() implies crate::store_laws::verified_record(
        b,
        #[trigger] records[i],
    ) by {
        assert(crate::store_laws::verified_record(a, records[i]));
    }
}

/// The chains of a retained directory ascend and hold no head twice.
proof fn lemma_chains(store: StoreView, dir: Directory)
    requires
        retained(store, dir),
    ensures
        crate::chain::ascending(chains(store, dir)),
        crate::chain::chain_check(store.trust, chains(store, dir)) is Ok,
        crate::restart::distinct_heads(chains(store, dir)),
        chains(store, dir).to_multiset() == records_in(dir.files).to_multiset(),
{
    let records = records_in(dir.files);
    assert forall|i: int, j: int| 0 <= i < j < records.len() implies (#[trigger] records[i]).head
        != (#[trigger] records[j]).head by {
        assert(name_of(dir.files[i]) != name_of(dir.files[j]));
    }
    crate::restart::lemma_order_keeps_heads_distinct(store.trust, records);
    crate::chain::law_chain_order_ascends(store.trust, records);
    crate::chain::law_chain_order_is_a_permutation(store.trust, records);
}

/// The name of a head that may follow is free.
proof fn lemma_name_is_free(store: StoreView, dir: Directory, head: JournalHeadView)
    requires
        retained(store, dir),
        crate::restart::no_handover_cycle(store.trust),
        own_name(dir.files, head),
        decision(store, dir, head) == Ok::<AppendDecision, CheckpointErrorView>(
            AppendDecision::Publish,
        ),
    ensures
        !held(dir.files, crate::store::entry_name(head)),
{
    broadcast use vstd::seq_lib::group_to_multiset_ensures;

    let name = crate::store::entry_name(head);
    let ordered = chains(store, dir);
    lemma_chains(store, dir);
    if held(dir.files, name) {
        let i = choose|i: int|
            0 <= i < dir.files.len() && name_of(#[trigger] dir.files[i]) == name;
        let record = dir.files[i].record;
        let records = records_in(dir.files);
        assert(records[i] == record);
        assert(records.contains(record));
        assert(records.to_multiset().count(record) > 0);
        assert(ordered.contains(record));
        let m = choose|m: int| 0 <= m < ordered.len() && ordered[m] == record;
        let at = crate::chain::lemma_last_of(ordered, head.service_id);
        crate::text::lemma_text_before_total(head.service_id, head.service_id);
        assert(crate::chain::last_of(ordered, head.service_id) is Some);
        let latest = ordered[at].head;
        if m < at {
            assert(crate::chain::no_later(ordered[m].head, ordered[at].head));
        }
        assert(latest.sequence == head.sequence);
        assert(crate::peer_trust::same_head_handover(store.trust, latest, head));
        crate::chain::lemma_direct_handover(store.trust, latest, head);
        if latest.key_id == head.key_id {
            assert(crate::chain::comes_from(
                store.trust,
                head.key_id,
                head,
                store.trust.handovers.len(),
            ));
        } else {
            crate::restart::lemma_handed_over_once(store.trust, ordered, head, m);
        }
    }
}

/// A directory into which a head's record was linked is retained, with the head as the latest of
/// its service.
proof fn lemma_grown_is_retained(
    store: StoreView,
    dir: Directory,
    head: JournalHeadView,
    grown: Directory,
)
    requires
        retained(store, dir),
        crate::restart::no_handover_cycle(store.trust),
        crate::peer_trust::live_check(store.trust, head) is Ok,
        decision(store, dir, head) == Ok::<AppendDecision, CheckpointErrorView>(
            AppendDecision::Publish,
        ),
        links(store, dir, head, grown),
    ensures
        retained(store, grown),
        chains(store, grown) == crate::chain::placed(
            store.trust,
            chains(store, dir),
            crate::store::record_of(store, head),
        ),
        latest_in(store, grown, head.service_id) == Some(head),
        decision(store, grown, head) == Ok::<AppendDecision, CheckpointErrorView>(
            AppendDecision::AlreadyPresent,
        ),
{
    broadcast use vstd::seq_lib::group_to_multiset_ensures;

    let record = crate::store::record_of(store, head);
    let listed = records_in(grown.files);
    let records = records_in(dir.files);
    lemma_chains(store, dir);
    crate::restart::law_published_head_survives_a_restart(
        store.trust,
        chains(store, dir),
        record,
        listed,
    );
    assert forall|i: int| 0 <= i < listed.len() implies crate::store_laws::verified_record(
        store,
        #[trigger] listed[i],
    ) by {
        let x = listed[i];
        assert(listed.contains(x));
        assert(listed.to_multiset().count(x) > 0);
        if x != record {
            assert(records.to_multiset().count(x) > 0);
            assert(records.contains(x));
            let m = choose|m: int| 0 <= m < records.len() && records[m] == x;
            assert(crate::store_laws::verified_record(store, records[m]));
        }
    }
}

/// A lookup answers the latest head that the directory retains, for any service, and changes
/// nothing. So does a lookup by a store that was just opened.
pub proof fn law_lookup_answers_from_the_directory(
    store: StoreView,
    dir: Directory,
    service: Seq<char>,
)
    requires
        retained(store, dir),
        coherent(store, dir),
    ensures
        ({
            let end = settled(latest_begun(store, dir, service));
            &&& end.now.action == ActionView::Latest(latest_in(store, dir, service))
            &&& same_keys(store, end.now.store)
            &&& same_contents(end.dir, dir)
            &&& coherent(end.now.store, end.dir)
        }),
{
    let w = latest_begun(store, dir, service);
    let (v, t) = crate::directory::lemma_look(w);
    if v.now == crate::store::scan(store, t, 0) {
        let (end, done) = crate::directory::lemma_scan(w, v);
        crate::directory::lemma_refreshed_coherent(store, end.now.store, dir);
        crate::directory::lemma_settled(w, end);
    } else {
        let i = crate::directory::lemma_latest_is_stored(store, dir, service);
        match latest_in(store, dir, service) {
            None => {
                crate::directory::lemma_settled(w, v);
            },
            Some(head) => {
                let end = crate::directory::lemma_recheck(w, v, t, head, i);
                crate::directory::lemma_settled(w, end);
            },
        }
    }
}

/// Reading a directory when a store is opened succeeds, and gives the store its chains.
pub proof fn law_opening_reads_the_directory(store: StoreView, dir: Directory)
    requires
        retained(store, dir),
    ensures
        ({
            let w = World {
                now: crate::store::scan(store, crate::store::new_task(GoalView::Open), 0),
                dir,
                grown: dir,
            };
            let end = settled(w);
            &&& end.now.action == ActionView::Opened
            &&& crate::directory::refreshed(store, end.now.store, dir)
            &&& same_contents(end.dir, dir)
            &&& coherent(end.now.store, end.dir)
        }),
{
    let w = World {
        now: crate::store::scan(store, crate::store::new_task(GoalView::Open), 0),
        dir,
        grown: dir,
    };
    crate::directory::lemma_leads_self(w);
    let (end, done) = crate::directory::lemma_scan(w, w);
    crate::directory::lemma_refreshed_coherent(store, end.now.store, dir);
    crate::directory::lemma_settled(w, end);
}

/// A store that was just opened speaks of any directory, and is unread.
pub proof fn law_opened_store_is_unread(
    r: Result<CheckpointStore, CheckpointError>,
    root: FileFacts,
    expected_uid: u32,
    recipient: Seq<char>,
    trust: TrustView,
    dir: Directory,
)
    requires
        crate::store::opened(r, root, expected_uid, recipient, trust),
        r is Ok,
    ensures
        !r->Ok_0@.read,
        r->Ok_0@.trust == trust,
        r->Ok_0@.recipient == recipient,
        r->Ok_0@.expected_uid == expected_uid,
        coherent(r->Ok_0@, dir),
{
}

/// Publishing a head whose name is free links its record.
proof fn lemma_link(start: World, x: World, task: TaskView, head: JournalHeadView) -> (end: World)
    requires
        leads(start, x),
        x.now == crate::store::publish(x.now.store, task, head),
        crate::checkpoint::record_bytes(crate::store::record_of(x.now.store, head)) is Ok,
        task.goal == GoalView::Append(head),
        !held(x.dir.files, crate::store::entry_name(head)),
        retained(x.now.store, x.grown),
    ensures
        leads(start, end),
        end.now.action == ActionView::Appended(AppendOutcome::Appended),
        crate::directory::refreshed(x.now.store, end.now.store, x.grown),
        same_contents(end.dir, x.grown),
{
    assert(x.now.task.phase == PhaseView::Publishing);
    let linked = crate::directory::advance(x);
    crate::directory::lemma_step(start, x);
    assert(linked.now.task.phase == PhaseView::Syncing(AppendOutcome::Appended));
    let synced = crate::directory::advance(linked);
    crate::directory::lemma_step(start, linked);
    let (end, done) = crate::directory::lemma_scan(start, synced);
    end
}

/// Publishing a head whose exact record is there already finds it.
proof fn lemma_find(start: World, x: World, task: TaskView, head: JournalHeadView, i: int) -> (end:
    World)
    requires
        leads(start, x),
        x.now == crate::store::publish(x.now.store, task, head),
        task.goal == GoalView::Append(head),
        retained(x.now.store, x.dir),
        0 <= i < x.dir.files.len(),
        x.dir.files[i].record.head == head,
    ensures
        leads(start, end),
        end.now.action == ActionView::Appended(AppendOutcome::AlreadyPresent),
        crate::directory::refreshed(x.now.store, end.now.store, x.dir),
        same_contents(end.dir, x.dir),
{
    let store = x.now.store;
    let file = x.dir.files[i];
    crate::directory::lemma_file_of(store, x.dir, i);
    assert(records_in(x.dir.files)[i] == file.record);
    assert(crate::store_laws::verified_record(store, file.record));
    let bytes = crate::checkpoint::record_bytes(file.record)->Ok_0;
    crate::store_laws::law_published_record_is_read_back(store, head, bytes);
    assert(x.now.task.phase == PhaseView::Publishing);
    let exists_already = crate::directory::advance(x);
    crate::directory::lemma_step(start, x);
    assert(exists_already.now.task.phase == PhaseView::ExistingFacts);
    let looked = crate::directory::advance(exists_already);
    crate::directory::lemma_step(start, exists_already);
    assert(looked.now.task.phase == PhaseView::ExistingRecord);
    let read = crate::directory::advance(looked);
    crate::directory::lemma_step(start, looked);
    assert(read.now.task.phase == PhaseView::Syncing(AppendOutcome::AlreadyPresent));
    let synced = crate::directory::advance(read);
    crate::directory::lemma_step(start, read);
    let (end, done) = crate::directory::lemma_scan(start, synced);
    end
}

/// An append of a live head comes to the cached head's file, or to the directory's chains as they
/// were just read.
proof fn lemma_append_comes_to(
    store: StoreView,
    dir: Directory,
    head: JournalHeadView,
    grown: Directory,
) -> (r: (World, TaskView))
    requires
        retained(store, dir),
        coherent(store, dir),
        crate::peer_trust::live_check(store.trust, head) is Ok,
    ensures
        leads(append_begun(store, dir, head, grown), r.0),
        same_contents(r.0.dir, dir),
        r.0.grown == grown,
        same_keys(store, r.0.now.store),
        coherent(r.0.now.store, r.0.dir),
        ({
            ||| decision(store, dir, head) == Ok::<AppendDecision, CheckpointErrorView>(
                AppendDecision::AlreadyPresent,
            ) && r.0.now.action == ActionView::Appended(AppendOutcome::AlreadyPresent)
            ||| r.0.now == crate::store::scanned(r.0.now.store, r.1) && r.1.goal
                == GoalView::Append(head) && r.1.published is None && r.0.now.store.records
                == chains(store, dir)
        }),
{
    let w = append_begun(store, dir, head, grown);
    let (v, t) = crate::directory::lemma_look(w);
    if v.now == crate::store::scan(store, t, 0) {
        let (end, done) = crate::directory::lemma_scan(w, v);
        crate::directory::lemma_refreshed_coherent(store, end.now.store, dir);
        (end, done)
    } else {
        let i = crate::directory::lemma_latest_is_stored(store, dir, head.service_id);
        assert(crate::store::cached(store, t.goal) == Some(head));
        crate::chain::law_append_is_idempotent(store.trust, chains(store, dir), head);
        let end = crate::directory::lemma_recheck(w, v, t, head, i);
        (end, t)
    }
}

/// What an append comes to is decided by the head's signature and by the chains that the
/// directory retains. After every success the head is the latest of its service; a head that was
/// appended stands in its place among the chains, and otherwise the directory is unchanged.
pub proof fn law_append_follows_the_directory(
    store: StoreView,
    dir: Directory,
    head: JournalHeadView,
    grown: Directory,
)
    requires
        retained(store, dir),
        coherent(store, dir),
        crate::restart::no_handover_cycle(store.trust),
        attemptable(store, dir, head, grown),
    ensures
        ({
            let end = settled(append_begun(store, dir, head, grown));
            &&& end.now.action == append_result(store, dir, head)
            &&& same_keys(store, end.now.store)
            &&& retained(end.now.store, end.dir)
            &&& coherent(end.now.store, end.dir)
            &&& end.now.action is Appended ==> latest_in(store, end.dir, head.service_id) == Some(
                head,
            )
            &&& if end.now.action == ActionView::Appended(AppendOutcome::Appended) {
                same_contents(end.dir, grown) && chains(store, end.dir) == crate::chain::placed(
                    store.trust,
                    chains(store, dir),
                    crate::store::record_of(store, head),
                )
            } else {
                same_contents(end.dir, dir)
            }
        }),
{
    let w = append_begun(store, dir, head, grown);
    if crate::peer_trust::live_check(store.trust, head) is Err {
        crate::directory::lemma_leads_self(w);
        crate::directory::lemma_settled(w, w);
    } else {
        let (x, t) = lemma_append_comes_to(store, dir, head, grown);
        let read = x.now.store;
        lemma_retained_by_keys(store, read, dir);
        lemma_retained_by_keys(store, read, x.dir);
        if decision(store, dir, head) == Ok::<AppendDecision, CheckpointErrorView>(
            AppendDecision::Publish,
        ) {
            lemma_name_is_free(store, dir, head);
            lemma_grown_is_retained(store, dir, head, grown);
            lemma_retained_by_keys(store, read, grown);
            let end = lemma_link(w, x, t, head);
            crate::directory::lemma_refreshed_coherent(read, end.now.store, grown);
            lemma_retained_by_keys(store, end.now.store, grown);
            lemma_retained_by_keys(store, end.now.store, end.dir);
            crate::directory::lemma_settled(w, end);
        } else {
            crate::directory::lemma_settled(w, x);
        }
    }
}

/// One live key for each peer, and no other.
pub open spec fn live_keys_only(trust: TrustView) -> bool {
    &&& trust.historical.len() == 0
    &&& trust.handovers.len() == 0
    &&& crate::checkpoint::trust_check(trust) is Ok
}

/// Where each service has one live key, it is the service's only key.
proof fn lemma_live_key_is_the_only_one(
    current: Seq<PinView>,
    service: Seq<char>,
    key_id: Seq<char>,
)
    requires
        crate::checkpoint::current_check(current) is Ok,
        crate::checkpoint::pinned_key(current, service, key_id) is Some,
    ensures
        crate::checkpoint::live_key(current, service) == Some(key_id),
    decreases current.len(),
{
    if !(current.last().service == service && current.last().key_id == key_id) {
        lemma_live_key_is_the_only_one(current.drop_last(), service, key_id);
    }
}

/// With live keys only, what an append of a live head comes to is decided by its sequence: above
/// the latest of its service, or as its first, it is appended; the latest itself is present
/// already; another head at its sequence is a conflict; a head below it is a rollback. After
/// every success the head is what is looked up, by this store and by one that is opened anew on
/// the directory.
pub proof fn law_sequence_decides_an_append(
    store: StoreView,
    dir: Directory,
    head: JournalHeadView,
    grown: Directory,
    reopened: StoreView,
)
    requires
        live_keys_only(store.trust),
        retained(store, dir),
        coherent(store, dir),
        crate::peer_trust::live_check(store.trust, head) is Ok,
        attemptable(store, dir, head, grown),
        same_keys(store, reopened),
        !reopened.read,
    ensures
        ({
            let latest = latest_in(store, dir, head.service_id);
            let end = settled(append_begun(store, dir, head, grown));
            &&& (latest is None || head.sequence > latest->Some_0.sequence) <==> end.now.action
                == ActionView::Appended(AppendOutcome::Appended)
            &&& latest == Some(head) <==> end.now.action == ActionView::Appended(
                AppendOutcome::AlreadyPresent,
            )
            &&& (latest is Some && head.sequence == latest->Some_0.sequence && head
                != latest->Some_0) <==> end.now.action == ActionView::Failed(
                CheckpointErrorView::SequenceConflict,
            )
            &&& (latest is Some && head.sequence < latest->Some_0.sequence) <==> end.now.action
                == ActionView::Failed(CheckpointErrorView::SequenceRollback)
            &&& settled(latest_begun(store, dir, head.service_id)).now.action
                == ActionView::Latest(latest)
            &&& end.now.action is Appended ==> {
                &&& settled(latest_begun(end.now.store, end.dir, head.service_id)).now.action
                    == ActionView::Latest(Some(head))
                &&& settled(latest_begun(reopened, end.dir, head.service_id)).now.action
                    == ActionView::Latest(Some(head))
            }
        }),
{
    let trust = store.trust;
    let service = head.service_id;
    assert(crate::restart::no_handover_cycle(trust));
    law_append_follows_the_directory(store, dir, head, grown);
    law_lookup_answers_from_the_directory(store, dir, service);
    let end = settled(append_begun(store, dir, head, grown));
    lemma_retained_by_keys(end.now.store, reopened, end.dir);
    lemma_retained_by_keys(end.now.store, store, end.dir);
    law_lookup_answers_from_the_directory(end.now.store, end.dir, service);
    law_lookup_answers_from_the_directory(reopened, end.dir, service);
    let i = crate::directory::lemma_latest_is_stored(store, dir, service);
    if let Some(latest) = latest_in(store, dir, service) {
        assert(records_in(dir.files)[i] == dir.files[i].record);
        assert(crate::store_laws::verified_record(store, records_in(dir.files)[i]));
        assert(trust.current + trust.historical =~= trust.current);
        lemma_live_key_is_the_only_one(trust.current, service, latest.key_id);
        assert(latest.key_id == head.key_id);
        assert(!crate::peer_trust::authorized_handover(trust, latest, head));
    }
}

/// An attempt to append a head, and the directory as it is once the head's record is linked.
pub struct Attempt {
    pub head: JournalHeadView,
    pub grown: Directory,
}

/// The store and the directory after a run of attempts.
pub open spec fn site(store: StoreView, dir: Directory, attempts: Seq<Attempt>) -> (
    StoreView,
    Directory,
)
    decreases attempts.len(),
{
    if attempts.len() == 0 {
        (store, dir)
    } else {
        let at = site(store, dir, attempts.drop_last());
        let last = attempts.last();
        let end = settled(append_begun(at.0, at.1, last.head, last.grown));
        (end.now.store, end.dir)
    }
}

/// How the last attempt of a run ended.
pub open spec fn last_result(store: StoreView, dir: Directory, attempts: Seq<Attempt>) -> ActionView {
    let at = site(store, dir, attempts.drop_last());
    settled(append_begun(at.0, at.1, attempts.last().head, attempts.last().grown)).now.action
}

/// Each attempt of a run may be attempted where the ones before it have led.
pub open spec fn each_attemptable(store: StoreView, dir: Directory, attempts: Seq<Attempt>) -> bool
    decreases attempts.len(),
{
    attempts.len() > 0 ==> {
        let at = site(store, dir, attempts.drop_last());
        each_attemptable(store, dir, attempts.drop_last()) && attemptable(
            at.0,
            at.1,
            attempts.last().head,
            attempts.last().grown,
        )
    }
}

/// An attempt of a run succeeded.
pub open spec fn succeeded(store: StoreView, dir: Directory, attempts: Seq<Attempt>, i: int) -> bool {
    last_result(store, dir, attempts.take(i + 1)) is Appended
}

/// The head of a service that a run appended last.
pub open spec fn appended_last(
    store: StoreView,
    dir: Directory,
    attempts: Seq<Attempt>,
    service: Seq<char>,
) -> Option<JournalHeadView>
    decreases attempts.len(),
{
    if attempts.len() == 0 {
        None
    } else if last_result(store, dir, attempts) is Appended && attempts.last().head.service_id
        == service {
        Some(attempts.last().head)
    } else {
        appended_last(store, dir, attempts.drop_last(), service)
    }
}

/// The head that a run appended last is one of those that succeeded.
proof fn lemma_appended_last(
    store: StoreView,
    dir: Directory,
    attempts: Seq<Attempt>,
    service: Seq<char>,
) -> (i: int)
    ensures
        appended_last(store, dir, attempts, service) matches Some(head) ==> 0 <= i < attempts.len()
            && attempts[i].head == head && head.service_id == service && succeeded(
            store,
            dir,
            attempts,
            i,
        ),
    decreases attempts.len(),
{
    if attempts.len() == 0 {
        0
    } else if last_result(store, dir, attempts) is Appended && attempts.last().head.service_id
        == service {
        assert(attempts.take(attempts.len() as int) =~= attempts);
        attempts.len() - 1
    } else {
        let before = attempts.drop_last();
        let i = lemma_appended_last(store, dir, before, service);
        if appended_last(store, dir, before, service) is Some {
            assert(before.take(i + 1) =~= attempts.take(i + 1));
            assert(before[i] == attempts[i]);
        }
        i
    }
}

proof fn lemma_run_of_attempts(
    store: StoreView,
    dir: Directory,
    attempts: Seq<Attempt>,
    service: Seq<char>,
)
    requires
        crate::restart::no_handover_cycle(store.trust),
        dir.files.len() == 0,
        retained(store, dir),
        coherent(store, dir),
        each_attemptable(store, dir, attempts),
    ensures
        ({
            let at = site(store, dir, attempts);
            &&& same_keys(store, at.0)
            &&& retained(at.0, at.1)
            &&& coherent(at.0, at.1)
            &&& latest_in(at.0, at.1, service) == appended_last(store, dir, attempts, service)
            &&& forall|i: int|
                0 <= i < attempts.len() && #[trigger] succeeded(store, dir, attempts, i)
                    && attempts[i].head.service_id == service ==> (appended_last(
                    store,
                    dir,
                    attempts,
                    service,
                ) matches Some(head) && attempts[i].head.sequence <= head.sequence)
        }),
    decreases attempts.len(),
{
    if attempts.len() == 0 {
        let none = records_in(dir.files);
        assert(none.len() == 0);
        assert(crate::chain::in_chain_order(store.trust, none) == none);
        assert(crate::chain::last_of(none, service) is None);
    } else {
        let before = attempts.drop_last();
        let last = attempts.last();
        lemma_run_of_attempts(store, dir, before, service);
        let at = site(store, dir, before);
        law_append_follows_the_directory(at.0, at.1, last.head, last.grown);
        let end = settled(append_begun(at.0, at.1, last.head, last.grown));
        let earlier = appended_last(store, dir, before, service);
        let record = crate::store::record_of(at.0, last.head);
        if last.head.service_id != service {
            crate::restart::lemma_placed_elsewhere(
                store.trust,
                chains(at.0, at.1),
                record,
                service,
                last.head.key_id,
            );
        }
        assert forall|i: int|
            0 <= i < attempts.len() && #[trigger] succeeded(store, dir, attempts, i)
                && attempts[i].head.service_id == service implies (appended_last(
            store,
            dir,
            attempts,
            service,
        ) matches Some(head) && attempts[i].head.sequence <= head.sequence) by {
            if i < before.len() {
                assert(before.take(i + 1) =~= attempts.take(i + 1));
                assert(before[i] == attempts[i]);
                assert(succeeded(store, dir, before, i));
            } else {
                assert(attempts.take(i + 1) =~= attempts);
            }
        }
    }
}

/// After a run of attempts on an empty directory a lookup answers the head of the service that
/// was appended last, by this store and by one that is opened anew on the directory. It is one of
/// the heads whose append succeeded, and none of those has a greater sequence; a service of which
/// none succeeded has no latest head.
pub proof fn law_lookup_follows_the_appends(
    store: StoreView,
    dir: Directory,
    attempts: Seq<Attempt>,
    service: Seq<char>,
    reopened: StoreView,
) -> (at: int)
    requires
        crate::restart::no_handover_cycle(store.trust),
        dir.files.len() == 0,
        crate::checkpoint::root_check(dir.root, store.expected_uid) is Ok,
        coherent(store, dir),
        each_attemptable(store, dir, attempts),
        same_keys(store, reopened),
        !reopened.read,
    ensures
        ({
            let end = site(store, dir, attempts);
            let latest = appended_last(store, dir, attempts, service);
            &&& settled(latest_begun(end.0, end.1, service)).now.action == ActionView::Latest(latest)
            &&& settled(latest_begun(reopened, end.1, service)).now.action == ActionView::Latest(
                latest,
            )
            &&& latest matches Some(head) ==> 0 <= at < attempts.len() && attempts[at].head == head
                && head.service_id == service && succeeded(store, dir, attempts, at)
            &&& forall|i: int|
                0 <= i < attempts.len() && #[trigger] succeeded(store, dir, attempts, i)
                    && attempts[i].head.service_id == service ==> (latest matches Some(head)
                    && attempts[i].head.sequence <= head.sequence)
        }),
{
    let none = records_in(dir.files);
    assert(none.len() == 0);
    assert(crate::chain::in_chain_order(store.trust, none) == none);
    assert(retained(store, dir));
    lemma_run_of_attempts(store, dir, attempts, service);
    let end = site(store, dir, attempts);
    lemma_retained_by_keys(end.0, reopened, end.1);
    law_lookup_answers_from_the_directory(end.0, end.1, service);
    law_lookup_answers_from_the_directory(reopened, end.1, service);
    lemma_appended_last(store, dir, attempts, service)
}

/// A store has decided to publish a head and asks the directory to link its record.
pub open spec fn publishing(w: World, head: JournalHeadView) -> bool {
    &&& w.now.task.phase == PhaseView::Publishing
    &&& w.now.task.goal == GoalView::Append(head)
    &&& crate::checkpoint::record_bytes(crate::store::record_of(w.now.store, head)) == Ok::<
        Seq<u8>,
        CheckpointErrorView,
    >(w.now.action->bytes)
    &&& w.now.action is Publish
    &&& w.now.action->name == crate::store::entry_name(head)
}

/// Of two stores that publish one head on one directory exactly one appends it, and the other
/// finds it present: both read the directory before either links the record, or the second begins
/// when the first has ended. The directory then has one file of the head's name, and a store
/// that is opened anew finds the head present.
pub proof fn law_two_publishers_append_once(
    first: StoreView,
    second: StoreView,
    dir: Directory,
    head: JournalHeadView,
    grown: Directory,
    reopened: StoreView,
) -> (r: (World, World))
    requires
        same_keys(first, second),
        same_keys(first, reopened),
        !reopened.read,
        retained(first, dir),
        coherent(first, dir),
        coherent(second, dir),
        coherent(second, grown),
        crate::restart::no_handover_cycle(first.trust),
        crate::peer_trust::live_check(first.trust, head) is Ok,
        decision(first, dir, head) == Ok::<AppendDecision, CheckpointErrorView>(
            AppendDecision::Publish,
        ),
        attemptable(first, dir, head, grown),
    ensures
        leads(append_begun(first, dir, head, grown), r.0),
        leads(append_begun(second, dir, head, grown), r.1),
        publishing(r.0, head),
        publishing(r.1, head),
        settled(r.0).now.action == ActionView::Appended(AppendOutcome::Appended),
        same_contents(settled(r.0).dir, grown),
        settled(World { dir: grown, ..r.1 }).now.action == ActionView::Appended(
            AppendOutcome::AlreadyPresent,
        ),
        same_contents(settled(World { dir: grown, ..r.1 }).dir, grown),
        settled(append_begun(second, grown, head, grown)).now.action == ActionView::Appended(
            AppendOutcome::AlreadyPresent,
        ),
        settled(append_begun(reopened, grown, head, grown)).now.action == ActionView::Appended(
            AppendOutcome::AlreadyPresent,
        ),
        exists|i: int|
            0 <= i < grown.files.len() && (#[trigger] grown.files[i]).record.head == head && forall|
                j: int,
            |
                0 <= j < grown.files.len() && name_of(#[trigger] grown.files[j])
                    == crate::store::entry_name(head) ==> j == i,
{
    let (a, t) = lemma_append_comes_to(first, dir, head, grown);
    lemma_retained_by_keys(first, second, dir);
    let (b, u) = lemma_append_comes_to(second, dir, head, grown);
    lemma_name_is_free(first, dir, head);
    lemma_grown_is_retained(first, dir, head, grown);
    lemma_retained_by_keys(first, a.now.store, grown);
    lemma_retained_by_keys(first, b.now.store, grown);
    lemma_retained_by_keys(first, second, grown);
    lemma_retained_by_keys(first, reopened, grown);
    crate::directory::lemma_leads_self(a);
    let end = lemma_link(a, a, t, head);
    crate::directory::lemma_settled(a, end);
    let i = crate::directory::lemma_latest_is_stored(first, grown, head.service_id);
    let late = World { dir: grown, ..b };
    crate::directory::lemma_leads_self(late);
    let found = lemma_find(late, late, u, head, i);
    crate::directory::lemma_settled(late, found);
    assert forall|j: int|
        0 <= j < grown.files.len() && name_of(#[trigger] grown.files[j])
            == crate::store::entry_name(head) implies j == i by {
        assert(name_of(grown.files[i]) == name_of(grown.files[j]));
    }
    let (c, _) = lemma_append_comes_to(second, grown, head, grown);
    crate::directory::lemma_settled(append_begun(second, grown, head, grown), c);
    let (d, _) = lemma_append_comes_to(reopened, grown, head, grown);
    crate::directory::lemma_settled(append_begun(reopened, grown, head, grown), d);
    (a, b)
}

} // verus!
