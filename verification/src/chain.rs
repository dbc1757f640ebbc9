//! The order and the continuity of retained heads, and what a new head may do to them.

use vstd::prelude::*;

use crate::audit::{JournalHeadView, SignedJournalHead};
use crate::checkpoint::{
    CheckpointError, CheckpointErrorView, CheckpointRecord, RecordView, TrustView,
};
use crate::ids::Token;
use crate::peer_trust::PeerTrust;
use crate::text::is_text_before;

verus! {

/// A head as another key of its service signs it. Its signature is left as it is.
pub open spec fn under_key(head: JournalHeadView, key_id: Seq<char>) -> JournalHeadView {
    JournalHeadView { key_id, ..head }
}

/// The key from which packaging hands over to a head's key at exactly this head.
pub open spec fn key_before(trust: TrustView, head: JournalHeadView) -> Option<Seq<char>> {
    match crate::checkpoint::handover_into(trust.handovers, head.service_id, head.key_id) {
        Some(handover) => if handover.sequence == head.sequence && handover.head_hash
            == head.head_hash {
            Some(handover.old_key_id)
        } else {
            None
        },
        None => None,
    }
}

/// Handovers at a head lead from a key to the head's own key, in at most so many steps.
pub open spec fn comes_from(
    trust: TrustView,
    key_id: Seq<char>,
    head: JournalHeadView,
    steps: nat,
) -> bool
    decreases steps,
{
    steps > 0 && (match key_before(trust, head) {
        Some(before) => before == key_id || comes_from(
            trust,
            key_id,
            under_key(head, before),
            (steps - 1) as nat,
        ),
        None => false,
    })
}

/// Packaging hands the old head over to the new one at one sequence and hash, directly or through
/// other keys.
pub open spec fn handed_over(
    trust: TrustView,
    old_head: JournalHeadView,
    new_head: JournalHeadView,
) -> bool {
    &&& old_head.service_id == new_head.service_id
    &&& old_head.sequence == new_head.sequence
    &&& old_head.head_hash == new_head.head_hash
    &&& comes_from(trust, old_head.key_id, new_head, trust.handovers.len())
}

/// Whether `a` stands strictly after `b` in the order of chains: by service, then by sequence,
/// then along the handovers, the old head first whatever the names of the keys, and by key ID
/// where no handovers join the two.
pub open spec fn stands_after(trust: TrustView, a: JournalHeadView, b: JournalHeadView) -> bool {
    if a.service_id != b.service_id {
        crate::text::text_before(b.service_id, a.service_id)
    } else if a.sequence != b.sequence {
        a.sequence > b.sequence
    } else if handed_over(trust, a, b) {
        false
    } else if handed_over(trust, b, a) {
        true
    } else {
        crate::text::text_before(b.key_id, a.key_id)
    }
}

/// A direct handover at one head is a handover along the chain.
pub proof fn lemma_direct_handover(
    trust: TrustView,
    old_head: JournalHeadView,
    new_head: JournalHeadView,
)
    requires
        crate::peer_trust::same_head_handover(trust, old_head, new_head),
    ensures
        key_before(trust, new_head) == Some(old_head.key_id),
        handed_over(trust, old_head, new_head),
{
}

/// At a handover the old head stands before the new one, whatever the names of the keys.
pub proof fn law_handover_puts_the_old_head_first(
    trust: TrustView,
    old_head: JournalHeadView,
    new_head: JournalHeadView,
)
    requires
        handed_over(trust, old_head, new_head),
        !handed_over(trust, new_head, old_head),
    ensures
        stands_after(trust, new_head, old_head),
        !stands_after(trust, old_head, new_head),
{
}

/// The records with one more, behind the last of them that does not stand after it.
pub open spec fn placed(trust: TrustView, records: Seq<RecordView>, record: RecordView) -> Seq<
    RecordView,
>
    decreases records.len(),
{
    if records.len() == 0 {
        seq![record]
    } else if !stands_after(trust, records.last().head, record.head) {
        records.push(record)
    } else {
        placed(trust, records.drop_last(), record).push(records.last())
    }
}

/// The records in the order of chains.
pub open spec fn in_chain_order(trust: TrustView, records: Seq<RecordView>) -> Seq<RecordView>
    decreases records.len(),
{
    if records.len() == 0 {
        records
    } else {
        placed(trust, in_chain_order(trust, records.drop_last()), records.last())
    }
}

/// The last head of a service.
pub open spec fn last_of(records: Seq<RecordView>, service: Seq<char>) -> Option<JournalHeadView>
    decreases records.len(),
{
    if records.len() == 0 {
        None
    } else if records.last().head.service_id == service {
        Some(records.last().head)
    } else {
        last_of(records.drop_last(), service)
    }
}

/// Whether a service already stepped from another key into this one.
pub open spec fn entered(records: Seq<RecordView>, service: Seq<char>, key_id: Seq<char>) -> bool
    decreases records.len(),
{
    if records.len() == 0 {
        false
    } else {
        let head = records.last().head;
        let before = records.drop_last();
        ||| head.service_id == service && head.key_id == key_id && last_of(before, service) is Some
            && last_of(before, service)->Some_0.key_id != key_id
        ||| entered(before, service, key_id)
    }
}

/// Whether a head continues the records before it.
pub open spec fn continues(
    trust: TrustView,
    before: Seq<RecordView>,
    head: JournalHeadView,
) -> Result<(), CheckpointErrorView> {
    match last_of(before, head.service_id) {
        None => Ok(()),
        Some(previous) => if head.sequence < previous.sequence {
            Err(CheckpointErrorView::SequenceRollback)
        } else if head.key_id == previous.key_id {
            if head.sequence == previous.sequence && head != previous {
                Err(CheckpointErrorView::SequenceConflict)
            } else {
                Ok(())
            }
        } else {
            match crate::checkpoint::handover_into(
                trust.handovers,
                head.service_id,
                head.key_id,
            ) {
                None => Err(CheckpointErrorView::SequenceConflict),
                Some(handover) => if entered(before, head.service_id, head.key_id)
                    || handover.old_key_id != previous.key_id || handover.sequence
                    != previous.sequence || handover.head_hash != previous.head_hash || (
                head.sequence == previous.sequence && head.head_hash != previous.head_hash) {
                    Err(CheckpointErrorView::SequenceConflict)
                } else {
                    Ok(())
                },
            }
        },
    }
}

/// Whether every record continues the ones before it.
pub open spec fn chain_check(trust: TrustView, records: Seq<RecordView>) -> Result<
    (),
    CheckpointErrorView,
>
    decreases records.len(),
{
    if records.len() == 0 {
        Ok(())
    } else {
        match chain_check(trust, records.drop_last()) {
            Err(e) => Err(e),
            Ok(_) => continues(trust, records.drop_last(), records.last().head),
        }
    }
}

/// What becomes of a head that is not retained yet.
#[derive(Clone, Copy, Debug, PartialEq, Eq, Structural)]
pub enum AppendDecision {
    AlreadyPresent,
    Publish,
}

/// Whether a live head may follow the retained records.
pub open spec fn append_decision(
    trust: TrustView,
    records: Seq<RecordView>,
    head: JournalHeadView,
) -> Result<AppendDecision, CheckpointErrorView> {
    match last_of(records, head.service_id) {
        None => Ok(AppendDecision::Publish),
        Some(latest) => if latest.key_id != head.key_id && !crate::peer_trust::authorized_handover(
            trust,
            latest,
            head,
        ) {
            Err(CheckpointErrorView::SequenceConflict)
        } else if head.sequence < latest.sequence {
            Err(CheckpointErrorView::SequenceRollback)
        } else if head.sequence > latest.sequence {
            Ok(AppendDecision::Publish)
        } else if latest == head {
            Ok(AppendDecision::AlreadyPresent)
        } else if crate::peer_trust::same_head_handover(trust, latest, head) {
            Ok(AppendDecision::Publish)
        } else {
            Err(CheckpointErrorView::SequenceConflict)
        },
    }
}

/// Placing a record adds it and keeps every other.
pub proof fn lemma_placed_contents(trust: TrustView, records: Seq<RecordView>, record: RecordView)
    ensures
        placed(trust, records, record).to_multiset() == records.to_multiset().insert(record),
        placed(trust, records, record).len() == records.len() + 1,
    decreases records.len(),
{
    broadcast use vstd::seq_lib::group_to_multiset_ensures;

    if records.len() == 0 {
        assert(seq![record] =~= records.push(record));
    } else if stands_after(trust, records.last().head, record.head) {
        let head = records.drop_last();
        lemma_placed_contents(trust, head, record);
        assert(head.push(records.last()) =~= records);
    }
}

/// Ordering the chains loses no record and invents none.
pub proof fn law_chain_order_is_a_permutation(trust: TrustView, records: Seq<RecordView>)
    ensures
        in_chain_order(trust, records).to_multiset() == records.to_multiset(),
    decreases records.len(),
{
    broadcast use vstd::seq_lib::group_to_multiset_ensures;

    if records.len() > 0 {
        law_chain_order_is_a_permutation(trust, records.drop_last());
        lemma_placed_contents(
            trust,
            in_chain_order(trust, records.drop_last()),
            records.last(),
        );
        assert(records.drop_last().push(records.last()) =~= records);
    }
}

/// `a` belongs no later than `b`: its service stands before, or it is one service and the
/// sequence is no greater.
pub open spec fn no_later(a: JournalHeadView, b: JournalHeadView) -> bool {
    crate::text::text_before(a.service_id, b.service_id) || a.service_id == b.service_id
        && a.sequence <= b.sequence
}

/// Each record belongs no later than every record behind it.
pub open spec fn ascending(records: Seq<RecordView>) -> bool {
    forall|i: int, j: int|
        0 <= i < j < records.len() ==> no_later(
            (#[trigger] records[i]).head,
            (#[trigger] records[j]).head,
        )
}

proof fn lemma_no_later_transitive(a: JournalHeadView, b: JournalHeadView, c: JournalHeadView)
    requires
        no_later(a, b),
        no_later(b, c),
    ensures
        no_later(a, c),
{
    if crate::text::text_before(a.service_id, b.service_id) && crate::text::text_before(
        b.service_id,
        c.service_id,
    ) {
        crate::text::lemma_text_before_transitive(a.service_id, b.service_id, c.service_id);
    }
}

proof fn lemma_order_decides(trust: TrustView, a: JournalHeadView, b: JournalHeadView)
    ensures
        stands_after(trust, a, b) ==> no_later(b, a),
        !stands_after(trust, a, b) ==> no_later(a, b),
{
    crate::text::lemma_text_before_total(a.service_id, b.service_id);
}

pub proof fn lemma_placed_ascends(trust: TrustView, records: Seq<RecordView>, record: RecordView)
    requires
        ascending(records),
    ensures
        ascending(placed(trust, records, record)),
        forall|i: int|
            0 <= i < placed(trust, records, record).len() ==> (#[trigger] placed(
                trust,
                records,
                record,
            )[i]) == record || (exists|j: int|
                0 <= j < records.len() && records[j] == placed(trust, records, record)[i]),
    decreases records.len(),
{
    let out = placed(trust, records, record);
    if records.len() > 0 {
        let last = records.last();
        lemma_order_decides(trust, last.head, record.head);
        if !stands_after(trust, last.head, record.head) {
            assert forall|i: int, j: int| 0 <= i < j < out.len() implies no_later(
                (#[trigger] out[i]).head,
                (#[trigger] out[j]).head,
            ) by {
                if j == records.len() && i < records.len() - 1 {
                    assert(no_later(records[i].head, records[records.len() - 1].head));
                    lemma_no_later_transitive(records[i].head, last.head, record.head);
                }
            }
            assert forall|i: int| 0 <= i < out.len() implies (#[trigger] out[i]) == record || (
            exists|j: int| 0 <= j < records.len() && records[j] == out[i]) by {
                if i < records.len() {
                    assert(records[i] == out[i]);
                }
            }
        } else {
            let head = records.drop_last();
            let inner = placed(trust, head, record);
            assert(ascending(head));
            lemma_placed_ascends(trust, head, record);
            assert forall|i: int| 0 <= i < out.len() implies (#[trigger] out[i]) == record || (
            exists|j: int| 0 <= j < records.len() && records[j] == out[i]) by {
                if i < inner.len() {
                    assert(out[i] == inner[i]);
                    if inner[i] != record {
                        let j = choose|j: int| 0 <= j < head.len() && head[j] == inner[i];
                        assert(records[j] == out[i]);
                    }
                } else {
                    assert(records[records.len() - 1] == out[i]);
                }
            }
            assert forall|i: int, j: int| 0 <= i < j < out.len() implies no_later(
                (#[trigger] out[i]).head,
                (#[trigger] out[j]).head,
            ) by {
                assert(out[i] == inner[i]);
                if j < inner.len() {
                    assert(out[j] == inner[j]);
                } else if inner[i] != record {
                    let k = choose|k: int| 0 <= k < head.len() && head[k] == inner[i];
                    assert(records[k] == inner[i]);
                    assert(no_later(records[k].head, records[records.len() - 1].head));
                }
            }
        }
    }
}

/// In the order of chains each service stands together, with sequences that never decrease.
pub proof fn law_chain_order_ascends(trust: TrustView, records: Seq<RecordView>)
    ensures
        ascending(in_chain_order(trust, records)),
    decreases records.len(),
{
    if records.len() > 0 {
        law_chain_order_ascends(trust, records.drop_last());
        lemma_placed_ascends(
            trust,
            in_chain_order(trust, records.drop_last()),
            records.last(),
        );
    }
}

/// The last head of a service is one of the records, and none of the service follows it.
pub proof fn lemma_last_of(records: Seq<RecordView>, service: Seq<char>) -> (at: int)
    ensures
        last_of(records, service) is None ==> forall|i: int|
            0 <= i < records.len() ==> (#[trigger] records[i]).head.service_id != service,
        last_of(records, service) matches Some(head) ==> 0 <= at < records.len()
            && records[at].head == head && head.service_id == service && forall|i: int|
            at < i < records.len() ==> (#[trigger] records[i]).head.service_id != service,
    decreases records.len(),
{
    if records.len() == 0 {
        0
    } else if records.last().head.service_id == service {
        records.len() - 1
    } else {
        let before = records.drop_last();
        let at = lemma_last_of(before, service);
        assert forall|i: int| 0 <= i < records.len() implies records[i] == (if i < before.len() {
            before[i]
        } else {
            records.last()
        }) by {}
        if last_of(before, service) is None {
            assert forall|i: int| 0 <= i < records.len() implies (
            #[trigger] records[i]).head.service_id != service by {
                if i < before.len() {
                    assert(before[i] == records[i]);
                }
            }
        } else {
            assert(records[at] == before[at]);
            assert forall|i: int| at < i < records.len() implies (
            #[trigger] records[i]).head.service_id != service by {
                if i < before.len() {
                    assert(before[i] == records[i]);
                }
            }
        }
        at
    }
}

/// Records in the order of chains never show a rollback.
pub proof fn law_ordered_chain_never_rolls_back(trust: TrustView, records: Seq<RecordView>)
    requires
        ascending(records),
    ensures
        chain_check(trust, records) != Err::<(), CheckpointErrorView>(
            CheckpointErrorView::SequenceRollback,
        ),
    decreases records.len(),
{
    if records.len() > 0 {
        let before = records.drop_last();
        assert forall|i: int, j: int| 0 <= i < j < before.len() implies no_later(
            (#[trigger] before[i]).head,
            (#[trigger] before[j]).head,
        ) by {
            assert(no_later(records[i].head, records[j].head));
        }
        law_ordered_chain_never_rolls_back(trust, before);
        let head = records.last().head;
        let at = lemma_last_of(before, head.service_id);
        if last_of(before, head.service_id) is Some {
            assert(no_later(records[at].head, records[records.len() - 1].head));
            crate::text::lemma_text_before_total(head.service_id, head.service_id);
        }
    }
}

/// Appending is monotonic: a head that is published has a greater sequence than the service's
/// latest, or steps at the very same head into the key that packaging authorized.
pub proof fn law_append_is_monotonic(
    trust: TrustView,
    records: Seq<RecordView>,
    head: JournalHeadView,
)
    requires
        append_decision(trust, records, head) == Ok::<AppendDecision, CheckpointErrorView>(
            AppendDecision::Publish,
        ),
    ensures
        last_of(records, head.service_id) matches Some(latest) ==> (head.sequence > latest.sequence
            && head.key_id == latest.key_id) || (head.sequence == latest.sequence && head.head_hash
            == latest.head_hash && crate::peer_trust::authorized_handover(trust, latest, head)),
{
}

/// Appending is idempotent: the service's latest head is already present.
pub proof fn law_append_is_idempotent(
    trust: TrustView,
    records: Seq<RecordView>,
    head: JournalHeadView,
)
    requires
        last_of(records, head.service_id) == Some(head),
    ensures
        append_decision(trust, records, head) == Ok::<AppendDecision, CheckpointErrorView>(
            AppendDecision::AlreadyPresent,
        ),
{
}

/// A head below the latest of its service under the same key is a rollback, and a different head
/// at the same sequence is a conflict.
pub proof fn law_append_rejects_rollback_and_fork(
    trust: TrustView,
    records: Seq<RecordView>,
    head: JournalHeadView,
)
    requires
        last_of(records, head.service_id) matches Some(latest) && latest.key_id == head.key_id,
    ensures
        ({
            let latest = last_of(records, head.service_id)->Some_0;
            &&& head.sequence < latest.sequence ==> append_decision(trust, records, head) == Err::<
                AppendDecision,
                CheckpointErrorView,
            >(CheckpointErrorView::SequenceRollback)
            &&& head.sequence == latest.sequence && head != latest
                && !crate::peer_trust::same_head_handover(trust, latest, head) ==> append_decision(
                trust,
                records,
                head,
            ) == Err::<AppendDecision, CheckpointErrorView>(CheckpointErrorView::SequenceConflict)
        }),
{
}

/// A record that may be published is the latest of its service once the chains are ordered
/// again.
pub proof fn law_published_head_becomes_latest(
    trust: TrustView,
    records: Seq<RecordView>,
    record: RecordView,
)
    requires
        ascending(records),
        append_decision(trust, records, record.head) == Ok::<AppendDecision, CheckpointErrorView>(
            AppendDecision::Publish,
        ),
    ensures
        last_of(placed(trust, records, record), record.head.service_id) == Some(record.head),
    decreases records.len(),
{
    let head = record.head;
    let service = head.service_id;
    if records.len() > 0 {
        let last = records.last();
        let before = records.drop_last();
        assert forall|i: int, j: int| 0 <= i < j < before.len() implies no_later(
            (#[trigger] before[i]).head,
            (#[trigger] before[j]).head,
        ) by {
            assert(no_later(records[i].head, records[j].head));
        }
        if !stands_after(trust, last.head, head) {
            assert(records.push(record).last() == record);
        } else {
            assert(last.head.service_id != service) by {
                if last.head.service_id == service {
                    assert(last_of(records, service) == Some(last.head));
                    if last.head.sequence == head.sequence {
                        lemma_direct_handover(trust, last.head, head);
                    }
                }
            }
            law_published_head_becomes_latest(trust, before, record);
            let inner = placed(trust, before, record);
            assert(inner.push(last).drop_last() =~= inner);
            assert(inner.push(last).last() == last);
        }
    } else {
        assert(seq![record].last() == record);
    }
}

/// A handover is used once: in a verified chain no service steps twice into one key.
pub proof fn law_handover_is_exact_once(trust: TrustView, records: Seq<RecordView>, i: int)
    requires
        chain_check(trust, records) is Ok,
        0 <= i < records.len(),
        ({
            let head = records[i].head;
            last_of(records.take(i), head.service_id) matches Some(previous) && previous.key_id
                != head.key_id
        }),
    ensures
        !entered(records.take(i), records[i].head.service_id, records[i].head.key_id),
        ({
            let head = records[i].head;
            let previous = last_of(records.take(i), head.service_id)->Some_0;
            crate::checkpoint::handover_into(
                trust.handovers,
                head.service_id,
                head.key_id,
            ) matches Some(handover) && handover.old_key_id == previous.key_id && handover.sequence
                == previous.sequence && handover.head_hash == previous.head_hash
        }),
    decreases records.len(),
{
    let before = records.drop_last();
    if i < before.len() {
        assert(before[i] == records[i]);
        assert(before.take(i) =~= records.take(i));
        law_handover_is_exact_once(trust, before, i);
    } else {
        assert(records.take(i) =~= before);
    }
}

/// Two heads are one.
pub fn same_head(a: &SignedJournalHead, b: &SignedJournalHead) -> (r: bool)
    ensures
        r == (a@ == b@),
{
    a.service_id.same_as(&b.service_id) && a.sequence.get() == b.sequence.get()
        && a.head_hash.same_as(&b.head_hash) && a.key_id.same_as(&b.key_id)
        && a.signature.same_as(&b.signature)
}

/// Finds the last head of a service among the first `count` records.
fn find_last<'a>(
    records: &'a Vec<CheckpointRecord>,
    count: usize,
    service: &Token,
) -> (r: Option<&'a SignedJournalHead>)
    requires
        count <= records@.len(),
    ensures
        match r {
            Some(head) => last_of(
                crate::checkpoint::views(records@).take(count as int),
                service@,
            ) == Some(head@),
            None => last_of(
                crate::checkpoint::views(records@).take(count as int),
                service@,
            ) is None,
        },
{
    let ghost all = crate::checkpoint::views(records@);
    let mut i: usize = count;
    while i > 0
        invariant
            i <= count <= records@.len(),
            all == crate::checkpoint::views(records@),
            last_of(all.take(count as int), service@) == last_of(all.take(i as int), service@),
        decreases i,
    {
        let record = &records[i - 1];
        proof {
            assert(all.take(i as int).last() == record@);
            assert(all.take(i as int).drop_last() =~= all.take(i - 1));
        }
        if record.peer_head.service_id.same_as(service) {
            return Some(&record.peer_head);
        }
        i = i - 1;
    }
    None
}

/// The last head of a service.
pub fn latest_head<'a>(records: &'a Vec<CheckpointRecord>, service: &Token) -> (r: Option<
    &'a SignedJournalHead,
>)
    ensures
        match r {
            Some(head) => last_of(crate::checkpoint::views(records@), service@) == Some(head@),
            None => last_of(crate::checkpoint::views(records@), service@) is None,
        },
{
    proof {
        let all = crate::checkpoint::views(records@);
        assert(all.take(all.len() as int) =~= all);
    }
    find_last(records, records.len(), service)
}

/// Whether a service stepped into a key within the first `count` records.
fn was_entered(
    records: &Vec<CheckpointRecord>,
    count: usize,
    service: &Token,
    key_id: &Token,
) -> (r: bool)
    requires
        count <= records@.len(),
    ensures
        r == entered(
            crate::checkpoint::views(records@).take(count as int),
            service@,
            key_id@,
        ),
{
    let ghost all = crate::checkpoint::views(records@);
    let mut i: usize = count;
    while i > 0
        invariant
            i <= count <= records@.len(),
            all == crate::checkpoint::views(records@),
            entered(all.take(count as int), service@, key_id@) == entered(
                all.take(i as int),
                service@,
                key_id@,
            ),
        decreases i,
    {
        let head = &records[i - 1].peer_head;
        proof {
            assert(all.take(i as int).last().head == head@);
            assert(all.take(i as int).drop_last() =~= all.take(i - 1));
        }
        if head.service_id.same_as(service) && head.key_id.same_as(key_id) {
            if let Some(previous) = find_last(records, i - 1, service) {
                if !previous.key_id.same_as(key_id) {
                    return true;
                }
            }
        }
        i = i - 1;
    }
    false
}

/// A break in the first records is the break of all of them.
proof fn lemma_chain_error(trust: TrustView, records: Seq<RecordView>, n: int)
    requires
        0 <= n <= records.len(),
        chain_check(trust, records.take(n)) is Err,
    ensures
        chain_check(trust, records) == chain_check(trust, records.take(n)),
    decreases records.len(),
{
    if n < records.len() {
        assert(records.drop_last().take(n) =~= records.take(n));
        lemma_chain_error(trust, records.drop_last(), n);
    } else {
        assert(records.take(n) =~= records);
    }
}

/// Where a record goes when it is placed.
proof fn lemma_placed_at(
    trust: TrustView,
    records: Seq<RecordView>,
    record: RecordView,
    at: int,
)
    requires
        0 <= at <= records.len(),
        forall|i: int|
            at <= i < records.len() ==> stands_after(trust, (#[trigger] records[i]).head, record.head),
        at > 0 ==> !stands_after(trust, records[at - 1].head, record.head),
    ensures
        placed(trust, records, record) == records.insert(at, record),
    decreases records.len(),
{
    if at < records.len() {
        assert(records.last() == records[records.len() - 1]);
        lemma_placed_at(trust, records.drop_last(), record, at);
        assert(records.drop_last().insert(at, record).push(records.last()) =~= records.insert(
            at,
            record,
        ));
    } else if at > 0 {
        assert(records.push(record) =~= records.insert(at, record));
    } else {
        assert(seq![record] =~= records.insert(at, record));
    }
}

impl PeerTrust {
    /// Whether one head stands strictly after another in the order of chains.
    pub fn head_stands_after(&self, a: &SignedJournalHead, b: &SignedJournalHead) -> (r: bool)
        ensures
            r == stands_after(self@, a@, b@),
    {
        if !a.service_id.same_as(&b.service_id) {
            return is_text_before(b.service_id.as_str(), a.service_id.as_str());
        }
        let left: u64 = a.sequence.get();
        let right: u64 = b.sequence.get();
        if left != right {
            return left > right;
        }
        if self.is_handed_over(a, b) {
            return false;
        }
        if self.is_handed_over(b, a) {
            return true;
        }
        is_text_before(b.key_id.as_str(), a.key_id.as_str())
    }

    /// Whether packaging hands one head over to another, directly or through other keys.
    fn is_handed_over(&self, old_head: &SignedJournalHead, new_head: &SignedJournalHead) -> (r:
        bool)
        ensures
            r == handed_over(self@, old_head@, new_head@),
    {
        let sequence: u64 = new_head.sequence.get();
        if !old_head.service_id.same_as(&new_head.service_id) || old_head.sequence.get()
            != sequence || !old_head.head_hash.same_as(&new_head.head_hash) {
            return false;
        }
        let mut key_id = new_head.key_id.clone();
        let mut left: usize = self.handover_count();
        assert(under_key(new_head@, key_id@) == new_head@);
        while left > 0
            invariant
                sequence == new_head@.sequence,
                comes_from(self@, old_head@.key_id, new_head@, self@.handovers.len())
                    == comes_from(
                    self@,
                    old_head@.key_id,
                    under_key(new_head@, key_id@),
                    left as nat,
                ),
                old_head@.service_id == new_head@.service_id,
                old_head@.sequence == new_head@.sequence,
                old_head@.head_hash == new_head@.head_hash,
            decreases left,
        {
            match self.handover_into(&new_head.service_id, &key_id) {
                Some(handover) if handover.sequence.get() == sequence
                    && handover.head_hash.same_as(&new_head.head_hash) => {
                    if handover.old_key_id.same_as(&old_head.key_id) {
                        return true;
                    }
                    assert(under_key(under_key(new_head@, key_id@), handover.old_key_id@)
                        == under_key(new_head@, handover.old_key_id@));
                    key_id = handover.old_key_id.clone();
                },
                _ => {
                    return false;
                },
            }
            left = left - 1;
        }
        false
    }

    /// Puts records in the order of chains.
    fn sort_records(&self, records: &mut Vec<CheckpointRecord>)
        ensures
            crate::checkpoint::views(final(records)@) == in_chain_order(
                self@,
                crate::checkpoint::views(old(records)@),
            ),
    {
        let ghost given = crate::checkpoint::views(records@);
        let count: usize = records.len();
        let mut sorted: usize = 0;
        assert(given.take(0) =~= Seq::<RecordView>::empty());
        assert(crate::checkpoint::views(records@).take(0) =~= Seq::<RecordView>::empty());
        while sorted < count
            invariant
                count == given.len(),
                count == records@.len(),
                sorted <= count,
                crate::checkpoint::views(records@).take(sorted as int) == in_chain_order(
                    self@,
                    given.take(sorted as int),
                ),
                crate::checkpoint::views(records@).skip(sorted as int) == given.skip(
                    sorted as int,
                ),
            decreases count - sorted,
        {
            let ghost before = crate::checkpoint::views(records@);
            let ghost prefix = before.take(sorted as int);
            let ghost record = before[sorted as int];
            proof {
                assert(before.skip(sorted as int)[0] == given.skip(sorted as int)[0]);
                assert(record == given[sorted as int]);
            }
            let mut at: usize = sorted;
            let mut found = false;
            while at > 0 && !found
                invariant
                    at <= sorted < records@.len(),
                    before == crate::checkpoint::views(records@),
                    prefix == before.take(sorted as int),
                    record == before[sorted as int],
                    forall|i: int|
                        at <= i < prefix.len() ==> stands_after(
                            self@,
                            (#[trigger] prefix[i]).head,
                            record.head,
                        ),
                    found ==> at > 0 && !stands_after(self@, prefix[at - 1].head, record.head),
                decreases at + (if found {
                    0int
                } else {
                    1int
                }),
            {
                assert(prefix[at - 1].head == records@[at - 1].peer_head@);
                if self.head_stands_after(&records[at - 1].peer_head, &records[sorted].peer_head) {
                    at = at - 1;
                } else {
                    found = true;
                }
            }
            let moved = records.remove(sorted);
            records.insert(at, moved);
            proof {
                lemma_placed_at(self@, prefix, record, at as int);
                let after = crate::checkpoint::views(records@);
                assert(after.take(sorted + 1) =~= prefix.insert(at as int, record));
                assert(given.take(sorted + 1).drop_last() =~= given.take(sorted as int));
                assert(given.take(sorted + 1).last() == record);
                let rest = after.skip(sorted + 1);
                assert forall|i: int| 0 <= i < rest.len() implies #[trigger] rest[i] == given.skip(
                    sorted + 1,
                )[i] by {
                    assert(before.skip(sorted as int)[i + 1] == given.skip(sorted as int)[i + 1]);
                }
                assert(rest =~= given.skip(sorted + 1));
            }
            sorted = sorted + 1;
        }
        proof {
            assert(given.take(count as int) =~= given);
            let after = crate::checkpoint::views(records@);
            assert(after.take(count as int) =~= after);
        }
    }

    /// Accepts a head that continues the first `count` records.
    fn check_continues(
        &self,
        records: &Vec<CheckpointRecord>,
        count: usize,
        head: &SignedJournalHead,
    ) -> (r: Result<(), CheckpointError>)
        requires
            count <= records@.len(),
        ensures
            crate::checkpoint::checked(r) == continues(
                self@,
                crate::checkpoint::views(records@).take(count as int),
                head@,
            ),
    {
        let previous = match find_last(records, count, &head.service_id) {
            None => {
                return Ok(());
            },
            Some(previous) => previous,
        };
        let sequence: u64 = head.sequence.get();
        let previous_sequence: u64 = previous.sequence.get();
        if sequence < previous_sequence {
            return Err(CheckpointError::SequenceRollback);
        }
        if head.key_id.same_as(&previous.key_id) {
            if sequence == previous_sequence && !same_head(head, previous) {
                return Err(CheckpointError::SequenceConflict);
            }
            return Ok(());
        }
        match self.handover_into(&head.service_id, &head.key_id) {
            None => Err(CheckpointError::SequenceConflict),
            Some(handover) => if was_entered(records, count, &head.service_id, &head.key_id)
                || !handover.old_key_id.same_as(&previous.key_id) || handover.sequence.get()
                != previous_sequence || !handover.head_hash.same_as(&previous.head_hash) || (
            sequence == previous_sequence && !head.head_hash.same_as(&previous.head_hash)) {
                Err(CheckpointError::SequenceConflict)
            } else {
                Ok(())
            },
        }
    }

    /// Puts records in the order of chains and accepts them if each continues the ones before
    /// it.
    pub fn verify_record_chains(&self, records: &mut Vec<CheckpointRecord>) -> (r: Result<
        (),
        CheckpointError,
    >)
        ensures
            crate::checkpoint::views(final(records)@) == in_chain_order(
                self@,
                crate::checkpoint::views(old(records)@),
            ),
            crate::checkpoint::checked(r) == chain_check(
                self@,
                crate::checkpoint::views(final(records)@),
            ),
    {
        self.sort_records(records);
        let ghost all = crate::checkpoint::views(records@);
        let mut i: usize = 0;
        assert(all.take(0) =~= Seq::<RecordView>::empty());
        while i < records.len()
            invariant
                all == crate::checkpoint::views(records@),
                all == in_chain_order(self@, crate::checkpoint::views(old(records)@)),
                i <= records@.len(),
                chain_check(self@, all.take(i as int)) == Ok::<(), CheckpointErrorView>(()),
            decreases records@.len() - i,
        {
            proof {
                assert(all.take(i + 1).drop_last() =~= all.take(i as int));
                assert(all.take(i + 1).last() == records@[i as int]@);
            }
            if let Err(error) = self.check_continues(&*records, i, &records[i].peer_head) {
                proof {
                    lemma_chain_error(self@, all, i + 1);
                }
                return Err(error);
            }
            i = i + 1;
        }
        assert(all.take(i as int) =~= all);
        Ok(())
    }

    /// Decides whether a live head may follow the retained records.
    pub fn decide_append(
        &self,
        records: &Vec<CheckpointRecord>,
        head: &SignedJournalHead,
    ) -> (r: Result<AppendDecision, CheckpointError>)
        ensures
            match r {
                Ok(decision) => append_decision(
                    self@,
                    crate::checkpoint::views(records@),
                    head@,
                ) == Ok::<AppendDecision, CheckpointErrorView>(decision),
                Err(e) => append_decision(self@, crate::checkpoint::views(records@), head@) == Err::<
                    AppendDecision,
                    CheckpointErrorView,
                >(e@),
            },
    {
        let latest = match latest_head(records, &head.service_id) {
            None => {
                return Ok(AppendDecision::Publish);
            },
            Some(latest) => latest,
        };
        if !latest.key_id.same_as(&head.key_id) && !self.valid_handover(latest, head) {
            return Err(CheckpointError::SequenceConflict);
        }
        let sequence: u64 = head.sequence.get();
        let latest_sequence: u64 = latest.sequence.get();
        if sequence < latest_sequence {
            Err(CheckpointError::SequenceRollback)
        } else if sequence > latest_sequence {
            Ok(AppendDecision::Publish)
        } else if same_head(latest, head) {
            Ok(AppendDecision::AlreadyPresent)
        } else if self.valid_equal_sequence_handover(latest, head) {
            Ok(AppendDecision::Publish)
        } else {
            Err(CheckpointError::SequenceConflict)
        }
    }
}

} // verus!
