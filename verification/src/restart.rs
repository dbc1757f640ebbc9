//! Retained chains survive a restart, in whatever order the directory lists their records.

use vstd::prelude::*;

use crate::audit::JournalHeadView;
use crate::chain::{append_decision, AppendDecision};
use crate::checkpoint::{CheckpointErrorView, HandoverView, RecordView, TrustView};

verus! {

/// No key is handed over to itself at one head, directly or through other keys. Where one is,
/// no order puts each old head before its new one.
pub open spec fn no_handover_cycle(trust: TrustView) -> bool {
    forall|head: JournalHeadView|
        !#[trigger] crate::chain::comes_from(trust, head.key_id, head, trust.handovers.len())
}

/// No head is retained twice. Each entry of a directory has its own name, and a head decides the
/// name of its entry.
pub open spec fn distinct_heads(records: Seq<RecordView>) -> bool {
    forall|i: int, j: int|
        0 <= i < j < records.len() ==> (#[trigger] records[i]).head != (#[trigger] records[j]).head
}

proof fn lemma_handover_is_listed(
    handovers: Seq<HandoverView>,
    service: Seq<char>,
    key_id: Seq<char>,
) -> (at: int)
    ensures
        crate::checkpoint::handover_into(handovers, service, key_id) matches Some(h) ==> 0 <= at
            < handovers.len() && handovers[at] == h && h.service == service && h.new_key_id
            == key_id,
    decreases handovers.len(),
{
    if handovers.len() == 0 {
        0
    } else if handovers.last().service == service && handovers.last().new_key_id == key_id {
        handovers.len() - 1
    } else {
        let at = lemma_handover_is_listed(handovers.drop_last(), service, key_id);
        if crate::checkpoint::handover_into(handovers.drop_last(), service, key_id) is Some {
            assert(handovers.drop_last()[at] == handovers[at]);
        }
        at
    }
}

/// Heads with one service, sequence, hash and key come from the same keys.
proof fn lemma_comes_from_same(
    trust: TrustView,
    key_id: Seq<char>,
    a: JournalHeadView,
    b: JournalHeadView,
    steps: nat,
)
    requires
        a.service_id == b.service_id,
        a.sequence == b.sequence,
        a.head_hash == b.head_hash,
        a.key_id == b.key_id,
    ensures
        crate::chain::comes_from(trust, key_id, a, steps) == crate::chain::comes_from(
            trust,
            key_id,
            b,
            steps,
        ),
    decreases steps,
{
    if steps > 0 {
        if let Some(before) = crate::chain::key_before(trust, a) {
            lemma_comes_from_same(
                trust,
                key_id,
                crate::chain::under_key(a, before),
                crate::chain::under_key(b, before),
                (steps - 1) as nat,
            );
        }
    }
}

/// What leads to a key and on to a head leads to the head.
proof fn lemma_comes_from_further(
    trust: TrustView,
    first: Seq<char>,
    second: Seq<char>,
    head: JournalHeadView,
    m: nat,
    n: nat,
)
    requires
        crate::chain::comes_from(trust, first, crate::chain::under_key(head, second), m),
        crate::chain::comes_from(trust, second, head, n),
    ensures
        crate::chain::comes_from(trust, first, head, m + n),
    decreases n,
{
    let before = crate::chain::key_before(trust, head)->Some_0;
    let back = crate::chain::under_key(head, before);
    if before == second {
        lemma_more_steps(trust, first, back, m, (m + n - 1) as nat);
    } else {
        assert(crate::chain::under_key(back, second) == crate::chain::under_key(head, second));
        lemma_comes_from_further(trust, first, second, back, m, (n - 1) as nat);
    }
}

proof fn lemma_more_steps(
    trust: TrustView,
    key_id: Seq<char>,
    head: JournalHeadView,
    few: nat,
    many: nat,
)
    requires
        crate::chain::comes_from(trust, key_id, head, few),
        few <= many,
    ensures
        crate::chain::comes_from(trust, key_id, head, many),
    decreases few,
{
    let before = crate::chain::key_before(trust, head)->Some_0;
    if before != key_id {
        lemma_more_steps(
            trust,
            key_id,
            crate::chain::under_key(head, before),
            (few - 1) as nat,
            (many - 1) as nat,
        );
    }
}

/// The head some handovers back.
spec fn back(trust: TrustView, head: JournalHeadView, steps: nat) -> JournalHeadView
    decreases steps,
{
    if steps == 0 {
        head
    } else {
        match crate::chain::key_before(trust, head) {
            Some(before) => back(
                trust,
                crate::chain::under_key(head, before),
                (steps - 1) as nat,
            ),
            None => head,
        }
    }
}

/// At least so many handovers stand behind a head.
spec fn reaches_back(trust: TrustView, head: JournalHeadView, steps: nat) -> bool
    decreases steps,
{
    steps > 0 ==> (match crate::chain::key_before(trust, head) {
        Some(before) => reaches_back(
            trust,
            crate::chain::under_key(head, before),
            (steps - 1) as nat,
        ),
        None => false,
    })
}

proof fn lemma_back_parts(trust: TrustView, head: JournalHeadView, i: nat, n: nat)
    requires
        reaches_back(trust, head, n),
        i < n,
    ensures
        ({
            let at = back(trust, head, i);
            &&& at.service_id == head.service_id
            &&& at.sequence == head.sequence
            &&& at.head_hash == head.head_hash
            &&& at == crate::chain::under_key(head, at.key_id)
            &&& crate::chain::key_before(trust, at) is Some
            &&& reaches_back(trust, at, (n - i) as nat)
        }),
    decreases i,
{
    if i > 0 {
        let before = crate::chain::key_before(trust, head)->Some_0;
        lemma_back_parts(
            trust,
            crate::chain::under_key(head, before),
            (i - 1) as nat,
            (n - 1) as nat,
        );
    }
}

/// A head comes from the keys behind it.
proof fn lemma_back_is_behind(trust: TrustView, head: JournalHeadView, i: nat, n: nat)
    requires
        reaches_back(trust, head, n),
        0 < i <= n,
    ensures
        crate::chain::comes_from(trust, back(trust, head, i).key_id, head, i),
    decreases i,
{
    let before = crate::chain::key_before(trust, head)->Some_0;
    let next = crate::chain::under_key(head, before);
    if i > 1 {
        lemma_back_is_behind(trust, next, (i - 1) as nat, (n - 1) as nat);
    } else {
        assert(back(trust, next, 0) == next);
    }
}

proof fn lemma_back_adds(trust: TrustView, head: JournalHeadView, i: nat, j: nat, n: nat)
    requires
        reaches_back(trust, head, n),
        i + j <= n,
    ensures
        back(trust, back(trust, head, i), j) == back(trust, head, i + j),
    decreases i,
{
    if i > 0 {
        let before = crate::chain::key_before(trust, head)->Some_0;
        lemma_back_adds(
            trust,
            crate::chain::under_key(head, before),
            (i - 1) as nat,
            j,
            (n - 1) as nat,
        );
    }
}

/// Without cycles no more handovers stand behind a head than there are: each leads into a key of
/// its own.
proof fn lemma_handovers_end(trust: TrustView, head: JournalHeadView)
    requires
        no_handover_cycle(trust),
    ensures
        !reaches_back(trust, head, trust.handovers.len() + 1),
{
    let n = trust.handovers.len();
    if reaches_back(trust, head, n + 1) {
        let listed = Seq::new(
            n + 1,
            |i: int| listed_at(trust, back(trust, head, i as nat)),
        );
        assert forall|i: int| 0 <= i < listed.len() implies 0 <= #[trigger] listed[i] < n by {
            lemma_back_parts(trust, head, i as nat, n + 1);
            let at = back(trust, head, i as nat);
            let w = lemma_handover_is_listed(trust.handovers, at.service_id, at.key_id);
            assert(leads_into(trust, at, w));
        }
        assert forall|i: int, j: int| 0 <= i < j < listed.len() implies listed[i] != listed[j] by {
            if listed[i] == listed[j] {
                lemma_back_parts(trust, head, i as nat, n + 1);
                lemma_back_parts(trust, head, j as nat, n + 1);
                let a = back(trust, head, i as nat);
                let b = back(trust, head, j as nat);
                let v = lemma_handover_is_listed(trust.handovers, a.service_id, a.key_id);
                let w = lemma_handover_is_listed(trust.handovers, b.service_id, b.key_id);
                assert(leads_into(trust, a, v));
                assert(leads_into(trust, b, w));
                assert(a.key_id == b.key_id);
                let steps = (j - i) as nat;
                lemma_back_adds(trust, head, i as nat, steps, n + 1);
                lemma_back_is_behind(trust, a, steps, (n + 1 - i) as nat);
                lemma_more_steps(trust, a.key_id, a, steps, n);
            }
        }
        assert(listed.no_duplicates());
        listed.unique_seq_to_set();
        let range = vstd::set_lib::set_int_range(0, n as int);
        vstd::set_lib::lemma_int_range(0, n as int);
        assert(listed.to_set().subset_of(range));
        vstd::set_lib::lemma_len_subset(listed.to_set(), range);
    }
}

/// A listed handover leads into a head's key.
spec fn leads_into(trust: TrustView, head: JournalHeadView, i: int) -> bool {
    0 <= i < trust.handovers.len() && trust.handovers[i].service == head.service_id
        && trust.handovers[i].new_key_id == head.key_id
}

/// Where a handover into a head's key is listed.
spec fn listed_at(trust: TrustView, head: JournalHeadView) -> int {
    choose|i: int| #[trigger] leads_into(trust, head, i)
}

/// Without cycles, whatever leads to a head does so in as many steps as there are handovers.
proof fn lemma_enough_steps(
    trust: TrustView,
    key_id: Seq<char>,
    head: JournalHeadView,
    steps: nat,
)
    requires
        no_handover_cycle(trust),
        crate::chain::comes_from(trust, key_id, head, steps),
    ensures
        crate::chain::comes_from(trust, key_id, head, trust.handovers.len()),
{
    lemma_handovers_end(trust, head);
    lemma_steps_end(trust, key_id, head, steps, trust.handovers.len());
}

proof fn lemma_steps_end(
    trust: TrustView,
    key_id: Seq<char>,
    head: JournalHeadView,
    steps: nat,
    n: nat,
)
    requires
        !reaches_back(trust, head, n + 1),
        crate::chain::comes_from(trust, key_id, head, steps),
    ensures
        crate::chain::comes_from(trust, key_id, head, n),
    decreases n,
{
    let before = crate::chain::key_before(trust, head)->Some_0;
    let next = crate::chain::under_key(head, before);
    assert(reaches_back(trust, next, 0));
    if before != key_id {
        lemma_steps_end(trust, key_id, next, (steps - 1) as nat, (n - 1) as nat);
    }
}

/// In a verified chain each record continues the ones before it.
proof fn lemma_continues_at(trust: TrustView, records: Seq<RecordView>, i: int)
    requires
        crate::chain::chain_check(trust, records) is Ok,
        0 <= i < records.len(),
    ensures
        crate::chain::continues(trust, records.take(i), records[i].head) is Ok,
    decreases records.len(),
{
    let before = records.drop_last();
    if i < before.len() {
        lemma_continues_at(trust, before, i);
        assert(before.take(i) =~= records.take(i));
        assert(before[i] == records[i]);
    } else {
        assert(records.take(i) =~= before);
    }
}

/// In a verified chain, heads of a service at one sequence are one, or handovers at that very
/// head lead from the earlier one to the later one.
proof fn lemma_same_sequence(trust: TrustView, records: Seq<RecordView>, i: int, j: int) -> (steps:
    nat)
    requires
        crate::chain::ascending(records),
        crate::chain::chain_check(trust, records) is Ok,
        0 <= i < j < records.len(),
        records[i].head.service_id == records[j].head.service_id,
        records[i].head.sequence == records[j].head.sequence,
    ensures
        records[i].head == records[j].head || (records[i].head.head_hash
            == records[j].head.head_hash && crate::chain::comes_from(
            trust,
            records[i].head.key_id,
            records[j].head,
            steps,
        )),
    decreases j,
{
    let service = records[i].head.service_id;
    let before = records.take(j);
    lemma_continues_at(trust, records, j);
    let at = crate::chain::lemma_last_of(before, service);
    assert(before[i] == records[i]);
    assert(crate::chain::last_of(before, service) is Some);
    assert(at >= i);
    assert(before[at] == records[at]);
    crate::text::lemma_text_before_total(service, service);
    assert(crate::chain::no_later(records[at].head, records[j].head));
    let first = records[i].head;
    let previous = records[at].head;
    let head = records[j].head;
    let earlier: nat = if at > i {
        assert(crate::chain::no_later(records[i].head, records[at].head));
        lemma_same_sequence(trust, records, i, at)
    } else {
        0
    };
    if previous.key_id == head.key_id {
        earlier
    } else if first == previous {
        assert(crate::chain::key_before(trust, head) == Some(previous.key_id));
        1
    } else {
        assert(crate::chain::key_before(trust, head) == Some(previous.key_id));
        lemma_comes_from_same(
            trust,
            first.key_id,
            previous,
            crate::chain::under_key(head, previous.key_id),
            earlier,
        );
        earlier + 1
    }
}

/// In a verified chain with distinct heads, each record stands after every one before it, and
/// none of those stands after it.
proof fn lemma_later_stands_after(trust: TrustView, records: Seq<RecordView>, i: int, j: int)
    requires
        no_handover_cycle(trust),
        crate::chain::ascending(records),
        crate::chain::chain_check(trust, records) is Ok,
        distinct_heads(records),
        0 <= i < j < records.len(),
    ensures
        crate::chain::stands_after(trust, records[j].head, records[i].head),
        !crate::chain::stands_after(trust, records[i].head, records[j].head),
{
    let a = records[i].head;
    let b = records[j].head;
    let n = trust.handovers.len();
    assert(crate::chain::no_later(a, b));
    crate::text::lemma_text_before_total(a.service_id, b.service_id);
    if a.service_id == b.service_id && a.sequence == b.sequence {
        let steps = lemma_same_sequence(trust, records, i, j);
        assert(a != b);
        lemma_enough_steps(trust, a.key_id, b, steps);
        if crate::chain::handed_over(trust, b, a) {
            lemma_comes_from_same(trust, b.key_id, a, crate::chain::under_key(b, a.key_id), n);
            lemma_comes_from_further(trust, b.key_id, a.key_id, b, n, n);
            lemma_enough_steps(trust, b.key_id, b, n + n);
        }
    }
}

/// A record that stands after all others goes to the end, wherever it is listed.
proof fn lemma_last_goes_to_the_end(trust: TrustView, listed: Seq<RecordView>, k: int)
    requires
        0 <= k < listed.len(),
        forall|m: int|
            0 <= m < listed.len() && m != k ==> crate::chain::stands_after(
                trust,
                listed[k].head,
                (#[trigger] listed[m]).head,
            ) && !crate::chain::stands_after(trust, listed[m].head, listed[k].head),
    ensures
        crate::chain::in_chain_order(trust, listed) == crate::chain::in_chain_order(
            trust,
            listed.remove(k),
        ).push(listed[k]),
    decreases listed.len(),
{
    broadcast use vstd::seq_lib::group_to_multiset_ensures;

    let before = listed.drop_last();
    let record = listed[k];
    if k == listed.len() - 1 {
        assert(listed.remove(k) =~= before);
        let ordered = crate::chain::in_chain_order(trust, before);
        crate::chain::law_chain_order_is_a_permutation(trust, before);
        if ordered.len() > 0 {
            let last = ordered.last();
            assert(ordered.contains(last));
            assert(ordered.to_multiset().count(last) > 0);
            assert(before.contains(last));
            let m = choose|m: int| 0 <= m < before.len() && before[m] == last;
            assert(listed[m] == last);
        } else {
            assert(ordered.push(record) =~= seq![record]);
        }
    } else {
        assert(before[k] == record);
        assert forall|m: int| 0 <= m < before.len() && m != k implies crate::chain::stands_after(
            trust,
            before[k].head,
            (#[trigger] before[m]).head,
        ) && !crate::chain::stands_after(trust, before[m].head, before[k].head) by {
            assert(before[m] == listed[m]);
        }
        lemma_last_goes_to_the_end(trust, before, k);
        let rest = crate::chain::in_chain_order(trust, before.remove(k));
        let x = listed.last();
        assert(x == listed[listed.len() - 1]);
        assert(rest.push(record).drop_last() =~= rest);
        assert(rest.push(record).last() == record);
        assert(listed.remove(k).drop_last() =~= before.remove(k));
        assert(listed.remove(k).last() == x);
    }
}

/// Ordering records keeps their heads distinct.
pub proof fn lemma_order_keeps_heads_distinct(trust: TrustView, listed: Seq<RecordView>)
    requires
        distinct_heads(listed),
    ensures
        distinct_heads(crate::chain::in_chain_order(trust, listed)),
    decreases listed.len(),
{
    broadcast use vstd::seq_lib::group_to_multiset_ensures;

    if listed.len() > 0 {
        let before = listed.drop_last();
        let record = listed.last();
        assert forall|i: int, j: int| 0 <= i < j < before.len() implies (
        #[trigger] before[i]).head != (#[trigger] before[j]).head by {
            assert(listed[i].head != listed[j].head);
        }
        lemma_order_keeps_heads_distinct(trust, before);
        let ordered = crate::chain::in_chain_order(trust, before);
        crate::chain::law_chain_order_is_a_permutation(trust, before);
        crate::chain::law_chain_order_ascends(trust, before);
        assert forall|i: int| 0 <= i < ordered.len() implies (#[trigger] ordered[i]).head
            != record.head by {
            let x = ordered[i];
            assert(ordered.contains(x));
            assert(ordered.to_multiset().count(x) > 0);
            assert(before.contains(x));
            let m = choose|m: int| 0 <= m < before.len() && before[m] == x;
            assert(listed[m].head != listed[listed.len() - 1].head);
        }
        lemma_placed_keeps_heads_distinct(trust, ordered, record);
    }
}

/// The chains survive a restart: however a directory lists the records of verified chains,
/// ordering them gives back the very same chains.
pub proof fn law_chains_survive_a_restart(
    trust: TrustView,
    records: Seq<RecordView>,
    listed: Seq<RecordView>,
)
    requires
        no_handover_cycle(trust),
        crate::chain::ascending(records),
        crate::chain::chain_check(trust, records) is Ok,
        distinct_heads(records),
        listed.to_multiset() == records.to_multiset(),
    ensures
        crate::chain::in_chain_order(trust, listed) == records,
    decreases records.len(),
{
    broadcast use vstd::seq_lib::group_to_multiset_ensures;

    assert(listed.len() == listed.to_multiset().len());
    assert(records.len() == records.to_multiset().len());
    if records.len() == 0 {
        assert(listed =~= records);
    } else {
        let n = records.len() - 1;
        let last = records[n];
        let before = records.drop_last();
        assert(records.contains(last));
        assert(records.to_multiset().count(last) > 0);
        assert(listed.contains(last));
        let k = choose|k: int| 0 <= k < listed.len() && listed[k] == last;
        let rest = listed.remove(k);
        assert(before.push(last) =~= records);
        assert(rest.insert(k, last) =~= listed);
        assert(rest.to_multiset() =~= before.to_multiset()) by {
            assert(listed.to_multiset() =~= rest.to_multiset().insert(last));
            assert(records.to_multiset() =~= before.to_multiset().insert(last));
            assert(rest.to_multiset().insert(last).remove(last) =~= rest.to_multiset());
            assert(before.to_multiset().insert(last).remove(last) =~= before.to_multiset());
        }
        assert forall|m: int| 0 <= m < listed.len() && m != k implies crate::chain::stands_after(
            trust,
            last.head,
            (#[trigger] listed[m]).head,
        ) && !crate::chain::stands_after(trust, listed[m].head, last.head) by {
            let x = listed[m];
            if m < k {
                assert(rest[m] == x);
            } else {
                assert(rest[m - 1] == x);
            }
            assert(rest.contains(x));
            assert(rest.to_multiset().count(x) > 0);
            assert(before.contains(x));
            let i = choose|i: int| 0 <= i < before.len() && before[i] == x;
            assert(records[i] == x);
            lemma_later_stands_after(trust, records, i, n);
        }
        lemma_last_goes_to_the_end(trust, listed, k);
        assert forall|i: int, j: int| 0 <= i < j < before.len() implies crate::chain::no_later(
            (#[trigger] before[i]).head,
            (#[trigger] before[j]).head,
        ) by {
            assert(crate::chain::no_later(records[i].head, records[j].head));
        }
        assert forall|i: int, j: int| 0 <= i < j < before.len() implies (
        #[trigger] before[i]).head != (#[trigger] before[j]).head by {
            assert(records[i].head != records[j].head);
        }
        law_chains_survive_a_restart(trust, before, rest);
    }
}

/// What another service's records say is not changed by a record.
pub proof fn lemma_placed_elsewhere(
    trust: TrustView,
    records: Seq<RecordView>,
    record: RecordView,
    service: Seq<char>,
    key_id: Seq<char>,
)
    requires
        record.head.service_id != service,
    ensures
        crate::chain::last_of(crate::chain::placed(trust, records, record), service)
            == crate::chain::last_of(records, service),
        crate::chain::entered(crate::chain::placed(trust, records, record), service, key_id)
            == crate::chain::entered(records, service, key_id),
    decreases records.len(),
{
    if records.len() == 0 {
        assert(seq![record].drop_last() =~= records);
    } else if !crate::chain::stands_after(trust, records.last().head, record.head) {
        assert(records.push(record).drop_last() =~= records);
    } else {
        let before = records.drop_last();
        lemma_placed_elsewhere(trust, before, record, service, key_id);
        let inner = crate::chain::placed(trust, before, record);
        assert(inner.push(records.last()).drop_last() =~= inner);
        assert(inner.push(records.last()).last() == records.last());
    }
}

/// Where a service stepped into a key, a record of that key follows one of another key.
proof fn lemma_entered_at(records: Seq<RecordView>, service: Seq<char>, key_id: Seq<char>) -> (i:
    int)
    requires
        crate::chain::entered(records, service, key_id),
    ensures
        0 <= i < records.len(),
        records[i].head.service_id == service,
        records[i].head.key_id == key_id,
        crate::chain::last_of(records.take(i), service) matches Some(previous) && previous.key_id
            != key_id,
    decreases records.len(),
{
    let before = records.drop_last();
    if crate::chain::entered(before, service, key_id) {
        let i = lemma_entered_at(before, service, key_id);
        assert(before.take(i) =~= records.take(i));
        assert(before[i] == records[i]);
        i
    } else {
        assert(records.take(records.len() - 1) =~= before);
        records.len() - 1
    }
}

/// A verified chain whose last head packaging hands over to a key holds no record of that key at
/// the sequence of the handover.
pub proof fn lemma_handed_over_once(
    trust: TrustView,
    records: Seq<RecordView>,
    head: JournalHeadView,
    i: int,
)
    requires
        no_handover_cycle(trust),
        crate::chain::ascending(records),
        crate::chain::chain_check(trust, records) is Ok,
        crate::chain::last_of(records, head.service_id) matches Some(latest)
            && crate::peer_trust::authorized_handover(trust, latest, head) && latest.key_id
            != head.key_id,
        0 <= i < records.len(),
        records[i].head.service_id == head.service_id,
        records[i].head.key_id == head.key_id,
    ensures
        records[i].head.sequence != head.sequence,
{
    let service = head.service_id;
    let at = crate::chain::lemma_last_of(records, service);
    let latest = records[at].head;
    if records[i].head.sequence == head.sequence {
        assert(i < at);
        let steps = lemma_same_sequence(trust, records, i, at);
        lemma_no_way_back(trust, latest, head.key_id, steps);
    }
}

/// Without cycles, no handovers lead from a key to a head that is handed over to that key.
proof fn lemma_no_way_back(
    trust: TrustView,
    latest: JournalHeadView,
    key_id: Seq<char>,
    steps: nat,
)
    requires
        no_handover_cycle(trust),
        crate::chain::comes_from(trust, key_id, latest, steps),
    ensures
        crate::chain::key_before(trust, crate::chain::under_key(latest, key_id)) != Some(
            latest.key_id,
        ),
{
    let next = crate::chain::under_key(latest, key_id);
    if crate::chain::key_before(trust, next) == Some(latest.key_id) {
        assert(crate::chain::under_key(next, latest.key_id) == latest);
        assert(crate::chain::comes_from(trust, key_id, next, steps + 1));
        lemma_enough_steps(trust, key_id, next, steps + 1);
    }
}

/// A head that may be published continues the verified chains.
proof fn lemma_published_continues(
    trust: TrustView,
    records: Seq<RecordView>,
    head: JournalHeadView,
)
    requires
        no_handover_cycle(trust),
        crate::chain::ascending(records),
        crate::chain::chain_check(trust, records) is Ok,
        append_decision(trust, records, head) == Ok::<AppendDecision, CheckpointErrorView>(
            AppendDecision::Publish,
        ),
    ensures
        crate::chain::continues(trust, records, head) is Ok,
        forall|i: int| 0 <= i < records.len() ==> (#[trigger] records[i]).head != head,
{
    let service = head.service_id;
    let at = crate::chain::lemma_last_of(records, service);
    crate::text::lemma_text_before_total(service, service);
    if let Some(latest) = crate::chain::last_of(records, service) {
        if latest.key_id == head.key_id && latest.sequence == head.sequence {
            if crate::peer_trust::same_head_handover(trust, latest, head) {
                crate::chain::lemma_direct_handover(trust, latest, head);
            }
        }
        if latest.key_id != head.key_id && crate::chain::entered(records, service, head.key_id) {
            let i = lemma_entered_at(records, service, head.key_id);
            lemma_continues_at(trust, records, i);
            let before = records.take(i);
            let p = crate::chain::lemma_last_of(before, service);
            assert(before[p] == records[p]);
            assert(crate::chain::no_later(records[p].head, records[i].head));
            if i < at {
                assert(crate::chain::no_later(records[i].head, records[at].head));
            }
            lemma_handed_over_once(trust, records, head, i);
        }
        assert forall|i: int| 0 <= i < records.len() implies (#[trigger] records[i]).head != head by {
            if records[i].head == head {
                if i < at {
                    assert(crate::chain::no_later(records[i].head, records[at].head));
                }
                if latest.key_id != head.key_id {
                    lemma_handed_over_once(trust, records, head, i);
                }
            }
        }
    }
}

/// A published record keeps the chains unbroken.
proof fn lemma_published_keeps_chains(
    trust: TrustView,
    records: Seq<RecordView>,
    record: RecordView,
)
    requires
        no_handover_cycle(trust),
        crate::chain::ascending(records),
        crate::chain::chain_check(trust, records) is Ok,
        append_decision(trust, records, record.head) == Ok::<AppendDecision, CheckpointErrorView>(
            AppendDecision::Publish,
        ),
    ensures
        crate::chain::chain_check(trust, crate::chain::placed(trust, records, record)) is Ok,
    decreases records.len(),
{
    let head = record.head;
    lemma_published_continues(trust, records, head);
    if records.len() == 0 {
        assert(seq![record].drop_last() =~= records);
        assert(seq![record].last() == record);
    } else if !crate::chain::stands_after(trust, records.last().head, head) {
        assert(records.push(record).drop_last() =~= records);
        assert(records.push(record).last() == record);
    } else {
        let last = records.last();
        let before = records.drop_last();
        if last.head.service_id == head.service_id {
            assert(crate::chain::last_of(records, head.service_id) == Some(last.head));
        }
        assert forall|i: int, j: int| 0 <= i < j < before.len() implies crate::chain::no_later(
            (#[trigger] before[i]).head,
            (#[trigger] before[j]).head,
        ) by {
            assert(crate::chain::no_later(records[i].head, records[j].head));
        }
        lemma_published_keeps_chains(trust, before, record);
        lemma_placed_elsewhere(trust, before, record, last.head.service_id, last.head.key_id);
        let inner = crate::chain::placed(trust, before, record);
        assert(inner.push(last).drop_last() =~= inner);
        assert(inner.push(last).last() == last);
    }
}

/// A published head survives a restart: however the directory lists its record among the others,
/// the chains are unbroken and hold the record in its place, the head is the latest of its
/// service, and appending it again finds it present.
pub proof fn law_published_head_survives_a_restart(
    trust: TrustView,
    records: Seq<RecordView>,
    record: RecordView,
    listed: Seq<RecordView>,
)
    requires
        no_handover_cycle(trust),
        crate::chain::ascending(records),
        crate::chain::chain_check(trust, records) is Ok,
        distinct_heads(records),
        append_decision(trust, records, record.head) == Ok::<AppendDecision, CheckpointErrorView>(
            AppendDecision::Publish,
        ),
        listed.to_multiset() == records.to_multiset().insert(record),
    ensures
        ({
            let reread = crate::chain::in_chain_order(trust, listed);
            &&& reread == crate::chain::placed(trust, records, record)
            &&& crate::chain::chain_check(trust, reread) is Ok
            &&& crate::chain::last_of(reread, record.head.service_id) == Some(record.head)
            &&& append_decision(trust, reread, record.head) == Ok::<
                AppendDecision,
                CheckpointErrorView,
            >(AppendDecision::AlreadyPresent)
        }),
{
    let grown = crate::chain::placed(trust, records, record);
    crate::chain::lemma_placed_ascends(trust, records, record);
    crate::chain::lemma_placed_contents(trust, records, record);
    lemma_published_keeps_chains(trust, records, record);
    lemma_published_continues(trust, records, record.head);
    lemma_placed_keeps_heads_distinct(trust, records, record);
    law_chains_survive_a_restart(trust, grown, listed);
    crate::chain::law_published_head_becomes_latest(trust, records, record);
    crate::chain::law_append_is_idempotent(trust, grown, record.head);
}

pub proof fn lemma_placed_keeps_heads_distinct(
    trust: TrustView,
    records: Seq<RecordView>,
    record: RecordView,
)
    requires
        distinct_heads(records),
        forall|i: int| 0 <= i < records.len() ==> (#[trigger] records[i]).head != record.head,
        crate::chain::ascending(records),
    ensures
        distinct_heads(crate::chain::placed(trust, records, record)),
    decreases records.len(),
{
    let out = crate::chain::placed(trust, records, record);
    if records.len() > 0 && crate::chain::stands_after(
        trust,
        records.last().head,
        record.head,
    ) {
        let last = records.last();
        let before = records.drop_last();
        assert forall|i: int, j: int| 0 <= i < j < before.len() implies crate::chain::no_later(
            (#[trigger] before[i]).head,
            (#[trigger] before[j]).head,
        ) by {
            assert(crate::chain::no_later(records[i].head, records[j].head));
        }
        assert forall|i: int, j: int| 0 <= i < j < before.len() implies (
        #[trigger] before[i]).head != (#[trigger] before[j]).head by {
            assert(records[i].head != records[j].head);
        }
        assert forall|i: int| 0 <= i < before.len() implies (#[trigger] before[i]).head
            != record.head by {
            assert(records[i].head != record.head);
        }
        lemma_placed_keeps_heads_distinct(trust, before, record);
        crate::chain::lemma_placed_ascends(trust, before, record);
        let inner = crate::chain::placed(trust, before, record);
        assert forall|i: int, j: int| 0 <= i < j < out.len() implies (#[trigger] out[i]).head != (
        #[trigger] out[j]).head by {
            assert(out[i] == inner[i]);
            if j < inner.len() {
                assert(out[j] == inner[j]);
            } else {
                assert(out[j] == last);
                if inner[i] != record {
                    let m = choose|m: int| 0 <= m < before.len() && before[m] == inner[i];
                    assert(records[m] == inner[i]);
                    assert(records[m].head != records[records.len() - 1].head);
                } else {
                    assert(records[records.len() - 1].head != record.head);
                }
            }
        }
    }
}

} // verus!
