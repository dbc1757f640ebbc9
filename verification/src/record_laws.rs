//! What the records of a checkpoint directory are, and which of them are accepted.

use vstd::prelude::*;

use crate::audit::JournalHeadView;
use crate::chain::{handed_over, key_before, stands_after, under_key};
use crate::checkpoint::{
    record_stamp_of, record_wire, root_check, root_stamp_of, AppendOutcome, CheckpointErrorView,
    RecordStamp, RecordView, TrustView,
};
use crate::envelope_laws::{field_count, says};
use crate::files::FileFacts;
use crate::json::JsonView;
use crate::peer_trust::retained_check;
use crate::store::{
    entry_check, entry_name, exact_check, next, record_of, with_stamp, ActionView, GoalView,
    PhaseView, ReplyView, StoreView, TaskView,
};

verus! {

/// A record is written with its schema, its recipient and its head, each under its name, and
/// nothing else; so is the head with its five fields.
pub proof fn law_records_are_written_field_by_field(record: RecordView)
    ensures
        ({
            let tree = record_wire(record);
            let head = crate::audit::head_wire(record.head);
            &&& field_count(tree) == 3
            &&& says(tree, "schema"@, JsonView::Text(record.schema))
            &&& says(tree, "recipient_service_id"@, JsonView::Text(record.recipient))
            &&& says(tree, "peer_head"@, head)
            &&& field_count(head) == 5
            &&& says(head, "service_id"@, JsonView::Text(record.head.service_id))
            &&& says(
                head,
                "sequence"@,
                JsonView::Text(crate::decimal::decimal_chars(record.head.sequence as nat)),
            )
            &&& says(head, "head_hash"@, JsonView::Text(record.head.head_hash))
            &&& says(head, "key_id"@, JsonView::Text(record.head.key_id))
            &&& says(
                head,
                "signature"@,
                JsonView::Text(crate::base64url::base64url_text(record.head.signature)),
            )
        }),
{
    let tree = record_wire(record)->Object_0;
    let head = crate::audit::head_wire(record.head);
    let fields = head->Object_0;
    assert(tree[0] == ("schema"@, JsonView::Text(record.schema)));
    assert(tree[1] == ("recipient_service_id"@, JsonView::Text(record.recipient)));
    assert(tree[2] == ("peer_head"@, head));
    assert(fields[0] == ("service_id"@, JsonView::Text(record.head.service_id)));
    assert(fields[1] == (
        "sequence"@,
        JsonView::Text(crate::decimal::decimal_chars(record.head.sequence as nat)),
    ));
    assert(fields[2] == ("head_hash"@, JsonView::Text(record.head.head_hash)));
    assert(fields[3] == ("key_id"@, JsonView::Text(record.head.key_id)));
    assert(fields[4] == (
        "signature"@,
        JsonView::Text(crate::base64url::base64url_text(record.head.signature)),
    ));
}

/// The record that retains a head has the one schema, names the recipient, and holds the head.
pub proof fn law_retaining_record_is_the_stores_own(store: StoreView, head: JournalHeadView)
    ensures
        record_of(store, head).schema == "bloom.audit-checkpoint/1"@,
        record_of(store, head).recipient == store.recipient,
        record_of(store, head).head == head,
{
}

/// An entry is a record of the store exactly if it parses, holds the one form of its record, is
/// of the one schema and of this recipient, has a head that a pinned key of its service signed,
/// and stands under the name of that head.
pub proof fn law_entry_is_accepted_exactly(
    store: StoreView,
    name: Seq<u8>,
    bytes: Seq<u8>,
    record: RecordView,
)
    ensures
        ({
            let verdict = entry_check(store, name, bytes, Ok(record));
            let written = crate::codec::canonical(record_wire(record));
            let canonical = written == Ok::<Seq<u8>, Seq<char>>(bytes);
            let ours = record.schema == "bloom.audit-checkpoint/1"@ && record.recipient
                == store.recipient;
            let signed = retained_check(store.trust, record.head) is Ok;
            let named = name == vstd::utf8::encode_utf8(
                crate::checkpoint::filename_of(record.head),
            );
            &&& verdict is Ok <==> canonical && ours && signed && named
            &&& written is Ok && !canonical ==> verdict == Err::<(), CheckpointErrorView>(
                CheckpointErrorView::Malformed("checkpoint entry is not canonical JCS"@),
            )
            &&& canonical && !ours ==> verdict == Err::<(), CheckpointErrorView>(
                CheckpointErrorView::Malformed("checkpoint schema or recipient mismatch"@),
            )
            &&& canonical && ours && !signed ==> verdict == retained_check(
                store.trust,
                record.head,
            )
            &&& canonical && ours && signed && !named ==> verdict == Err::<
                (),
                CheckpointErrorView,
            >(
                CheckpointErrorView::Malformed(
                    "checkpoint filename does not bind its peer and sequence"@,
                ),
            )
            &&& forall|text: Seq<char>|
                #[trigger] entry_check(store, name, bytes, Err(text)) == Err::<
                    (),
                    CheckpointErrorView,
                >(CheckpointErrorView::Malformed(text))
        }),
{
}

/// What lies under a head's name is its record exactly if it holds the one form of the record
/// that retains the head, parses to that record, and its head is signed. Anything else of another
/// form is a conflict.
pub proof fn law_exact_record_is_accepted_exactly(
    store: StoreView,
    head: JournalHeadView,
    bytes: Seq<u8>,
    parsed: Result<RecordView, Seq<char>>,
)
    ensures
        ({
            let verdict = exact_check(store, head, bytes, parsed);
            let written = crate::codec::canonical(record_wire(record_of(store, head)));
            &&& verdict is Ok <==> written == Ok::<Seq<u8>, Seq<char>>(bytes) && parsed == Ok::<
                RecordView,
                Seq<char>,
            >(record_of(store, head)) && retained_check(store.trust, head) is Ok
            &&& (written matches Ok(expected) && expected != bytes) ==> verdict == Err::<
                (),
                CheckpointErrorView,
            >(CheckpointErrorView::SequenceConflict)
        }),
{
}

proof fn lemma_digits_bound(n: nat, width: nat)
    requires
        width >= 1,
        n < crate::decimal::ten_to(width),
    ensures
        crate::decimal::decimal_chars(n).len() <= width,
    decreases width,
{
    if n >= 10 {
        if width == 1 {
            reveal_with_fuel(crate::decimal::ten_to, 2);
        }
        lemma_digits_bound(n / 10, (width - 1) as nat);
    }
}

/// A padded number has exactly the width, and stands for the number.
pub proof fn law_padded_numbers_have_one_width(n: u64)
    ensures
        crate::decimal::padded_decimal(n as nat, 20).len() == 20,
        crate::decimal::decimal_value(crate::decimal::padded_decimal(n as nat, 20)) == n,
{
    reveal_with_fuel(crate::decimal::ten_to, 21);
    assert(crate::decimal::ten_to(20) == 100_000_000_000_000_000_000);
    lemma_digits_bound(n as nat, 20);
    let digits = crate::decimal::decimal_chars(n as nat);
    crate::decimal::law_decimal_chars_canonical(n as nat);
    if digits.len() < 20 {
        let zeros = crate::decimal::zeros((20 - digits.len()) as nat);
        lemma_zeros_value(zeros);
        crate::decimal::lemma_decimal_concat(zeros, digits);
    }
}

proof fn lemma_zeros_value(zeros: Seq<char>)
    requires
        forall|i: int| 0 <= i < zeros.len() ==> #[trigger] zeros[i] == '0',
    ensures
        crate::decimal::decimal_value(zeros) == 0,
    decreases zeros.len(),
{
    if zeros.len() > 0 {
        assert(zeros.last() == zeros[zeros.len() - 1]);
        lemma_zeros_value(zeros.drop_last());
    }
}

/// The name of a head's file tells its sequence and the digests of its service and of its key.
/// Two heads have one name exactly if they agree in these three.
pub proof fn law_names_bind_service_sequence_and_key(a: JournalHeadView, b: JournalHeadView)
    requires
        crate::crypto::sha256_of(vstd::utf8::encode_utf8(a.service_id)).len() == 32,
        crate::crypto::sha256_of(vstd::utf8::encode_utf8(b.service_id)).len() == 32,
        crate::crypto::sha256_of(vstd::utf8::encode_utf8(a.key_id)).len() == 32,
        crate::crypto::sha256_of(vstd::utf8::encode_utf8(b.key_id)).len() == 32,
    ensures
        ({
            let name = crate::checkpoint::filename_of(a);
            &&& name.len() == 154
            &&& crate::hex_text::hex_bytes(name.subrange(0, 64)) == crate::crypto::sha256_of(
                vstd::utf8::encode_utf8(a.service_id),
            )
            &&& name[64] == '-'
            &&& crate::decimal::decimal_value(name.subrange(65, 85)) == a.sequence
            &&& name[85] == '-'
            &&& crate::hex_text::hex_bytes(name.subrange(86, 150)) == crate::crypto::sha256_of(
                vstd::utf8::encode_utf8(a.key_id),
            )
            &&& name.subrange(150, 154) == seq!['.', 'j', 'c', 's']
        }),
        crate::checkpoint::filename_of(a) == crate::checkpoint::filename_of(b)
            <==> crate::crypto::sha256_of(vstd::utf8::encode_utf8(a.service_id))
            == crate::crypto::sha256_of(vstd::utf8::encode_utf8(b.service_id)) && a.sequence
            == b.sequence && crate::crypto::sha256_of(vstd::utf8::encode_utf8(a.key_id))
            == crate::crypto::sha256_of(vstd::utf8::encode_utf8(b.key_id)),
{
    lemma_name_parts(a);
    lemma_name_parts(b);
}

proof fn lemma_name_parts(head: JournalHeadView)
    requires
        crate::crypto::sha256_of(vstd::utf8::encode_utf8(head.service_id)).len() == 32,
        crate::crypto::sha256_of(vstd::utf8::encode_utf8(head.key_id)).len() == 32,
    ensures
        ({
            let name = crate::checkpoint::filename_of(head);
            &&& name.len() == 154
            &&& crate::hex_text::hex_bytes(name.subrange(0, 64)) == crate::crypto::sha256_of(
                vstd::utf8::encode_utf8(head.service_id),
            )
            &&& name[64] == '-'
            &&& crate::decimal::decimal_value(name.subrange(65, 85)) == head.sequence
            &&& name[85] == '-'
            &&& crate::hex_text::hex_bytes(name.subrange(86, 150)) == crate::crypto::sha256_of(
                vstd::utf8::encode_utf8(head.key_id),
            )
            &&& name.subrange(150, 154) == seq!['.', 'j', 'c', 's']
        }),
{
    reveal_strlit("-");
    reveal_strlit(".jcs");
    let service = crate::crypto::sha256_of(vstd::utf8::encode_utf8(head.service_id));
    let key = crate::crypto::sha256_of(vstd::utf8::encode_utf8(head.key_id));
    let name = crate::checkpoint::filename_of(head);
    law_padded_numbers_have_one_width(head.sequence);
    crate::hex_text::law_hex_decodes_what_it_encodes(service);
    crate::hex_text::law_hex_decodes_what_it_encodes(key);
    assert(name.subrange(0, 64) =~= crate::hex_text::hex_chars(service));
    assert(name.subrange(65, 85) =~= crate::decimal::padded_decimal(head.sequence as nat, 20));
    assert(name.subrange(86, 150) =~= crate::hex_text::hex_chars(key));
    assert(name.subrange(150, 154) =~= seq!['.', 'j', 'c', 's']);
}

/// Keys that handovers at one head join, from the first to the last.
pub open spec fn joins(trust: TrustView, head: JournalHeadView, keys: Seq<Seq<char>>) -> bool {
    &&& keys.len() > 1
    &&& forall|i: int|
        0 < i < keys.len() ==> #[trigger] key_before(trust, under_key(head, keys[i])) == Some(
            keys[i - 1],
        )
}

/// The key before a head is the old key of the handover into its own, if that handover is at
/// exactly this head.
pub proof fn law_key_before_a_head_is_the_handovers_old_key(
    trust: TrustView,
    head: JournalHeadView,
    i: int,
)
    requires
        0 <= i < trust.handovers.len(),
        trust.handovers[i].service == head.service_id,
        trust.handovers[i].new_key_id == head.key_id,
        forall|j: int|
            0 <= j < trust.handovers.len() && j != i ==> !((#[trigger] trust.handovers[j]).service
                == head.service_id && trust.handovers[j].new_key_id == head.key_id),
    ensures
        key_before(trust, head) == (if trust.handovers[i].sequence == head.sequence
            && trust.handovers[i].head_hash == head.head_hash {
            Some(trust.handovers[i].old_key_id)
        } else {
            None
        }),
{
    lemma_only_handover(trust.handovers, head.service_id, head.key_id, i);
}

proof fn lemma_only_handover(
    handovers: Seq<crate::checkpoint::HandoverView>,
    service: Seq<char>,
    key_id: Seq<char>,
    i: int,
)
    requires
        0 <= i < handovers.len(),
        handovers[i].service == service,
        handovers[i].new_key_id == key_id,
        forall|j: int|
            0 <= j < handovers.len() && j != i ==> !((#[trigger] handovers[j]).service == service
                && handovers[j].new_key_id == key_id),
    ensures
        crate::checkpoint::handover_into(handovers, service, key_id) == Some(handovers[i]),
    decreases handovers.len(),
{
    let before = handovers.drop_last();
    if i < before.len() {
        assert(handovers.last() == handovers[handovers.len() - 1]);
        assert forall|j: int| 0 <= j < before.len() && j != i implies !((
        #[trigger] before[j]).service == service && before[j].new_key_id == key_id) by {
            assert(before[j] == handovers[j]);
        }
        lemma_only_handover(before, service, key_id, i);
    }
}

proof fn lemma_comes_from_path(
    trust: TrustView,
    key_id: Seq<char>,
    head: JournalHeadView,
    steps: nat,
) -> (keys: Seq<Seq<char>>)
    requires
        crate::chain::comes_from(trust, key_id, head, steps),
    ensures
        joins(trust, head, keys),
        keys[0] == key_id,
        keys.last() == head.key_id,
        keys.len() <= steps + 1,
    decreases steps,
{
    let before = key_before(trust, head)->Some_0;
    assert(under_key(head, head.key_id) == head);
    if before == key_id {
        let keys = seq![key_id, head.key_id];
        assert(keys[1] == head.key_id);
        keys
    } else {
        let earlier = lemma_comes_from_path(
            trust,
            key_id,
            under_key(head, before),
            (steps - 1) as nat,
        );
        let keys = earlier.push(head.key_id);
        assert forall|i: int| 0 < i < keys.len() implies #[trigger] key_before(
            trust,
            under_key(head, keys[i]),
        ) == Some(keys[i - 1]) by {
            if i < earlier.len() {
                assert(under_key(under_key(head, before), earlier[i]) == under_key(head, keys[i]));
                assert(key_before(trust, under_key(under_key(head, before), earlier[i])) == Some(
                    earlier[i - 1],
                ));
            } else {
                assert(earlier.last() == before);
            }
        }
        keys
    }
}

proof fn lemma_path_comes_from(
    trust: TrustView,
    head: JournalHeadView,
    keys: Seq<Seq<char>>,
    steps: nat,
)
    requires
        joins(trust, head, keys),
        keys.last() == head.key_id,
        keys.len() <= steps + 1,
    ensures
        crate::chain::comes_from(trust, keys[0], head, steps),
    decreases keys.len(),
{
    let n = keys.len() - 1;
    assert(under_key(head, keys[n]) == head);
    assert(key_before(trust, under_key(head, keys[n])) == Some(keys[n - 1]));
    if n > 1 {
        let shorter = keys.drop_last();
        let older = under_key(head, keys[n - 1]);
        assert forall|i: int| 0 < i < shorter.len() implies #[trigger] key_before(
            trust,
            under_key(older, shorter[i]),
        ) == Some(shorter[i - 1]) by {
            assert(under_key(older, shorter[i]) == under_key(head, keys[i]));
            assert(key_before(trust, under_key(head, keys[i])) == Some(keys[i - 1]));
        }
        lemma_path_comes_from(trust, older, shorter, (steps - 1) as nat);
    }
}

/// A head is handed over to another exactly if both are of one service, sequence and hash, and
/// handovers at that head lead from the one's key to the other's, over no more of them than
/// packaging lists.
pub proof fn law_heads_are_handed_over_along_the_handovers(
    trust: TrustView,
    old_head: JournalHeadView,
    new_head: JournalHeadView,
)
    ensures
        handed_over(trust, old_head, new_head) <==> old_head.service_id == new_head.service_id
            && old_head.sequence == new_head.sequence && old_head.head_hash == new_head.head_hash
            && exists|keys: Seq<Seq<char>>| #[trigger]
            joins(trust, new_head, keys) && keys[0] == old_head.key_id && keys.last()
                == new_head.key_id && keys.len() <= trust.handovers.len() + 1,
{
    if handed_over(trust, old_head, new_head) {
        let keys = lemma_comes_from_path(
            trust,
            old_head.key_id,
            new_head,
            trust.handovers.len(),
        );
        assert(joins(trust, new_head, keys));
    }
    if exists|keys: Seq<Seq<char>>| #[trigger]
        joins(trust, new_head, keys) && keys[0] == old_head.key_id && keys.last()
            == new_head.key_id && keys.len() <= trust.handovers.len() + 1 {
        let keys = choose|keys: Seq<Seq<char>>| #[trigger]
            joins(trust, new_head, keys) && keys[0] == old_head.key_id && keys.last()
                == new_head.key_id && keys.len() <= trust.handovers.len() + 1;
        lemma_path_comes_from(trust, new_head, keys, trust.handovers.len());
    }
}

/// Records stand by service first, in the order of the names' bytes; then by sequence, the lower
/// first; then the old head before the new one of a handover; and by key where nothing joins two
/// heads of one sequence.
pub proof fn law_records_stand_in_one_order(
    trust: TrustView,
    a: JournalHeadView,
    b: JournalHeadView,
)
    ensures
        crate::text::text_before(b.service_id, a.service_id) ==> stands_after(trust, a, b),
        crate::text::text_before(a.service_id, b.service_id) ==> !stands_after(trust, a, b),
        a.service_id == b.service_id && a.sequence > b.sequence ==> stands_after(trust, a, b),
        a.service_id == b.service_id && a.sequence < b.sequence ==> !stands_after(trust, a, b),
        a.service_id == b.service_id && a.sequence == b.sequence && !handed_over(trust, a, b)
            && !handed_over(trust, b, a) ==> (stands_after(trust, a, b)
            <==> crate::text::text_before(b.key_id, a.key_id)),
        handed_over(trust, a, b) ==> !stands_after(trust, a, b),
        handed_over(trust, b, a) && !handed_over(trust, a, b) ==> stands_after(trust, a, b),
{
    crate::text::lemma_text_before_total(a.service_id, b.service_id);
    crate::text::lemma_text_before_total(b.service_id, a.service_id);
}

/// Names that ascend in the order of their bytes.
pub open spec fn ascending_names(stamps: Seq<(Seq<u8>, RecordStamp)>) -> bool {
    forall|i: int, j: int|
        0 <= i < j < stamps.len() ==> crate::text::bytes_before(
            (#[trigger] stamps[i]).0,
            (#[trigger] stamps[j]).0,
        )
}

/// Stamps are kept once for each name, in the order of the names: a new one takes its place or
/// the place of the one before under its name, and every other stays.
pub proof fn law_stamps_are_kept_once_in_order(
    stamps: Seq<(Seq<u8>, RecordStamp)>,
    name: Seq<u8>,
    stamp: RecordStamp,
)
    requires
        ascending_names(stamps),
    ensures
        ({
            let after = with_stamp(stamps, name, stamp);
            &&& ascending_names(after)
            &&& after.contains((name, stamp))
            &&& forall|other: (Seq<u8>, RecordStamp)|
                other.0 != name ==> (#[trigger] after.contains(other) <==> stamps.contains(other))
            &&& forall|other: (Seq<u8>, RecordStamp)| #[trigger]
                after.contains(other) && other.0 == name ==> other.1 == stamp
        }),
    decreases stamps.len(),
{
    let after = with_stamp(stamps, name, stamp);
    if stamps.len() == 0 {
        assert(after[0] == (name, stamp));
    } else {
        let front = stamps.drop_last();
        let last = stamps.last();
        assert forall|i: int, j: int|
            0 <= i < j < front.len() implies crate::text::bytes_before(
            (#[trigger] front[i]).0,
            (#[trigger] front[j]).0,
        ) by {
            assert(front[i] == stamps[i] && front[j] == stamps[j]);
        }
        assert forall|i: int| 0 <= i < front.len() implies crate::text::bytes_before(
            (#[trigger] front[i]).0,
            last.0,
        ) by {
            assert(front[i] == stamps[i]);
            assert(stamps[stamps.len() - 1] == last);
        }
        crate::text::lemma_bytes_before_total(last.0, name);
        if last.0 == name {
            assert(after =~= front.push((name, stamp)));
            lemma_pushed(front, (name, stamp));
            lemma_front_and_last(stamps);
            assert forall|other: (Seq<u8>, RecordStamp)|
                #[trigger] after.contains(other) && other.0 == name implies other.1 == stamp by {
                if front.contains(other) {
                    let i = choose|i: int| 0 <= i < front.len() && front[i] == other;
                    assert(crate::text::bytes_before(front[i].0, last.0));
                }
            }
        } else if crate::text::bytes_before(last.0, name) {
            assert forall|i: int| 0 <= i < stamps.len() implies crate::text::bytes_before(
                (#[trigger] stamps[i]).0,
                name,
            ) by {
                if i < front.len() {
                    assert(front[i] == stamps[i]);
                    crate::text::lemma_bytes_before_transitive(stamps[i].0, last.0, name);
                }
            }
            assert(after =~= stamps.push((name, stamp)));
            lemma_pushed(stamps, (name, stamp));
            assert forall|other: (Seq<u8>, RecordStamp)|
                #[trigger] after.contains(other) && other.0 == name implies other.1 == stamp by {
                if stamps.contains(other) {
                    let i = choose|i: int| 0 <= i < stamps.len() && stamps[i] == other;
                    assert(crate::text::bytes_before(stamps[i].0, name));
                    crate::text::lemma_bytes_before_total(name, name);
                }
            }
        } else {
            law_stamps_are_kept_once_in_order(front, name, stamp);
            let inner = with_stamp(front, name, stamp);
            assert(after =~= inner.push(last));
            lemma_front_and_last(stamps);
            assert forall|i: int| 0 <= i < inner.len() implies crate::text::bytes_before(
                (#[trigger] inner[i]).0,
                last.0,
            ) by {
                assert(inner.contains(inner[i]));
                if inner[i].0 != name {
                    assert(front.contains(inner[i]));
                    let k = choose|k: int| 0 <= k < front.len() && front[k] == inner[i];
                    assert(crate::text::bytes_before(front[k].0, last.0));
                }
            }
            lemma_pushed(inner, last);
        }
    }
}

proof fn lemma_pushed(stamps: Seq<(Seq<u8>, RecordStamp)>, item: (Seq<u8>, RecordStamp))
    requires
        ascending_names(stamps),
        forall|i: int|
            0 <= i < stamps.len() ==> crate::text::bytes_before((#[trigger] stamps[i]).0, item.0),
    ensures
        ascending_names(stamps.push(item)),
        forall|other: (Seq<u8>, RecordStamp)| #[trigger]
            stamps.push(item).contains(other) <==> stamps.contains(other) || other == item,
{
    let after = stamps.push(item);
    assert forall|i: int, j: int| 0 <= i < j < after.len() implies crate::text::bytes_before(
        (#[trigger] after[i]).0,
        (#[trigger] after[j]).0,
    ) by {
        assert(after[i] == stamps[i]);
        if j < stamps.len() {
            assert(after[j] == stamps[j]);
        }
    }
    assert forall|other: (Seq<u8>, RecordStamp)| #[trigger]
        after.contains(other) <==> stamps.contains(other) || other == item by {
        if stamps.contains(other) {
            let i = choose|i: int| 0 <= i < stamps.len() && stamps[i] == other;
            assert(after[i] == other);
        }
        if other == item {
            assert(after[stamps.len() as int] == other);
        }
        if after.contains(other) && other != item {
            let i = choose|i: int| 0 <= i < after.len() && after[i] == other;
            assert(stamps[i] == other);
        }
    }
}

proof fn lemma_front_and_last(stamps: Seq<(Seq<u8>, RecordStamp)>)
    requires
        stamps.len() > 0,
    ensures
        forall|other: (Seq<u8>, RecordStamp)| #[trigger]
            stamps.contains(other) <==> stamps.drop_last().contains(other) || other
                == stamps.last(),
{
    let front = stamps.drop_last();
    assert forall|other: (Seq<u8>, RecordStamp)| #[trigger]
        stamps.contains(other) <==> front.contains(other) || other == stamps.last() by {
        if front.contains(other) {
            let i = choose|i: int| 0 <= i < front.len() && front[i] == other;
            assert(stamps[i] == other);
        }
        if other == stamps.last() {
            assert(stamps[stamps.len() - 1] == other);
        }
        if stamps.contains(other) && other != stamps.last() {
            let i = choose|i: int| 0 <= i < stamps.len() && stamps[i] == other;
            assert(front[i] == other);
        }
    }
}

/// A file is read only once its metadata showed a regular file that its owner alone may use, and
/// only under the name whose metadata was asked for.
pub proof fn law_only_private_files_are_read(store: StoreView, task: TaskView, reply: ReplyView)
    requires
        next(store, task, reply).action is ReadEntry,
    ensures
        reply matches ReplyView::Facts(facts) && facts.kind is Regular && facts.mode & 0o7777
            == 0o600,
        ({
            let name = next(store, task, reply).action->ReadEntry_0;
            match task.phase {
                PhaseView::ScanFacts(asked) => name == asked,
                PhaseView::ExistingFacts => task.goal matches GoalView::Append(head) && name
                    == entry_name(head),
                PhaseView::CachedFacts => crate::store::cached(store, task.goal) matches Some(head)
                    && name == entry_name(head),
                _ => false,
            }
        }),
{
}

/// Metadata of a file that is not private ends the work, whatever it is for.
pub proof fn law_unsafe_files_end_the_work(store: StoreView, task: TaskView, facts: FileFacts)
    requires
        !(facts.kind is Regular && facts.mode & 0o7777 == 0o600),
        task.phase is ScanFacts || (task.phase is ExistingFacts && task.goal is Append) || (
        task.phase is CachedFacts && crate::store::cached(store, task.goal) is Some),
    ensures
        next(store, task, ReplyView::Facts(facts)).action == ActionView::Failed(
            CheckpointErrorView::Malformed(
                if task.phase is ScanFacts {
                    "unsafe entry "@ + crate::store::lossy_text(task.phase->ScanFacts_0)
                } else {
                    "existing checkpoint path is unsafe"@
                },
            ),
        ),
        next(store, task, ReplyView::Facts(facts)).store == store,
{
}

/// A directory that is not as it must be ends the work at once, whenever its metadata is read,
/// and what was read of it is dropped.
pub proof fn law_refused_directory_ends_the_work(store: StoreView, task: TaskView, root: FileFacts)
    requires
        task.phase is CacheRoot || task.phase is ScanRoot || task.phase is ScanEnd,
        root_check(root, store.expected_uid) is Err,
    ensures
        next(store, task, ReplyView::Facts(root)).action == ActionView::Failed(
            root_check(root, store.expected_uid)->Err_0,
        ),
        next(store, task, ReplyView::Facts(root)).store == store,
{
}

/// A directory that changed while it was read is read again from its beginning, three times in
/// all. One that did not change is what the store knows from then on.
pub proof fn law_changed_directory_is_read_again(store: StoreView, task: TaskView, root: FileFacts)
    requires
        task.phase is ScanEnd,
        root_check(root, store.expected_uid) is Ok,
    ensures
        ({
            let after = next(store, task, ReplyView::Facts(root));
            let changed = task.before != Some(root_stamp_of(root));
            &&& changed && task.attempts < 2 ==> {
                &&& after.action is StatRoot
                &&& after.task.phase is ScanRoot
                &&& after.task.attempts == task.attempts + 1
                &&& after.task.records.len() == 0
                &&& after.task.stamps.len() == 0
                &&& after.task.goal == task.goal
                &&& after.task.published == task.published
                &&& after.store == store
            }
            &&& changed && task.attempts >= 2 ==> after.action == ActionView::Failed(
                CheckpointErrorView::Malformed(
                    "checkpoint root changed repeatedly during reconciliation"@,
                ),
            ) && after.store == store
            &&& !changed ==> {
                &&& after.store.read
                &&& after.store.root_stamp == root_stamp_of(root)
                &&& after.store.records == task.records
                &&& after.store.stamps == task.stamps
            }
        }),
{
}

/// What the store knows is used only while the directory and every file that it knows bear the
/// stamps that it knows. Otherwise the directory is read anew.
pub proof fn law_known_records_are_used_only_unchanged(
    store: StoreView,
    task: TaskView,
    facts: FileFacts,
)
    ensures
        ({
            let after = next(store, task, ReplyView::Facts(facts));
            &&& task.phase is CacheRoot && root_check(facts, store.expected_uid) is Ok && (
            !store.read || root_stamp_of(facts) != store.root_stamp) ==> after.task.phase is ScanRoot
                && after.action is StatRoot && after.task.attempts == 0
            &&& task.phase is CacheRoot && root_check(facts, store.expected_uid) is Ok && store.read
                && root_stamp_of(facts) == store.root_stamp && store.stamps.len() > 0
                ==> after.task.phase == PhaseView::CacheEntry(0) && after.action
                == ActionView::StatEntry(store.stamps[0].0)
            &&& (task.phase matches PhaseView::CacheEntry(i) && 0 <= i < store.stamps.len()
                && record_stamp_of(facts) != store.stamps[i].1) ==> after.task.phase is ScanRoot
                && after.action is StatRoot && after.task.attempts == 0
            &&& (task.phase matches PhaseView::CacheEntry(i) && 0 <= i && i + 1
                < store.stamps.len() && record_stamp_of(facts) == store.stamps[i].1)
                ==> after.action == ActionView::StatEntry(
                store.stamps[task.phase->CacheEntry_0 + 1].0,
            )
        }),
{
}

/// Where nothing changed, a lookup rereads the last known record of its service, or knows that
/// there is none; an append rereads its own head where that is the last one, and otherwise reads
/// the directory.
pub proof fn law_unchanged_records_answer(store: StoreView, task: TaskView, facts: FileFacts)
    requires
        store.stamps.len() > 0,
        task.phase == PhaseView::CacheEntry(store.stamps.len() - 1),
        record_stamp_of(facts) == store.stamps.last().1,
    ensures
        ({
            let after = next(store, task, ReplyView::Facts(facts));
            let known = |service: Seq<char>| crate::chain::last_of(store.records, service);
            let writable = |head: JournalHeadView|
                crate::codec::canonical(record_wire(record_of(store, head))) is Ok;
            &&& after.store == store
            &&& (task.goal matches GoalView::Latest(service) && known(service) is None)
                ==> after.action == ActionView::Latest(None)
            &&& (task.goal matches GoalView::Latest(service) && known(service) is Some && writable(
                known(service)->Some_0,
            )) ==> after.action == ActionView::StatEntry(
                entry_name(known(task.goal->Latest_0)->Some_0),
            )
            &&& (task.goal matches GoalView::Append(head) && known(head.service_id) == Some(head)
                && writable(head)) ==> after.action == ActionView::StatEntry(
                entry_name(task.goal->Append_0),
            )
            &&& (task.goal matches GoalView::Append(head) && known(head.service_id) != Some(head))
                ==> after.action is StatRoot && after.task.phase is ScanRoot
        }),
{
}

/// A store is opened exactly on a directory of the expected user with mode `0700`, with keys that
/// packaging may trust together, and then holds what it was opened with.
pub proof fn law_store_opens_exactly(
    r: Result<crate::store::CheckpointStore, crate::checkpoint::CheckpointError>,
    root: FileFacts,
    expected_uid: u32,
    recipient: Seq<char>,
    trust: TrustView,
)
    requires
        crate::store::opened(r, root, expected_uid, recipient, trust),
    ensures
        r is Ok <==> root.kind is Directory && root.uid == expected_uid && root.mode & 0o7777
            == 0o700 && crate::checkpoint::trust_check(trust) is Ok,
        r matches Ok(store) ==> store@.expected_uid == expected_uid && store@.recipient
            == recipient && store@.trust == trust && !store@.read && store@.records.len() == 0
            && store@.stamps.len() == 0,
        r matches Err(e) ==> (if root_check(root, expected_uid) is Err {
            e@ == root_check(root, expected_uid)->Err_0
        } else {
            e@ == crate::checkpoint::trust_check(trust)->Err_0
        }),
{
}

/// Every entry of a directory is looked at, read, checked, and kept in the order in which it was
/// listed, with its stamp; a refused one ends the work.
pub proof fn law_every_entry_is_read_and_checked(
    store: StoreView,
    task: TaskView,
    name: Seq<u8>,
    facts: FileFacts,
    bytes: Seq<u8>,
    record: RecordView,
)
    requires
        task.phase is ScanEntry,
        facts.kind is Regular,
        facts.mode & 0o7777 == 0o600,
    ensures
        ({
            let looked = next(store, task, ReplyView::Entry(name));
            let opened = next(store, looked.task, ReplyView::Facts(facts));
            let read = next(store, opened.task, ReplyView::Record { bytes, parsed: Ok(record) });
            let verdict = entry_check(store, name, bytes, Ok(record));
            &&& looked.action == ActionView::StatEntry(name)
            &&& opened.action == ActionView::ReadEntry(name)
            &&& opened.task.stamps == with_stamp(task.stamps, name, record_stamp_of(facts))
            &&& verdict is Ok ==> read.action == (ActionView::NextEntry { restart: false })
                && read.task.records == task.records.push(record) && read.task.phase is ScanEntry
                && read.task.stamps == opened.task.stamps
            &&& verdict matches Err(e) ==> read.action == ActionView::Failed(e)
            &&& read.store == store
        }),
{
}

/// A request that the disk refuses ends the work with its error and leaves the store as it was.
pub proof fn law_refused_disk_request_ends_the_work(
    store: StoreView,
    task: TaskView,
    error: std::io::Error,
)
    ensures
        next(store, task, ReplyView::Failed(error)).action == ActionView::Failed(
            CheckpointErrorView::Io(error),
        ),
        next(store, task, ReplyView::Failed(error)).store == store,
        next(store, task, ReplyView::Failed(error)).task.phase is Done,
{
}

/// A linked record is made durable before anything else; a name that is taken leads to the file
/// under it; a missing directory is named. Durable work reads the directory once more.
pub proof fn law_publication_is_made_durable(
    store: StoreView,
    task: TaskView,
    head: JournalHeadView,
    outcome: AppendOutcome,
)
    ensures
        task.phase is Publishing ==> next(store, task, ReplyView::Linked).action is SyncRoot,
        task.phase is Publishing ==> next(store, task, ReplyView::Linked).task.phase
            == PhaseView::Syncing(AppendOutcome::Appended),
        task.phase is Publishing ==> next(store, task, ReplyView::NoParent).action
            == ActionView::Failed(CheckpointErrorView::InvalidRoot),
        task.phase is Publishing && task.goal == GoalView::Append(head) ==> next(
            store,
            task,
            ReplyView::AlreadyExists,
        ).action == ActionView::StatEntry(entry_name(head)),
        task.phase == PhaseView::Syncing(outcome) ==> {
            let after = next(store, task, ReplyView::Synced);
            &&& after.action is StatRoot
            &&& after.task.phase is ScanRoot
            &&& after.task.published == Some(outcome)
            &&& after.task.attempts == 0
        },
{
}

} // verus!
