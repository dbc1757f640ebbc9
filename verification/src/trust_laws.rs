//! What is asked of a checkpoint directory, of the pinned keys and of the heads signed under
//! them, in terms of their fields.

use vstd::prelude::*;

use crate::audit::JournalHeadView;
use crate::chain::{append_decision, chain_check, last_of, AppendDecision};
use crate::checkpoint::{
    handover_into, live_key, pinned_key, trust_check, CheckpointErrorView, HandoverView, PinView,
    RecordView, TrustView,
};
use crate::files::{FileFacts, FileKind};
use crate::peer_trust::{authorized_handover, live_check, retained_check};

verus! {

/// A directory may hold checkpoints exactly if it is a directory, belongs to the expected user
/// and has the permissions `0700`. Each refusal names the first of these that fails.
pub proof fn law_root_is_accepted_exactly(root: FileFacts, expected_uid: u32)
    ensures
        crate::checkpoint::root_check(root, expected_uid) is Ok <==> root.kind
            == FileKind::Directory && root.uid == expected_uid && root.mode & 0o7777 == 0o700,
        root.kind != FileKind::Directory ==> crate::checkpoint::root_check(root, expected_uid)
            == Err::<(), CheckpointErrorView>(CheckpointErrorView::InvalidRoot),
        root.kind == FileKind::Directory && root.uid != expected_uid
            ==> crate::checkpoint::root_check(root, expected_uid) == Err::<(), CheckpointErrorView>(
            CheckpointErrorView::WrongOwner { expected_uid, actual_uid: root.uid },
        ),
        root.kind == FileKind::Directory && root.uid == expected_uid && root.mode & 0o7777 != 0o700
            ==> crate::checkpoint::root_check(root, expected_uid) == Err::<(), CheckpointErrorView>(
            CheckpointErrorView::InsecurePermissions,
        ),
{
}

/// Nothing but its kind, its user and its permission bits decides on a directory.
pub proof fn law_root_verdict_rests_on_kind_user_and_mode(
    a: FileFacts,
    b: FileFacts,
    expected_uid: u32,
)
    requires
        a.kind == b.kind,
        a.uid == b.uid,
        a.mode & 0o7777 == b.mode & 0o7777,
    ensures
        crate::checkpoint::root_check(a, expected_uid) == crate::checkpoint::root_check(
            b,
            expected_uid,
        ),
{
}

/// A directory's stamp is unchanged exactly if it is the same directory with the same mode, user
/// and times.
pub proof fn law_directory_stamp_tells_changes(a: FileFacts, b: FileFacts)
    ensures
        crate::checkpoint::root_stamp_of(a) == crate::checkpoint::root_stamp_of(b) <==> a.device
            == b.device && a.inode == b.inode && a.mode == b.mode && a.uid == b.uid
            && a.modified_secs == b.modified_secs && a.modified_nanos == b.modified_nanos
            && a.changed_secs == b.changed_secs && a.changed_nanos == b.changed_nanos,
{
}

/// A file's stamp is unchanged exactly if it is the same file with the same mode, user, links,
/// size and times.
pub proof fn law_file_stamp_tells_changes(a: FileFacts, b: FileFacts)
    ensures
        crate::checkpoint::record_stamp_of(a) == crate::checkpoint::record_stamp_of(b) <==> a.device
            == b.device && a.inode == b.inode && a.mode == b.mode && a.uid == b.uid && a.links
            == b.links && a.size == b.size && a.modified_secs == b.modified_secs
            && a.modified_nanos == b.modified_nanos && a.changed_secs == b.changed_secs
            && a.changed_nanos == b.changed_nanos,
{
}

/// One of the pins is of the service.
pub open spec fn serves(pins: Seq<PinView>, service: Seq<char>) -> bool {
    exists|i: int| 0 <= i < pins.len() && (#[trigger] pins[i]).service == service
}

/// One of the pins is of the service and the key ID.
pub open spec fn pins_pair(pins: Seq<PinView>, service: Seq<char>, key_id: Seq<char>) -> bool {
    exists|i: int|
        0 <= i < pins.len() && (#[trigger] pins[i]).service == service && pins[i].key_id == key_id
}

/// One of the handovers leads into the key of the service.
pub open spec fn hands_into(handovers: Seq<HandoverView>, service: Seq<char>, key_id: Seq<char>) -> bool {
    exists|i: int|
        0 <= i < handovers.len() && (#[trigger] handovers[i]).service == service
            && handovers[i].new_key_id == key_id
}

pub proof fn lemma_live_key_listed(current: Seq<PinView>, service: Seq<char>)
    ensures
        live_key(current, service) is Some <==> serves(current, service),
    decreases current.len(),
{
    if current.len() > 0 {
        let before = current.drop_last();
        lemma_live_key_listed(before, service);
        assert(current.last() == current[current.len() - 1]);
        if serves(before, service) {
            let i = choose|i: int|
                0 <= i < before.len() && (#[trigger] before[i]).service == service;
            assert(current[i].service == service);
        }
        if serves(current, service) && current.last().service != service {
            let i = choose|i: int|
                0 <= i < current.len() && (#[trigger] current[i]).service == service;
            assert(before[i].service == service);
        }
    }
}

proof fn lemma_pinned_key_listed(pins: Seq<PinView>, service: Seq<char>, key_id: Seq<char>)
    ensures
        pinned_key(pins, service, key_id) is Some <==> pins_pair(pins, service, key_id),
    decreases pins.len(),
{
    if pins.len() > 0 {
        let before = pins.drop_last();
        lemma_pinned_key_listed(before, service, key_id);
        assert(pins.last() == pins[pins.len() - 1]);
        if pins_pair(before, service, key_id) {
            let i = choose|i: int|
                0 <= i < before.len() && (#[trigger] before[i]).service == service
                    && before[i].key_id == key_id;
            assert(pins[i].service == service);
        }
        if pins_pair(pins, service, key_id) && !(pins.last().service == service
            && pins.last().key_id == key_id) {
            let i = choose|i: int|
                0 <= i < pins.len() && (#[trigger] pins[i]).service == service && pins[i].key_id
                    == key_id;
            assert(before[i].service == service);
        }
    }
}

proof fn lemma_handover_listed(
    handovers: Seq<HandoverView>,
    service: Seq<char>,
    key_id: Seq<char>,
)
    ensures
        handover_into(handovers, service, key_id) is Some <==> hands_into(
            handovers,
            service,
            key_id,
        ),
    decreases handovers.len(),
{
    if handovers.len() > 0 {
        let before = handovers.drop_last();
        lemma_handover_listed(before, service, key_id);
        assert(handovers.last() == handovers[handovers.len() - 1]);
        if hands_into(before, service, key_id) {
            let i = choose|i: int|
                0 <= i < before.len() && (#[trigger] before[i]).service == service
                    && before[i].new_key_id == key_id;
            assert(handovers[i].service == service);
        }
        if hands_into(handovers, service, key_id) && !(handovers.last().service == service
            && handovers.last().new_key_id == key_id) {
            let i = choose|i: int|
                0 <= i < handovers.len() && (#[trigger] handovers[i]).service == service
                    && handovers[i].new_key_id == key_id;
            assert(before[i].service == service);
        }
    }
}

/// No service is pinned twice.
pub open spec fn one_pin_each(current: Seq<PinView>) -> bool {
    forall|i: int, j: int|
        0 <= i < j < current.len() ==> (#[trigger] current[i]).service != (
        #[trigger] current[j]).service
}

/// No key ID of a service is pinned twice.
pub open spec fn one_pin_for_each_key(pins: Seq<PinView>) -> bool {
    forall|i: int, j: int|
        0 <= i < j < pins.len() ==> !((#[trigger] pins[i]).service == (#[trigger] pins[j]).service
            && pins[i].key_id == pins[j].key_id)
}

/// Each handover joins two different pinned keys of a service that has a live key.
pub open spec fn handovers_join_pinned_keys(trust: TrustView) -> bool {
    forall|i: int| #![trigger trust.handovers[i]]
        0 <= i < trust.handovers.len() ==> {
            let h = trust.handovers[i];
            &&& serves(trust.current, h.service)
            &&& h.old_key_id != h.new_key_id
            &&& pins_pair(trust.current + trust.historical, h.service, h.old_key_id)
            &&& pins_pair(trust.current + trust.historical, h.service, h.new_key_id)
        }
}

/// No key is handed over to twice.
pub open spec fn one_handover_into_each_key(handovers: Seq<HandoverView>) -> bool {
    forall|i: int, j: int|
        0 <= i < j < handovers.len() ==> !((#[trigger] handovers[i]).service == (
        #[trigger] handovers[j]).service && handovers[i].new_key_id == handovers[j].new_key_id)
}

proof fn lemma_current_accepted(current: Seq<PinView>)
    ensures
        crate::checkpoint::current_check(current) is Ok <==> one_pin_each(current),
    decreases current.len(),
{
    if current.len() > 0 {
        let before = current.drop_last();
        let last = current.last();
        lemma_current_accepted(before);
        lemma_live_key_listed(before, last.service);
        if one_pin_each(current) {
            assert forall|i: int, j: int| 0 <= i < j < before.len() implies (
            #[trigger] before[i]).service != (#[trigger] before[j]).service by {
                assert(current[i].service != current[j].service);
            }
            if serves(before, last.service) {
                let i = choose|i: int|
                    0 <= i < before.len() && (#[trigger] before[i]).service == last.service;
                assert(current[i].service != current[current.len() - 1].service);
            }
        }
        if one_pin_each(before) && !serves(before, last.service) {
            assert forall|i: int, j: int| 0 <= i < j < current.len() implies (
            #[trigger] current[i]).service != (#[trigger] current[j]).service by {
                assert(before[i] == current[i]);
                if j < before.len() {
                    assert(before[j] == current[j]);
                }
            }
        }
    }
}

proof fn lemma_historical_accepted(current: Seq<PinView>, historical: Seq<PinView>)
    requires
        one_pin_each(current),
    ensures
        crate::checkpoint::historical_check(current, historical) is Ok <==> (forall|i: int|
            0 <= i < historical.len() ==> serves(current, (#[trigger] historical[i]).service))
            && one_pin_for_each_key(current + historical),
    decreases historical.len(),
{
    let all = current + historical;
    if historical.len() == 0 {
        assert forall|i: int, j: int| 0 <= i < j < all.len() implies !((#[trigger] all[i]).service
            == (#[trigger] all[j]).service && all[i].key_id == all[j].key_id) by {
            assert(current[i].service != current[j].service);
        }
    } else {
        let before = historical.drop_last();
        let last = historical.last();
        let fewer = current + before;
        lemma_historical_accepted(current, before);
        lemma_live_key_listed(current, last.service);
        lemma_pinned_key_listed(fewer, last.service, last.key_id);
        assert(all =~= fewer.push(last));
        assert(historical[historical.len() - 1] == last);
        if (forall|i: int|
            0 <= i < historical.len() ==> serves(current, (#[trigger] historical[i]).service))
            && one_pin_for_each_key(all) {
            assert forall|i: int| 0 <= i < before.len() implies serves(
                current,
                (#[trigger] before[i]).service,
            ) by {
                assert(serves(current, historical[i].service));
            }
            assert forall|i: int, j: int| 0 <= i < j < fewer.len() implies !((
            #[trigger] fewer[i]).service == (#[trigger] fewer[j]).service && fewer[i].key_id
                == fewer[j].key_id) by {
                assert(all[i] == fewer[i] && all[j] == fewer[j]);
            }
            if pins_pair(fewer, last.service, last.key_id) {
                let i = choose|i: int|
                    0 <= i < fewer.len() && (#[trigger] fewer[i]).service == last.service
                        && fewer[i].key_id == last.key_id;
                assert(all[i] == fewer[i] && all[all.len() - 1] == last);
            }
        }
        if crate::checkpoint::historical_check(current, historical) is Ok {
            assert forall|i: int| 0 <= i < historical.len() implies serves(
                current,
                (#[trigger] historical[i]).service,
            ) by {
                if i < before.len() {
                    assert(serves(current, before[i].service));
                }
            }
            assert forall|i: int, j: int| 0 <= i < j < all.len() implies !((
            #[trigger] all[i]).service == (#[trigger] all[j]).service && all[i].key_id
                == all[j].key_id) by {
                assert(all[i] == fewer[i]);
                if j < fewer.len() {
                    assert(all[j] == fewer[j]);
                }
            }
        }
    }
}

proof fn lemma_handovers_accepted(trust: TrustView)
    ensures
        crate::checkpoint::handovers_check(trust.current, trust.historical, trust.handovers)
            is Ok <==> handovers_join_pinned_keys(trust) && one_handover_into_each_key(
            trust.handovers,
        ),
    decreases trust.handovers.len(),
{
    if trust.handovers.len() > 0 {
        let handovers = trust.handovers;
        let before = handovers.drop_last();
        let h = handovers.last();
        let fewer = TrustView { handovers: before, ..trust };
        let all = trust.current + trust.historical;
        lemma_handovers_accepted(fewer);
        lemma_live_key_listed(trust.current, h.service);
        lemma_pinned_key_listed(all, h.service, h.old_key_id);
        lemma_pinned_key_listed(all, h.service, h.new_key_id);
        lemma_handover_listed(before, h.service, h.new_key_id);
        assert(handovers[handovers.len() - 1] == h);
        if handovers_join_pinned_keys(trust) && one_handover_into_each_key(handovers) {
            assert(handovers_join_pinned_keys(fewer)) by {
                assert forall|i: int| #![trigger fewer.handovers[i]] 0 <= i < fewer.handovers.len() implies ({
                    let g = fewer.handovers[i];
                    &&& serves(fewer.current, g.service)
                    &&& g.old_key_id != g.new_key_id
                    &&& pins_pair(fewer.current + fewer.historical, g.service, g.old_key_id)
                    &&& pins_pair(fewer.current + fewer.historical, g.service, g.new_key_id)
                }) by {
                    assert(trust.handovers[i] == fewer.handovers[i]);
                }
            }
            assert forall|i: int, j: int| 0 <= i < j < before.len() implies !((
            #[trigger] before[i]).service == (#[trigger] before[j]).service
                && before[i].new_key_id == before[j].new_key_id) by {
                assert(handovers[i] == before[i] && handovers[j] == before[j]);
            }
            if hands_into(before, h.service, h.new_key_id) {
                let i = choose|i: int|
                    0 <= i < before.len() && (#[trigger] before[i]).service == h.service
                        && before[i].new_key_id == h.new_key_id;
                assert(handovers[i] == before[i]);
            }
        }
        if crate::checkpoint::handovers_check(trust.current, trust.historical, handovers) is Ok {
            assert forall|i: int| #![trigger trust.handovers[i]] 0 <= i < trust.handovers.len() implies ({
                let g = trust.handovers[i];
                &&& serves(trust.current, g.service)
                &&& g.old_key_id != g.new_key_id
                &&& pins_pair(trust.current + trust.historical, g.service, g.old_key_id)
                &&& pins_pair(trust.current + trust.historical, g.service, g.new_key_id)
            }) by {
                if i < before.len() {
                    assert(fewer.handovers[i] == trust.handovers[i]);
                }
            }
            assert forall|i: int, j: int| 0 <= i < j < handovers.len() implies !((
            #[trigger] handovers[i]).service == (#[trigger] handovers[j]).service
                && handovers[i].new_key_id == handovers[j].new_key_id) by {
                assert(handovers[i] == before[i]);
                if j < before.len() {
                    assert(handovers[j] == before[j]);
                }
            }
        }
    }
}

/// Keys and transitions are accepted exactly if no service has two live keys, each historical key
/// belongs to a service with a live key, no key ID of a service is pinned twice, and each
/// handover joins two different pinned keys of a service, with one handover into each key.
pub proof fn law_trust_is_accepted_exactly(trust: TrustView)
    ensures
        trust_check(trust) is Ok <==> {
            &&& one_pin_each(trust.current)
            &&& forall|i: int|
                0 <= i < trust.historical.len() ==> serves(
                    trust.current,
                    (#[trigger] trust.historical[i]).service,
                )
            &&& one_pin_for_each_key(trust.current + trust.historical)
            &&& handovers_join_pinned_keys(trust)
            &&& one_handover_into_each_key(trust.handovers)
        },
{
    lemma_current_accepted(trust.current);
    if one_pin_each(trust.current) {
        lemma_historical_accepted(trust.current, trust.historical);
        lemma_handovers_accepted(trust);
    }
}

proof fn lemma_live_key_is(current: Seq<PinView>, i: int)
    requires
        one_pin_each(current),
        0 <= i < current.len(),
    ensures
        live_key(current, current[i].service) == Some(current[i].key_id),
    decreases current.len(),
{
    let before = current.drop_last();
    if i < before.len() {
        assert forall|a: int, b: int| 0 <= a < b < before.len() implies (
        #[trigger] before[a]).service != (#[trigger] before[b]).service by {
            assert(current[a].service != current[b].service);
        }
        lemma_live_key_is(before, i);
        assert(current[i].service != current[current.len() - 1].service);
    }
}

proof fn lemma_pinned_key_is(pins: Seq<PinView>, i: int)
    requires
        one_pin_for_each_key(pins),
        0 <= i < pins.len(),
    ensures
        pinned_key(pins, pins[i].service, pins[i].key_id) == Some(pins[i].key),
    decreases pins.len(),
{
    let before = pins.drop_last();
    if i < before.len() {
        assert forall|a: int, b: int| 0 <= a < b < before.len() implies !((
        #[trigger] before[a]).service == (#[trigger] before[b]).service && before[a].key_id
            == before[b].key_id) by {
            assert(pins[a] == before[a] && pins[b] == before[b]);
        }
        lemma_pinned_key_is(before, i);
        assert(pins[i] == before[i]);
        assert(!(pins[i].service == pins[pins.len() - 1].service && pins[i].key_id
            == pins[pins.len() - 1].key_id));
    }
}

proof fn lemma_handover_is(handovers: Seq<HandoverView>, i: int)
    requires
        one_handover_into_each_key(handovers),
        0 <= i < handovers.len(),
    ensures
        handover_into(handovers, handovers[i].service, handovers[i].new_key_id) == Some(
            handovers[i],
        ),
    decreases handovers.len(),
{
    let before = handovers.drop_last();
    if i < before.len() {
        assert forall|a: int, b: int| 0 <= a < b < before.len() implies !((
        #[trigger] before[a]).service == (#[trigger] before[b]).service && before[a].new_key_id
            == before[b].new_key_id) by {
            assert(handovers[a] == before[a] && handovers[b] == before[b]);
        }
        lemma_handover_is(before, i);
        assert(handovers[i] == before[i]);
        assert(!(handovers[i].service == handovers[handovers.len() - 1].service
            && handovers[i].new_key_id == handovers[handovers.len() - 1].new_key_id));
    }
}

/// The head is signed under the key of a pin for its service and key ID.
pub open spec fn signed_under(pin: PinView, head: JournalHeadView) -> bool {
    &&& pin.service == head.service_id
    &&& pin.key_id == head.key_id
    &&& head.signature.len() == 64
    &&& crate::crypto::ed25519_verifies(
        pin.key,
        crate::audit::head_message(head),
        head.signature,
    )
}

/// A head is retained exactly if one of the pins, live or historical, is of its service and key
/// ID and its signature verifies under that pin's key. It is unpinned exactly if there is no such
/// pin, and otherwise its signature is at fault.
pub proof fn law_retained_head_is_accepted_exactly(trust: TrustView, head: JournalHeadView)
    requires
        trust_check(trust) is Ok,
    ensures
        ({
            let pins = trust.current + trust.historical;
            &&& retained_check(trust, head) is Ok <==> exists|i: int|
                0 <= i < pins.len() && signed_under(#[trigger] pins[i], head)
            &&& retained_check(trust, head) == Err::<(), CheckpointErrorView>(
                CheckpointErrorView::UnpinnedPeer,
            ) <==> !pins_pair(pins, head.service_id, head.key_id)
            &&& retained_check(trust, head) is Err ==> (retained_check(trust, head)->Err_0
                == CheckpointErrorView::UnpinnedPeer || retained_check(trust, head)->Err_0
                == CheckpointErrorView::InvalidSignature)
        }),
{
    let pins = trust.current + trust.historical;
    law_trust_is_accepted_exactly(trust);
    lemma_pinned_key_listed(pins, head.service_id, head.key_id);
    if pins_pair(pins, head.service_id, head.key_id) {
        let i = choose|i: int|
            0 <= i < pins.len() && (#[trigger] pins[i]).service == head.service_id && pins[i].key_id
                == head.key_id;
        lemma_pinned_key_is(pins, i);
        if retained_check(trust, head) is Ok {
            assert(signed_under(pins[i], head));
        }
    }
    if exists|i: int| 0 <= i < pins.len() && signed_under(#[trigger] pins[i], head) {
        let i = choose|i: int| 0 <= i < pins.len() && signed_under(#[trigger] pins[i], head);
        lemma_pinned_key_is(pins, i);
    }
}

/// A head is accepted as new exactly if it is signed under the live key of its service. It is
/// unpinned exactly if its service has no live key, and otherwise its signature is at fault.
pub proof fn law_live_head_is_accepted_exactly(trust: TrustView, head: JournalHeadView)
    requires
        trust_check(trust) is Ok,
    ensures
        live_check(trust, head) is Ok <==> exists|i: int|
            0 <= i < trust.current.len() && signed_under(#[trigger] trust.current[i], head),
        live_check(trust, head) == Err::<(), CheckpointErrorView>(
            CheckpointErrorView::UnpinnedPeer,
        ) <==> !serves(trust.current, head.service_id),
        live_check(trust, head) is Err ==> (live_check(trust, head)->Err_0
            == CheckpointErrorView::UnpinnedPeer || live_check(trust, head)->Err_0
            == CheckpointErrorView::InvalidSignature),
{
    let pins = trust.current + trust.historical;
    law_trust_is_accepted_exactly(trust);
    lemma_live_key_listed(trust.current, head.service_id);
    if serves(trust.current, head.service_id) {
        let i = choose|i: int|
            0 <= i < trust.current.len() && (#[trigger] trust.current[i]).service
                == head.service_id;
        lemma_live_key_is(trust.current, i);
        assert(pins[i] == trust.current[i]);
        lemma_pinned_key_is(pins, i);
        if live_check(trust, head) is Ok {
            assert(signed_under(trust.current[i], head));
        }
    }
    if exists|i: int|
        0 <= i < trust.current.len() && signed_under(#[trigger] trust.current[i], head) {
        let i = choose|i: int|
            0 <= i < trust.current.len() && signed_under(#[trigger] trust.current[i], head);
        lemma_live_key_is(trust.current, i);
        assert(pins[i] == trust.current[i]);
        lemma_pinned_key_is(pins, i);
    }
}

/// A handover that packaging listed leads from one head's key to another key of its service, at
/// exactly that head.
pub open spec fn listed_step(
    handovers: Seq<HandoverView>,
    from: JournalHeadView,
    key_id: Seq<char>,
) -> bool {
    exists|i: int| #![trigger handovers[i]]
        0 <= i < handovers.len() && handovers[i].service == from.service_id
            && handovers[i].old_key_id == from.key_id && handovers[i].new_key_id == key_id
            && handovers[i].sequence == from.sequence && handovers[i].head_hash == from.head_hash
}

proof fn lemma_listed_step(trust: TrustView, from: JournalHeadView, key_id: Seq<char>)
    requires
        trust_check(trust) is Ok,
    ensures
        listed_step(trust.handovers, from, key_id) <==> (handover_into(
            trust.handovers,
            from.service_id,
            key_id,
        ) matches Some(h) && h.old_key_id == from.key_id && h.sequence == from.sequence
            && h.head_hash == from.head_hash),
        listed_step(trust.handovers, from, key_id) ==> from.key_id != key_id,
{
    law_trust_is_accepted_exactly(trust);
    lemma_handover_listed(trust.handovers, from.service_id, key_id);
    if listed_step(trust.handovers, from, key_id) {
        let i = choose|i: int| #![trigger trust.handovers[i]]
            0 <= i < trust.handovers.len() && trust.handovers[i].service == from.service_id
                && trust.handovers[i].old_key_id == from.key_id && trust.handovers[i].new_key_id
                == key_id && trust.handovers[i].sequence == from.sequence
                && trust.handovers[i].head_hash == from.head_hash;
        lemma_handover_is(trust.handovers, i);
    }
    if hands_into(trust.handovers, from.service_id, key_id) {
        let i = choose|i: int|
            0 <= i < trust.handovers.len() && (#[trigger] trust.handovers[i]).service
                == from.service_id && trust.handovers[i].new_key_id == key_id;
        lemma_handover_is(trust.handovers, i);
    }
}

/// The step from one head to another is authorized exactly if both are of one service and one
/// sequence, and packaging listed the handover between their keys at the old head.
pub proof fn law_handover_is_authorized_exactly(
    trust: TrustView,
    old_head: JournalHeadView,
    new_head: JournalHeadView,
)
    requires
        trust_check(trust) is Ok,
    ensures
        authorized_handover(trust, old_head, new_head) <==> old_head.service_id
            == new_head.service_id && old_head.sequence == new_head.sequence && listed_step(
            trust.handovers,
            old_head,
            new_head.key_id,
        ),
        crate::peer_trust::same_head_handover(trust, old_head, new_head) <==> old_head.service_id
            == new_head.service_id && old_head.sequence == new_head.sequence && old_head.head_hash
            == new_head.head_hash && listed_step(trust.handovers, old_head, new_head.key_id),
{
    lemma_listed_step(trust, old_head, new_head.key_id);
}

/// The record is the last of its service.
pub open spec fn is_last_of_service(records: Seq<RecordView>, at: int) -> bool {
    0 <= at < records.len() && forall|i: int|
        at < i < records.len() ==> (#[trigger] records[i]).head.service_id
            != records[at].head.service_id
}

proof fn lemma_last_is(records: Seq<RecordView>, at: int)
    requires
        is_last_of_service(records, at),
    ensures
        last_of(records, records[at].head.service_id) == Some(records[at].head),
{
    let service = records[at].head.service_id;
    let found = crate::chain::lemma_last_of(records, service);
    if found < at {
        assert(records[at].head.service_id != service);
    } else if at < found {
        assert(records[found].head.service_id != service);
    }
}

/// The first head of a service may follow.
pub proof fn law_first_head_of_a_service_is_published(
    trust: TrustView,
    records: Seq<RecordView>,
    head: JournalHeadView,
)
    requires
        forall|i: int|
            0 <= i < records.len() ==> (#[trigger] records[i]).head.service_id != head.service_id,
    ensures
        append_decision(trust, records, head) == Ok::<AppendDecision, CheckpointErrorView>(
            AppendDecision::Publish,
        ),
{
    let at = crate::chain::lemma_last_of(records, head.service_id);
}

/// Behind the last head of its service a head may follow exactly if it has the same key and a
/// greater sequence, or if packaging listed the handover to its key at exactly that head and it
/// is the same sequence and hash. The last head itself is present already. Under the same key a
/// lower sequence is a rollback. Everything else is a conflict.
pub proof fn law_append_is_decided_by_the_last_head(
    trust: TrustView,
    records: Seq<RecordView>,
    head: JournalHeadView,
    at: int,
)
    requires
        trust_check(trust) is Ok,
        is_last_of_service(records, at),
        records[at].head.service_id == head.service_id,
    ensures
        ({
            let latest = records[at].head;
            let r = append_decision(trust, records, head);
            let steps = listed_step(trust.handovers, latest, head.key_id) && head.sequence
                == latest.sequence;
            &&& r == Ok::<AppendDecision, CheckpointErrorView>(AppendDecision::Publish) <==> (
            latest.key_id == head.key_id && head.sequence > latest.sequence) || (steps
                && head.head_hash == latest.head_hash)
            &&& r == Ok::<AppendDecision, CheckpointErrorView>(AppendDecision::AlreadyPresent)
                <==> latest == head
            &&& r == Err::<AppendDecision, CheckpointErrorView>(
                CheckpointErrorView::SequenceRollback,
            ) <==> latest.key_id == head.key_id && head.sequence < latest.sequence
            &&& r == Err::<AppendDecision, CheckpointErrorView>(
                CheckpointErrorView::SequenceConflict,
            ) <==> (latest.key_id != head.key_id && !steps) || (head.sequence == latest.sequence
                && head != latest && !(steps && head.head_hash == latest.head_hash))
        }),
{
    lemma_last_is(records, at);
    let latest = records[at].head;
    lemma_listed_step(trust, latest, head.key_id);
    law_handover_is_authorized_exactly(trust, latest, head);
}

/// One record is the next of its service behind another.
pub open spec fn follows(records: Seq<RecordView>, p: int, i: int) -> bool {
    &&& 0 <= p < i < records.len()
    &&& records[p].head.service_id == records[i].head.service_id
    &&& forall|m: int|
        p < m < i ==> (#[trigger] records[m]).head.service_id != records[i].head.service_id
}

/// At a record its service steps from another key into this one.
pub open spec fn steps_in(
    records: Seq<RecordView>,
    q: int,
    service: Seq<char>,
    key_id: Seq<char>,
) -> bool {
    &&& records[q].head.service_id == service
    &&& records[q].head.key_id == key_id
    &&& exists|p: int| #[trigger] follows(records, p, q) && records[p].head.key_id != key_id
}

/// A record continues the one before it: under one key with a greater sequence, or as the very
/// same head; under another key by a listed handover at exactly the head before it, once for each
/// key, and with that head's hash where it keeps the sequence.
pub open spec fn links_to(trust: TrustView, records: Seq<RecordView>, p: int, i: int) -> bool {
    let before = records[p].head;
    let head = records[i].head;
    &&& before.sequence <= head.sequence
    &&& before.key_id == head.key_id ==> before.sequence < head.sequence || before == head
    &&& before.key_id != head.key_id ==> {
        &&& listed_step(trust.handovers, before, head.key_id)
        &&& before.sequence == head.sequence ==> before.head_hash == head.head_hash
        &&& !exists|q: int|
            0 <= q < i && #[trigger] steps_in(records, q, head.service_id, head.key_id)
    }
}

proof fn lemma_follows_last(records: Seq<RecordView>, i: int) -> (p: int)
    requires
        0 <= i < records.len(),
    ensures
        last_of(records.take(i), records[i].head.service_id) is None ==> forall|q: int|
            !#[trigger] follows(records, q, i),
        last_of(records.take(i), records[i].head.service_id) matches Some(head) ==> follows(
            records,
            p,
            i,
        ) && records[p].head == head && forall|q: int| #[trigger]
            follows(records, q, i) ==> q == p,
{
    let service = records[i].head.service_id;
    let before = records.take(i);
    let p = crate::chain::lemma_last_of(before, service);
    match last_of(before, service) {
        None => {
            assert forall|q: int| !#[trigger] follows(records, q, i) by {
                if follows(records, q, i) {
                    assert(before[q] == records[q]);
                }
            }
        },
        Some(head) => {
            assert(before[p] == records[p]);
            assert forall|m: int| p < m < i implies (#[trigger] records[m]).head.service_id
                != records[i].head.service_id by {
                assert(before[m] == records[m]);
            }
            assert forall|q: int| #[trigger] follows(records, q, i) implies q == p by {
                if q < p {
                    assert(records[p].head.service_id != records[i].head.service_id);
                } else if p < q {
                    assert(before[q] == records[q]);
                }
            }
        },
    }
    p
}

proof fn lemma_follows_in_front(records: Seq<RecordView>, n: int, p: int, i: int)
    requires
        0 <= i < n <= records.len(),
    ensures
        follows(records.take(n), p, i) <==> follows(records, p, i),
{
    let front = records.take(n);
    if follows(records, p, i) {
        assert forall|m: int| p < m < i implies (#[trigger] front[m]).head.service_id
            != front[i].head.service_id by {
            assert(front[m] == records[m]);
        }
    }
    if follows(front, p, i) {
        assert forall|m: int| p < m < i implies (#[trigger] records[m]).head.service_id
            != records[i].head.service_id by {
            assert(front[m] == records[m]);
        }
    }
}

proof fn lemma_steps_in_front(
    records: Seq<RecordView>,
    n: int,
    q: int,
    service: Seq<char>,
    key_id: Seq<char>,
)
    requires
        0 <= q < n <= records.len(),
    ensures
        steps_in(records.take(n), q, service, key_id) <==> steps_in(records, q, service, key_id),
{
    let front = records.take(n);
    if steps_in(records, q, service, key_id) {
        let p = choose|p: int| #[trigger]
            follows(records, p, q) && records[p].head.key_id != key_id;
        lemma_follows_in_front(records, n, p, q);
        assert(front[p] == records[p]);
    }
    if steps_in(front, q, service, key_id) {
        let p = choose|p: int| #[trigger] follows(front, p, q) && front[p].head.key_id != key_id;
        lemma_follows_in_front(records, n, p, q);
        assert(front[p] == records[p]);
    }
}

proof fn lemma_entered_is(records: Seq<RecordView>, service: Seq<char>, key_id: Seq<char>)
    ensures
        crate::chain::entered(records, service, key_id) <==> exists|q: int|
            0 <= q < records.len() && #[trigger] steps_in(records, q, service, key_id),
    decreases records.len(),
{
    if records.len() > 0 {
        let n = records.len() - 1;
        let before = records.drop_last();
        assert(before =~= records.take(n));
        lemma_entered_is(before, service, key_id);
        let p = lemma_follows_last(records, n);
        let head = records.last().head;
        let here = head.service_id == service && head.key_id == key_id && last_of(before, service)
            is Some && last_of(before, service)->Some_0.key_id != key_id;
        if here {
            assert(follows(records, p, n));
            assert(steps_in(records, n, service, key_id));
        }
        if steps_in(records, n, service, key_id) {
            let q = choose|q: int| #[trigger]
                follows(records, q, n) && records[q].head.key_id != key_id;
            assert(here);
        }
        if crate::chain::entered(before, service, key_id) {
            let q = choose|q: int|
                0 <= q < before.len() && #[trigger] steps_in(before, q, service, key_id);
            lemma_steps_in_front(records, n, q, service, key_id);
            assert(steps_in(records, q, service, key_id));
        }
        if exists|q: int| 0 <= q < records.len() && #[trigger] steps_in(records, q, service, key_id) {
            let q = choose|q: int|
                0 <= q < records.len() && #[trigger] steps_in(records, q, service, key_id);
            if q < n {
                lemma_steps_in_front(records, n, q, service, key_id);
                assert(steps_in(before, q, service, key_id));
            }
        }
    }
}

proof fn lemma_links_in_front(trust: TrustView, records: Seq<RecordView>, n: int, p: int, i: int)
    requires
        0 <= p < i < n <= records.len(),
    ensures
        links_to(trust, records.take(n), p, i) <==> links_to(trust, records, p, i),
{
    let front = records.take(n);
    let head = records[i].head;
    assert(front[p] == records[p] && front[i] == records[i]);
    if exists|q: int| 0 <= q < i && #[trigger] steps_in(records, q, head.service_id, head.key_id) {
        let q = choose|q: int|
            0 <= q < i && #[trigger] steps_in(records, q, head.service_id, head.key_id);
        lemma_steps_in_front(records, n, q, head.service_id, head.key_id);
        assert(steps_in(front, q, head.service_id, head.key_id));
    }
    if exists|q: int| 0 <= q < i && #[trigger] steps_in(front, q, head.service_id, head.key_id) {
        let q = choose|q: int|
            0 <= q < i && #[trigger] steps_in(front, q, head.service_id, head.key_id);
        lemma_steps_in_front(records, n, q, head.service_id, head.key_id);
        assert(steps_in(records, q, head.service_id, head.key_id));
    }
}

proof fn lemma_continues_is(trust: TrustView, records: Seq<RecordView>, i: int)
    requires
        trust_check(trust) is Ok,
        0 <= i < records.len(),
    ensures
        crate::chain::continues(trust, records.take(i), records[i].head) is Ok <==> forall|p: int|
            #[trigger] follows(records, p, i) ==> links_to(trust, records, p, i),
{
    let head = records[i].head;
    let front = records.take(i);
    let p = lemma_follows_last(records, i);
    if last_of(front, head.service_id) is Some {
        let before = records[p].head;
        lemma_listed_step(trust, before, head.key_id);
        lemma_entered_is(front, head.service_id, head.key_id);
        if exists|q: int| 0 <= q < i && #[trigger] steps_in(records, q, head.service_id, head.key_id) {
            let q = choose|q: int|
                0 <= q < i && #[trigger] steps_in(records, q, head.service_id, head.key_id);
            lemma_steps_in_front(records, i, q, head.service_id, head.key_id);
            assert(steps_in(front, q, head.service_id, head.key_id));
        }
        if crate::chain::entered(front, head.service_id, head.key_id) {
            let q = choose|q: int|
                0 <= q < front.len() && #[trigger] steps_in(
                    front,
                    q,
                    head.service_id,
                    head.key_id,
                );
            lemma_steps_in_front(records, i, q, head.service_id, head.key_id);
            assert(steps_in(records, q, head.service_id, head.key_id));
        }
        assert(links_to(trust, records, p, i) <==> crate::chain::continues(trust, front, head) is Ok);
        if crate::chain::continues(trust, front, head) is Ok {
            assert forall|q: int| #[trigger] follows(records, q, i) implies links_to(
                trust,
                records,
                q,
                i,
            ) by {}
        }
    }
}

/// Records are unbroken chains exactly if each continues the one before it of its service.
pub proof fn law_chains_are_accepted_exactly(trust: TrustView, records: Seq<RecordView>)
    requires
        trust_check(trust) is Ok,
    ensures
        chain_check(trust, records) is Ok <==> forall|p: int, i: int| #[trigger]
            follows(records, p, i) ==> links_to(trust, records, p, i),
    decreases records.len(),
{
    if records.len() > 0 {
        let n = records.len() - 1;
        let before = records.drop_last();
        assert(before =~= records.take(n));
        law_chains_are_accepted_exactly(trust, before);
        lemma_continues_is(trust, records, n);
        if chain_check(trust, records) is Ok {
            assert forall|p: int, i: int| #[trigger] follows(records, p, i) implies links_to(
                trust,
                records,
                p,
                i,
            ) by {
                if i < n {
                    lemma_follows_in_front(records, n, p, i);
                    assert(follows(before, p, i));
                    lemma_links_in_front(trust, records, n, p, i);
                }
            }
        }
        if forall|p: int, i: int| #[trigger] follows(records, p, i) ==> links_to(trust, records, p, i) {
            assert forall|p: int, i: int| #[trigger] follows(before, p, i) implies links_to(
                trust,
                before,
                p,
                i,
            ) by {
                lemma_follows_in_front(records, n, p, i);
                assert(follows(records, p, i));
                lemma_links_in_front(trust, records, n, p, i);
            }
        }
    }
}

} // verus!
