//! What is asked of a frame, in terms of its bytes and of the tree that it holds.

use vstd::prelude::*;
use vstd::utf8::*;

use crate::codec::{
    canonical, entries_shape, frame, frame_of, items_shape, jcs_encoding, json_parsed, shape,
    unframe,
};
use crate::error::{WireErrorCode, WireErrorView};
use crate::json::JsonView;

verus! {

/// A tree stands so many levels inside another: as an item of an array or as the value of a
/// field.
pub open spec fn inside(tree: JsonView, part: JsonView, levels: nat) -> bool
    decreases levels,
{
    if levels == 0 {
        part == tree
    } else {
        match tree {
            JsonView::Array(items) => exists|i: int|
                0 <= i < items.len() && inside(#[trigger] items[i], part, (levels - 1) as nat),
            JsonView::Object(entries) => exists|i: int|
                0 <= i < entries.len() && inside(
                    (#[trigger] entries[i]).1,
                    part,
                    (levels - 1) as nat,
                ),
            _ => false,
        }
    }
}

/// A text, a list and the keys of an object are no longer than allowed. Nothing is asked of the
/// number of an object's fields.
pub open spec fn fits(part: JsonView) -> bool {
    match part {
        JsonView::Text(text) => encode_utf8(text).len() <= 262144,
        JsonView::Array(items) => items.len() <= 256,
        JsonView::Object(entries) => forall|i: int|
            0 <= i < entries.len() ==> encode_utf8((#[trigger] entries[i]).0).len() <= 262144,
        _ => true,
    }
}

proof fn lemma_items_accepted(items: Seq<JsonView>, depth: nat)
    ensures
        items_shape(items, depth) is Ok <==> forall|i: int|
            0 <= i < items.len() ==> shape(#[trigger] items[i], depth) is Ok,
    decreases items.len(),
{
    if items.len() > 0 {
        let before = items.subrange(0, items.len() - 1);
        lemma_items_accepted(before, depth);
        if items_shape(items, depth) is Ok {
            assert forall|i: int| 0 <= i < items.len() implies shape(
                #[trigger] items[i],
                depth,
            ) is Ok by {
                if i < before.len() {
                    assert(before[i] == items[i]);
                }
            }
        }
        if forall|i: int| 0 <= i < items.len() ==> shape(#[trigger] items[i], depth) is Ok {
            assert forall|i: int| 0 <= i < before.len() implies shape(
                #[trigger] before[i],
                depth,
            ) is Ok by {
                assert(before[i] == items[i]);
            }
            assert(shape(items[items.len() - 1], depth) is Ok);
        }
    }
}

proof fn lemma_entries_accepted(entries: Seq<(Seq<char>, JsonView)>, depth: nat)
    ensures
        entries_shape(entries, depth) is Ok <==> forall|i: int|
            0 <= i < entries.len() ==> encode_utf8((#[trigger] entries[i]).0).len() <= 262144
                && shape(entries[i].1, depth) is Ok,
    decreases entries.len(),
{
    if entries.len() > 0 {
        let before = entries.subrange(0, entries.len() - 1);
        lemma_entries_accepted(before, depth);
        if entries_shape(entries, depth) is Ok {
            assert forall|i: int| 0 <= i < entries.len() implies encode_utf8(
                (#[trigger] entries[i]).0,
            ).len() <= 262144 && shape(entries[i].1, depth) is Ok by {
                if i < before.len() {
                    assert(before[i] == entries[i]);
                }
            }
        }
        if forall|i: int|
            0 <= i < entries.len() ==> encode_utf8((#[trigger] entries[i]).0).len() <= 262144
                && shape(entries[i].1, depth) is Ok {
            assert forall|i: int| 0 <= i < before.len() implies encode_utf8(
                (#[trigger] before[i]).0,
            ).len() <= 262144 && shape(before[i].1, depth) is Ok by {
                assert(before[i] == entries[i]);
            }
            assert(shape(entries[entries.len() - 1].1, depth) is Ok);
        }
    }
}

/// What an accepted tree holds fits, and lies within the depth.
proof fn lemma_accepted_parts_fit(tree: JsonView, depth: nat, part: JsonView, levels: nat)
    requires
        shape(tree, depth) is Ok,
        inside(tree, part, levels),
    ensures
        fits(part),
        depth + levels <= 32,
    decreases levels,
{
    match tree {
        JsonView::Array(items) => {
            lemma_items_accepted(items, depth + 1);
            if levels > 0 {
                let i = choose|i: int|
                    0 <= i < items.len() && inside(
                        #[trigger] items[i],
                        part,
                        (levels - 1) as nat,
                    );
                lemma_accepted_parts_fit(items[i], depth + 1, part, (levels - 1) as nat);
            }
        },
        JsonView::Object(entries) => {
            lemma_entries_accepted(entries, depth + 1);
            if levels > 0 {
                let i = choose|i: int|
                    0 <= i < entries.len() && inside(
                        (#[trigger] entries[i]).1,
                        part,
                        (levels - 1) as nat,
                    );
                lemma_accepted_parts_fit(entries[i].1, depth + 1, part, (levels - 1) as nat);
            }
        },
        _ => {},
    }
}

/// A tree whose parts fit and lie within the depth is accepted.
proof fn lemma_fitting_parts_are_accepted(tree: JsonView, depth: nat)
    requires
        forall|part: JsonView, levels: nat| #[trigger]
            inside(tree, part, levels) ==> fits(part) && depth + levels <= 32,
    ensures
        shape(tree, depth) is Ok,
    decreases tree,
{
    assert(inside(tree, tree, 0));
    match tree {
        JsonView::Array(items) => {
            lemma_items_accepted(items, depth + 1);
            assert forall|i: int| 0 <= i < items.len() implies shape(
                #[trigger] items[i],
                depth + 1,
            ) is Ok by {
                assert forall|part: JsonView, levels: nat| #[trigger]
                    inside(items[i], part, levels) implies fits(part) && depth + 1 + levels
                    <= 32 by {
                    assert(inside(items[i], part, ((levels + 1) - 1) as nat));
                    assert(inside(tree, part, levels + 1));
                }
                lemma_fitting_parts_are_accepted(items[i], depth + 1);
            }
        },
        JsonView::Object(entries) => {
            lemma_entries_accepted(entries, depth + 1);
            assert forall|i: int| 0 <= i < entries.len() implies encode_utf8(
                (#[trigger] entries[i]).0,
            ).len() <= 262144 && shape(entries[i].1, depth + 1) is Ok by {
                assert forall|part: JsonView, levels: nat| #[trigger]
                    inside(entries[i].1, part, levels) implies fits(part) && depth + 1 + levels
                    <= 32 by {
                    assert(inside(entries[i].1, part, ((levels + 1) - 1) as nat));
                    assert(inside(tree, part, levels + 1));
                }
                assert(decreases_to!(tree => entries[i].1));
                lemma_fitting_parts_are_accepted(entries[i].1, depth + 1);
            }
        },
        _ => {},
    }
}

/// A tree is within the limits exactly if no part of it lies more than 31 levels inside, and every
/// text, every key and every list in it is within its own limit, whatever the number of an
/// object's fields. What is refused is refused as exceeding a limit.
pub proof fn law_shape_is_accepted_exactly(tree: JsonView)
    ensures
        shape(tree, 1) is Ok <==> forall|part: JsonView, levels: nat| #[trigger]
            inside(tree, part, levels) ==> fits(part) && levels <= 31,
        shape(tree, 1) matches Err(e) ==> e.code == WireErrorCode::LimitExceededFrame,
{
    lemma_shape_code(tree, 1);
    if shape(tree, 1) is Ok {
        assert forall|part: JsonView, levels: nat| #[trigger] inside(tree, part, levels) implies fits(
            part,
        ) && levels <= 31 by {
            lemma_accepted_parts_fit(tree, 1, part, levels);
        }
    }
    if forall|part: JsonView, levels: nat| #[trigger]
        inside(tree, part, levels) ==> fits(part) && levels <= 31 {
        lemma_fitting_parts_are_accepted(tree, 1);
    }
}

/// A part of a tree that begins at some level is within the limits exactly if all that it holds
/// fits and lies at level 32 at most.
pub proof fn law_shape_is_accepted_from_any_level(tree: JsonView, depth: nat)
    ensures
        shape(tree, depth) is Ok <==> forall|part: JsonView, levels: nat| #[trigger]
            inside(tree, part, levels) ==> fits(part) && depth + levels <= 32,
        shape(tree, depth) matches Err(e) ==> e.code == WireErrorCode::LimitExceededFrame,
{
    lemma_shape_code(tree, depth);
    if shape(tree, depth) is Ok {
        assert forall|part: JsonView, levels: nat| #[trigger] inside(tree, part, levels) implies fits(
            part,
        ) && depth + levels <= 32 by {
            lemma_accepted_parts_fit(tree, depth, part, levels);
        }
    }
    if forall|part: JsonView, levels: nat| #[trigger]
        inside(tree, part, levels) ==> fits(part) && depth + levels <= 32 {
        lemma_fitting_parts_are_accepted(tree, depth);
    }
}

proof fn lemma_shape_code(tree: JsonView, depth: nat)
    ensures
        shape(tree, depth) matches Err(e) ==> e.code == WireErrorCode::LimitExceededFrame,
    decreases tree, 0nat,
{
    match tree {
        JsonView::Array(items) => {
            lemma_items_code(items, depth + 1);
        },
        JsonView::Object(entries) => {
            lemma_entries_code(entries, depth + 1);
        },
        _ => {},
    }
}

proof fn lemma_items_code(items: Seq<JsonView>, depth: nat)
    ensures
        items_shape(items, depth) matches Err(e) ==> e.code == WireErrorCode::LimitExceededFrame,
    decreases items, items.len(),
{
    if items.len() > 0 {
        lemma_items_code(items.subrange(0, items.len() - 1), depth);
        lemma_shape_code(items[items.len() - 1], depth);
    }
}

proof fn lemma_entries_code(entries: Seq<(Seq<char>, JsonView)>, depth: nat)
    ensures
        entries_shape(entries, depth) matches Err(e) ==> e.code
            == WireErrorCode::LimitExceededFrame,
    decreases entries, entries.len(),
{
    if entries.len() > 0 {
        lemma_entries_code(entries.subrange(0, entries.len() - 1), depth);
        lemma_shape_code(entries[entries.len() - 1].1, depth);
    }
}

/// The number that four bytes announce, the most significant first.
pub open spec fn announced(bytes: Seq<u8>) -> int {
    0x100_0000 * bytes[0] + 0x1_0000 * bytes[1] + 0x100 * bytes[2] + bytes[3]
}

pub proof fn lemma_announced(bytes: Seq<u8>)
    requires
        bytes.len() >= 4,
    ensures
        crate::bytes::be_value(bytes.take(4)) == announced(bytes),
{
    reveal_with_fuel(crate::bytes::be_value, 5);
    let b = bytes.take(4);
    assert(b.drop_last() =~= seq![b[0], b[1], b[2]]);
    assert(b.drop_last().drop_last() =~= seq![b[0], b[1]]);
    assert(b.drop_last().drop_last().drop_last() =~= seq![b[0]]);
    assert(b.drop_last().drop_last().drop_last().drop_last() =~= Seq::<u8>::empty());
}

/// A frame is read exactly if its first four bytes announce the rest of it, which is no longer
/// than 1 MiB, and that rest is the canonical form of a tree within the limits. That tree is what
/// is read.
pub proof fn law_frame_is_accepted_exactly(bytes: Seq<u8>, tree: JsonView)
    ensures
        unframe(bytes) == Ok::<JsonView, WireErrorView>(tree) <==> {
            let payload = bytes.skip(4);
            &&& bytes.len() >= 4
            &&& announced(bytes) == bytes.len() - 4
            &&& bytes.len() - 4 <= 1048576
            &&& json_parsed(payload) == Ok::<JsonView, Seq<char>>(tree)
            &&& shape(tree, 1) is Ok
            &&& jcs_encoding(tree) == Ok::<Seq<u8>, Seq<char>>(payload)
        },
        bytes.len() >= 4 && announced(bytes) > 1048576 ==> unframe(bytes)->Err_0.code
            == WireErrorCode::LimitExceededFrame,
        bytes.len() < 4 || (announced(bytes) <= 1048576 && announced(bytes) != bytes.len() - 4)
            ==> unframe(bytes)->Err_0.code == WireErrorCode::MalformedFrame,
{
    if bytes.len() >= 4 {
        lemma_announced(bytes);
    }
}

/// A tree is written exactly if it has a canonical form of at most 1 MiB: behind four bytes that
/// announce its length.
pub proof fn law_frame_is_written_exactly(tree: JsonView, bytes: Seq<u8>)
    ensures
        frame(tree) == Ok::<Seq<u8>, WireErrorView>(bytes) <==> {
            &&& bytes.len() >= 4
            &&& announced(bytes) == bytes.len() - 4
            &&& bytes.len() - 4 <= 1048576
            &&& canonical(tree) == Ok::<Seq<u8>, Seq<char>>(bytes.skip(4))
        },
        canonical(tree) is Err ==> frame(tree)->Err_0.code == WireErrorCode::MalformedFrame,
        canonical(tree) matches Ok(payload) && payload.len() > 1048576 ==> frame(tree)->Err_0.code
            == WireErrorCode::LimitExceededFrame,
{
    if let Ok(payload) = canonical(tree) {
        if payload.len() <= 1048576 {
            let written = frame_of(payload);
            crate::bytes::lemma_be_value_of_bytes(payload.len());
            assert(written.take(4) =~= crate::bytes::be_bytes(payload.len(), 4));
            assert(written.skip(4) =~= payload);
            lemma_announced(written);
            if bytes.len() >= 4 && announced(bytes) == bytes.len() - 4 && bytes.skip(4) == payload {
                lemma_announced(bytes);
                crate::bytes::lemma_be_bytes_of_value(bytes.take(4));
                assert(bytes =~= bytes.take(4) + bytes.skip(4));
            }
        }
    }
}

/// Frames are read one by one from a stream by their announced length: two frames that begin
/// alike and are read are one frame.
pub proof fn law_frames_do_not_overlap(a: Seq<u8>, b: Seq<u8>)
    requires
        unframe(a) is Ok,
        unframe(b) is Ok,
        a.len() <= b.len(),
        b.take(a.len() as int) == a,
    ensures
        a == b,
{
    law_frame_is_accepted_exactly(a, unframe(a)->Ok_0);
    law_frame_is_accepted_exactly(b, unframe(b)->Ok_0);
    assert(a[0] == b[0] && a[1] == b[1] && a[2] == b[2] && a[3] == b[3]);
    assert(b.take(a.len() as int) =~= b);
}

proof fn lemma_with_entry_contents(
    entries: Seq<(Seq<char>, JsonView)>,
    key: Seq<char>,
    value: JsonView,
    other: (Seq<char>, JsonView),
)
    requires
        crate::json::ascending_keys(entries),
    ensures
        crate::json::with_entry(entries, key, value).contains(other) <==> (other == (key, value) || (
        other.0 != key && entries.contains(other))),
    decreases entries.len(),
{
    let out = crate::json::with_entry(entries, key, value);
    if entries.len() == 0 {
        assert(out[0] == (key, value));
    } else {
        let before = entries.drop_last();
        let last = entries.last();
        assert(entries[entries.len() - 1] == last);
        assert(crate::json::ascending_keys(before)) by {
            assert forall|i: int, j: int| 0 <= i < j < before.len() implies crate::text::text_before(
                (#[trigger] before[i]).0,
                (#[trigger] before[j]).0,
            ) by {
                assert(crate::text::text_before(entries[i].0, entries[j].0));
            }
        }
        crate::text::lemma_text_before_total(last.0, key);
        if last.0 == key {
            assert(out[out.len() - 1] == (key, value));
            if out.contains(other) && other != (key, value) {
                let i = choose|i: int| 0 <= i < out.len() && out[i] == other;
                assert(entries[i] == other);
                assert(crate::text::text_before(entries[i].0, entries[entries.len() - 1].0));
                crate::text::lemma_text_before_total(other.0, key);
            }
            if other.0 != key && entries.contains(other) {
                let i = choose|i: int| 0 <= i < entries.len() && entries[i] == other;
                assert(out[i] == other);
            }
        } else if crate::text::text_before(last.0, key) {
            assert(out[out.len() - 1] == (key, value));
            if out.contains(other) && other != (key, value) {
                let i = choose|i: int| 0 <= i < out.len() && out[i] == other;
                assert(entries[i] == other);
                if i < entries.len() - 1 {
                    assert(crate::text::text_before(entries[i].0, entries[entries.len() - 1].0));
                    crate::text::lemma_text_before_transitive(other.0, last.0, key);
                }
                crate::text::lemma_text_before_total(other.0, key);
            }
            if other.0 != key && entries.contains(other) {
                let i = choose|i: int| 0 <= i < entries.len() && entries[i] == other;
                assert(out[i] == other);
            }
        } else {
            lemma_with_entry_contents(before, key, value, other);
            let inner = crate::json::with_entry(before, key, value);
            if out.contains(other) {
                let i = choose|i: int| 0 <= i < out.len() && out[i] == other;
                if i < inner.len() {
                    assert(inner[i] == other);
                    if before.contains(other) {
                        let k = choose|k: int| 0 <= k < before.len() && before[k] == other;
                        assert(entries[k] == other);
                    }
                }
            }
            if inner.contains(other) {
                let i = choose|i: int| 0 <= i < inner.len() && inner[i] == other;
                assert(out[i] == other);
            }
            assert(out[out.len() - 1] == last);
            if other.0 != key && entries.contains(other) {
                let i = choose|i: int| 0 <= i < entries.len() && entries[i] == other;
                if i < before.len() {
                    assert(before[i] == other);
                }
            }
        }
    }
}

/// The normal form of an object has ascending keys, and each key has the normal form of the value
/// that was given for it last.
pub proof fn law_last_value_of_a_key_counts(
    entries: Seq<(Seq<char>, JsonView)>,
    key: Seq<char>,
    value: JsonView,
)
    ensures
        crate::json::ascending_keys(crate::json::normal_entries(entries)),
        crate::json::normal_entries(entries).contains((key, value)) <==> exists|at: int|
            #![trigger entries[at]]
            0 <= at < entries.len() && entries[at].0 == key && crate::json::normal(entries[at].1)
                == value && forall|i: int|
                at < i < entries.len() ==> (#[trigger] entries[i]).0 != key,
        crate::json::normal(JsonView::Object(entries)) == JsonView::Object(
            crate::json::normal_entries(entries),
        ),
    decreases entries.len(),
{
    crate::json::lemma_normal_entries_ascend(entries);
    if entries.len() > 0 {
        let n = entries.len() - 1;
        let before = entries.subrange(0, n);
        let last = entries[n];
        law_last_value_of_a_key_counts(before, key, value);
        crate::json::lemma_normal_entries_ascend(before);
        lemma_with_entry_contents(
            crate::json::normal_entries(before),
            last.0,
            crate::json::normal(last.1),
            (key, value),
        );
        if last.0 == key {
            if crate::json::normal_entries(entries).contains((key, value)) {
                assert(entries[n].0 == key);
            }
            if exists|at: int| #![trigger entries[at]]
                0 <= at < entries.len() && entries[at].0 == key && crate::json::normal(
                    entries[at].1,
                ) == value && forall|i: int|
                    at < i < entries.len() ==> (#[trigger] entries[i]).0 != key {
                let at = choose|at: int| #![trigger entries[at]]
                    0 <= at < entries.len() && entries[at].0 == key && crate::json::normal(
                        entries[at].1,
                    ) == value && forall|i: int|
                        at < i < entries.len() ==> (#[trigger] entries[i]).0 != key;
                assert(entries[n].0 == key);
            }
        } else {
            if crate::json::normal_entries(before).contains((key, value)) {
                let at = choose|at: int| #![trigger before[at]]
                    0 <= at < before.len() && before[at].0 == key && crate::json::normal(
                        before[at].1,
                    ) == value && forall|i: int|
                        at < i < before.len() ==> (#[trigger] before[i]).0 != key;
                assert(entries[at] == before[at]);
                assert forall|i: int| at < i < entries.len() implies (#[trigger] entries[i]).0
                    != key by {
                    if i < n {
                        assert(before[i] == entries[i]);
                    }
                }
            }
            if exists|at: int| #![trigger entries[at]]
                0 <= at < entries.len() && entries[at].0 == key && crate::json::normal(
                    entries[at].1,
                ) == value && forall|i: int|
                    at < i < entries.len() ==> (#[trigger] entries[i]).0 != key {
                let at = choose|at: int| #![trigger entries[at]]
                    0 <= at < entries.len() && entries[at].0 == key && crate::json::normal(
                        entries[at].1,
                    ) == value && forall|i: int|
                        at < i < entries.len() ==> (#[trigger] entries[i]).0 != key;
                assert(before[at] == entries[at]);
                assert forall|i: int| at < i < before.len() implies (#[trigger] before[i]).0
                    != key by {
                    assert(before[i] == entries[i]);
                }
            }
        }
    }
}

/// Normal form keeps an array's items in their order, each in normal form, and changes no scalar
/// but for writing a number that is not negative as such.
pub proof fn law_normal_form_keeps_items_and_scalars(tree: JsonView)
    ensures
        tree matches JsonView::Array(items) ==> {
            &&& crate::json::normal(tree) matches JsonView::Array(out)
            &&& out.len() == items.len()
            &&& forall|i: int|
                0 <= i < items.len() ==> #[trigger] out[i] == crate::json::normal(items[i])
        },
        tree is Null || tree is Bool || tree is Unsigned || tree is Number || tree is Text
            ==> crate::json::normal(tree) == tree,
        tree matches JsonView::Negative(n) ==> crate::json::normal(tree) == (if n < 0 {
            tree
        } else {
            JsonView::Unsigned(n as u64)
        }),
{
    if let JsonView::Array(items) = tree {
        lemma_normal_items_are(items);
    }
}

proof fn lemma_normal_items_are(items: Seq<JsonView>)
    ensures
        crate::json::normal_items(items).len() == items.len(),
        forall|i: int|
            0 <= i < items.len() ==> #[trigger] crate::json::normal_items(items)[i]
                == crate::json::normal(items[i]),
    decreases items.len(),
{
    if items.len() > 0 {
        let before = items.subrange(0, items.len() - 1);
        lemma_normal_items_are(before);
        assert forall|i: int| 0 <= i < items.len() implies #[trigger] crate::json::normal_items(
            items,
        )[i] == crate::json::normal(items[i]) by {
            if i < before.len() {
                assert(crate::json::normal_items(before)[i] == crate::json::normal(before[i]));
                assert(before[i] == items[i]);
            }
        }
    }
}

} // verus!
