//! JSON trees: the library's own type, and its exchange with `serde_json` and `serde_jcs`.

use std::collections::VecDeque;

use vstd::prelude::*;

use crate::text::{is_text_before, same_text};

verus! {

/// A `serde_json` value. What it holds is named by [`json_tree`].
#[verifier::external_type_specification]
#[verifier::external_body]
pub struct ExJsonValue(serde_json::Value);

/// A `serde_json` number.
#[verifier::external_type_specification]
#[verifier::external_body]
pub struct ExJsonNumber(serde_json::Number);

/// A number that is no 64-bit integer, carried through unread. Only parsing makes one.
#[derive(Debug, PartialEq)]
pub struct JsonNumber(serde_json::Number);

/// A JSON value. Object entries keep the order in which they were given.
#[derive(Debug, PartialEq)]
pub enum Json {
    Null,
    Bool(bool),
    Unsigned(u64),
    Negative(i64),
    Number(JsonNumber),
    Text(String),
    Array(Vec<Json>),
    Object(Vec<(String, Json)>),
}

/// What a [`Json`] says.
pub enum JsonView {
    Null,
    Bool(bool),
    Unsigned(u64),
    Negative(i64),
    Number(JsonNumber),
    Text(Seq<char>),
    Array(Seq<JsonView>),
    Object(Seq<(Seq<char>, JsonView)>),
}

/// The tree that a [`Json`] says.
pub open spec fn json_view(json: Json) -> JsonView
    decreases json,
{
    match json {
        Json::Null => JsonView::Null,
        Json::Bool(b) => JsonView::Bool(b),
        Json::Unsigned(n) => JsonView::Unsigned(n),
        Json::Negative(n) => JsonView::Negative(n),
        Json::Number(n) => JsonView::Number(n),
        Json::Text(s) => JsonView::Text(s@),
        Json::Array(items) => JsonView::Array(
            Seq::new(
                items@.len(),
                |i: int|
                    if 0 <= i < items@.len() {
                        json_view(items@[i])
                    } else {
                        JsonView::Null
                    },
            ),
        ),
        Json::Object(entries) => JsonView::Object(
            Seq::new(
                entries@.len(),
                |i: int|
                    if 0 <= i < entries@.len() {
                        (entries@[i].0@, json_view(entries@[i].1))
                    } else {
                        (Seq::empty(), JsonView::Null)
                    },
            ),
        ),
    }
}

impl View for Json {
    type V = JsonView;

    open spec fn view(&self) -> JsonView {
        json_view(*self)
    }
}

/// The tree that a `serde_json` value holds, object entries in the order of the value's map.
pub uninterp spec fn json_tree(value: serde_json::Value) -> JsonView;

/// One level of a `serde_json` value.
pub enum JsonNode {
    Null,
    Bool(bool),
    Unsigned(u64),
    Negative(i64),
    Number(JsonNumber),
    Text(String),
    Array(VecDeque<serde_json::Value>),
    Object(VecDeque<(String, serde_json::Value)>),
}

/// Trees of the items of one array.
pub open spec fn item_trees(items: Seq<serde_json::Value>) -> Seq<JsonView> {
    items.map_values(|v: serde_json::Value| json_tree(v))
}

/// Trees of the entries of one object.
pub open spec fn entry_trees(entries: Seq<(String, serde_json::Value)>) -> Seq<
    (Seq<char>, JsonView),
> {
    entries.map_values(|e: (String, serde_json::Value)| (e.0@, json_tree(e.1)))
}

/// The tree that one level stands for.
pub open spec fn node_tree(node: JsonNode) -> JsonView {
    match node {
        JsonNode::Null => JsonView::Null,
        JsonNode::Bool(b) => JsonView::Bool(b),
        JsonNode::Unsigned(n) => JsonView::Unsigned(n),
        JsonNode::Negative(n) => JsonView::Negative(n),
        JsonNode::Number(n) => JsonView::Number(n),
        JsonNode::Text(s) => JsonView::Text(s@),
        JsonNode::Array(items) => JsonView::Array(item_trees(items@)),
        JsonNode::Object(entries) => JsonView::Object(entry_trees(entries@)),
    }
}

/// Takes a `serde_json::Value` apart by one level. Its map is a `BTreeMap`, which hands its entries
/// out by ascending keys; an integer that `as_u64` does not give is below zero.
#[verifier::external_body]
fn json_split(value: serde_json::Value) -> (node: JsonNode)
    ensures
        node_tree(node) == json_tree(value),
        node matches JsonNode::Object(entries) ==> ascending_keys(entry_trees(entries@)),
        node matches JsonNode::Negative(n) ==> n < 0,
{
    match value {
        serde_json::Value::Null => JsonNode::Null,
        serde_json::Value::Bool(b) => JsonNode::Bool(b),
        serde_json::Value::Number(n) => match (n.as_u64(), n.as_i64()) {
            (Some(u), _) => JsonNode::Unsigned(u),
            (None, Some(i)) => JsonNode::Negative(i),
            (None, None) => JsonNode::Number(JsonNumber(n)),
        },
        serde_json::Value::String(s) => JsonNode::Text(s),
        serde_json::Value::Array(items) => JsonNode::Array(items.into()),
        serde_json::Value::Object(map) => JsonNode::Object(map.into_iter().collect()),
    }
}

/// The tree of a `serde_json` value, which is in normal form.
pub fn from_value(value: serde_json::Value) -> (r: Json)
    ensures
        r@ == json_tree(value),
        normal(r@) == r@,
    decreases json_tree(value),
{
    let ghost tree = json_tree(value);
    let node = json_split(value);
    match node {
        JsonNode::Null => Json::Null,
        JsonNode::Bool(b) => Json::Bool(b),
        JsonNode::Unsigned(n) => Json::Unsigned(n),
        JsonNode::Negative(n) => Json::Negative(n),
        JsonNode::Number(n) => Json::Number(n),
        JsonNode::Text(s) => Json::Text(s),
        JsonNode::Array(items) => {
            let ghost all = items@;
            let mut left = items;
            let mut out: Vec<Json> = Vec::new();
            while left.len() > 0
                invariant
                    tree == json_tree(value),
                    tree == JsonView::Array(item_trees(all)),
                    out@.len() + left@.len() == all.len(),
                    left@ == all.skip(out@.len() as int),
                    forall|i: int|
                        0 <= i < out@.len() ==> #[trigger] out@[i]@ == json_tree(all[i]) && normal(
                            out@[i]@,
                        ) == out@[i]@,
                decreases left@.len(),
            {
                let ghost k = out@.len() as int;
                if let Some(item) = left.pop_front() {
                    proof {
                        assert(item == all[k]);
                        assert(tree->Array_0[k] == json_tree(item));
                        assert(decreases_to!(tree => tree->Array_0));
                        assert(decreases_to!(tree->Array_0 => tree->Array_0[k]));
                    }
                    let json = from_value(item);
                    out.push(json);
                    assert(left@ =~= all.skip(k + 1));
                }
            }
            let ghost done = out@;
            let r = Json::Array(out);
            proof {
                assert forall|i: int| 0 <= i < done.len() implies r@->Array_0[i]
                    == tree->Array_0[i] by {
                    assert(r@->Array_0[i] == done[i]@);
                }
                assert(r@->Array_0 =~= tree->Array_0);
                assert forall|i: int| 0 <= i < tree->Array_0.len() implies normal(
                    #[trigger] tree->Array_0[i],
                ) == tree->Array_0[i] by {
                    assert(tree->Array_0[i] == done[i]@);
                }
                lemma_normal_items_kept(tree->Array_0);
            }
            r
        },
        JsonNode::Object(entries) => {
            let ghost all = entries@;
            let mut left = entries;
            let mut out: Vec<(String, Json)> = Vec::new();
            while left.len() > 0
                invariant
                    tree == json_tree(value),
                    tree == JsonView::Object(entry_trees(all)),
                    out@.len() + left@.len() == all.len(),
                    left@ == all.skip(out@.len() as int),
                    forall|i: int|
                        0 <= i < out@.len() ==> (#[trigger] out@[i]).0@ == all[i].0@ && out@[i].1@
                            == json_tree(all[i].1) && normal(out@[i].1@) == out@[i].1@,
                decreases left@.len(),
            {
                let ghost k = out@.len() as int;
                if let Some((key, item)) = left.pop_front() {
                    proof {
                        assert((key, item) == all[k]);
                        assert(tree->Object_0[k] == (key@, json_tree(item)));
                        assert(decreases_to!(tree => tree->Object_0));
                        assert(decreases_to!(tree->Object_0 => tree->Object_0[k]));
                        assert(decreases_to!(tree->Object_0[k] => tree->Object_0[k].1));
                    }
                    let json = from_value(item);
                    out.push((key, json));
                    assert(left@ =~= all.skip(k + 1));
                }
            }
            let ghost done = out@;
            let r = Json::Object(out);
            proof {
                assert forall|i: int| 0 <= i < done.len() implies r@->Object_0[i]
                    == tree->Object_0[i] by {
                    assert(r@->Object_0[i] == (done[i].0@, done[i].1@));
                }
                assert(r@->Object_0 =~= tree->Object_0);
                assert forall|i: int| 0 <= i < tree->Object_0.len() implies normal(
                    (#[trigger] tree->Object_0[i]).1,
                ) == tree->Object_0[i].1 by {
                    assert(tree->Object_0[i] == (done[i].0@, done[i].1@));
                }
                lemma_normal_entries_kept(tree->Object_0);
            }
            r
        },
    }
}

/// Each key stands before every later key.
pub open spec fn ascending_keys(entries: Seq<(Seq<char>, JsonView)>) -> bool {
    forall|i: int, j: int|
        0 <= i < j < entries.len() ==> crate::text::text_before(
            (#[trigger] entries[i]).0,
            (#[trigger] entries[j]).0,
        )
}

/// The object with `key` set to `value`: in place of an equal key, or in its place by key order.
pub open spec fn with_entry(
    entries: Seq<(Seq<char>, JsonView)>,
    key: Seq<char>,
    value: JsonView,
) -> Seq<(Seq<char>, JsonView)>
    decreases entries.len(),
{
    if entries.len() == 0 {
        seq![(key, value)]
    } else if entries.last().0 == key {
        entries.drop_last().push((key, value))
    } else if crate::text::text_before(entries.last().0, key) {
        entries.push((key, value))
    } else {
        with_entry(entries.drop_last(), key, value).push(entries.last())
    }
}

/// The tree with every object in key order and, of equal keys, the last one kept.
pub open spec fn normal(v: JsonView) -> JsonView
    decreases v, 0nat,
{
    match v {
        JsonView::Array(items) => JsonView::Array(normal_items(items)),
        JsonView::Object(entries) => JsonView::Object(normal_entries(entries)),
        JsonView::Negative(n) if n >= 0 => JsonView::Unsigned(n as u64),
        _ => v,
    }
}

/// Each item in normal form.
pub open spec fn normal_items(items: Seq<JsonView>) -> Seq<JsonView>
    decreases items, items.len(),
{
    if items.len() == 0 {
        items
    } else {
        normal_items(items.subrange(0, items.len() - 1)).push(normal(items[items.len() - 1]))
    }
}

/// The object that the entries build when they are set one after the other, in normal form.
pub open spec fn normal_entries(entries: Seq<(Seq<char>, JsonView)>) -> Seq<(Seq<char>, JsonView)>
    decreases entries, entries.len(),
{
    if entries.len() == 0 {
        entries
    } else {
        with_entry(
            normal_entries(entries.subrange(0, entries.len() - 1)),
            entries[entries.len() - 1].0,
            normal(entries[entries.len() - 1].1),
        )
    }
}

/// Setting a key keeps the key order, and every key of the result was there or is the new one.
pub proof fn lemma_with_entry(
    entries: Seq<(Seq<char>, JsonView)>,
    key: Seq<char>,
    value: JsonView,
)
    requires
        ascending_keys(entries),
    ensures
        ascending_keys(with_entry(entries, key, value)),
        forall|i: int|
            0 <= i < with_entry(entries, key, value).len() ==> (#[trigger] with_entry(
                entries,
                key,
                value,
            )[i]).0 == key || exists|j: int|
                0 <= j < entries.len() && entries[j] == with_entry(entries, key, value)[i],
    decreases entries.len(),
{
    let out = with_entry(entries, key, value);
    if entries.len() > 0 {
        let head = entries.drop_last();
        let last = entries.last();
        crate::text::lemma_text_before_total(last.0, key);
        assert(ascending_keys(head));
        if last.0 == key {
            assert forall|i: int| 0 <= i < out.len() implies (#[trigger] out[i]).0 == key
                || exists|j: int| 0 <= j < entries.len() && entries[j] == out[i] by {
                if i < head.len() {
                    assert(entries[i] == out[i]);
                }
            }
        } else if crate::text::text_before(last.0, key) {
            assert forall|i: int, j: int| 0 <= i < j < out.len() implies crate::text::text_before(
                (#[trigger] out[i]).0,
                (#[trigger] out[j]).0,
            ) by {
                if j == entries.len() && i < entries.len() - 1 {
                    crate::text::lemma_text_before_transitive(entries[i].0, last.0, key);
                }
            }
            assert forall|i: int| 0 <= i < out.len() implies (#[trigger] out[i]).0 == key
                || exists|j: int| 0 <= j < entries.len() && entries[j] == out[i] by {
                if i < entries.len() {
                    assert(entries[i] == out[i]);
                }
            }
        } else {
            lemma_with_entry(head, key, value);
            let inner = with_entry(head, key, value);
            assert forall|i: int| 0 <= i < out.len() implies (#[trigger] out[i]).0 == key
                || exists|j: int| 0 <= j < entries.len() && entries[j] == out[i] by {
                if i < inner.len() {
                    assert(out[i] == inner[i]);
                    if inner[i].0 != key {
                        let j = choose|j: int| 0 <= j < head.len() && head[j] == inner[i];
                        assert(entries[j] == out[i]);
                    }
                } else {
                    assert(entries[entries.len() - 1] == out[i]);
                }
            }
            assert forall|i: int, j: int| 0 <= i < j < out.len() implies crate::text::text_before(
                (#[trigger] out[i]).0,
                (#[trigger] out[j]).0,
            ) by {
                assert(out[i] == inner[i]);
                if j < inner.len() {
                    assert(out[j] == inner[j]);
                } else if inner[i].0 != key {
                    let k = choose|k: int| 0 <= k < head.len() && head[k] == inner[i];
                    assert(entries[k] == inner[i]);
                    assert(entries[entries.len() - 1] == last);
                }
            }
        }
    }
}

/// Setting entries one after the other gives ascending keys.
pub proof fn lemma_normal_entries_ascend(entries: Seq<(Seq<char>, JsonView)>)
    ensures
        ascending_keys(normal_entries(entries)),
    decreases entries.len(),
{
    if entries.len() > 0 {
        let last = entries[entries.len() - 1];
        let head = entries.subrange(0, entries.len() - 1);
        lemma_normal_entries_ascend(head);
        lemma_with_entry(normal_entries(head), last.0, normal(last.1));
    }
}

/// Items in normal form are left as they are.
pub proof fn lemma_normal_items_kept(items: Seq<JsonView>)
    requires
        forall|i: int| 0 <= i < items.len() ==> normal(#[trigger] items[i]) == items[i],
    ensures
        normal_items(items) == items,
    decreases items.len(),
{
    if items.len() > 0 {
        let head = items.subrange(0, items.len() - 1);
        assert forall|i: int| 0 <= i < head.len() implies normal(#[trigger] head[i]) == head[i] by {
            assert(head[i] == items[i]);
        }
        lemma_normal_items_kept(head);
        assert(head.push(items[items.len() - 1]) =~= items);
    }
}

/// Entries in normal form with ascending keys are left as they are.
pub proof fn lemma_normal_entries_kept(entries: Seq<(Seq<char>, JsonView)>)
    requires
        ascending_keys(entries),
        forall|i: int| 0 <= i < entries.len() ==> normal((#[trigger] entries[i]).1) == entries[i].1,
    ensures
        normal_entries(entries) == entries,
    decreases entries.len(),
{
    if entries.len() > 0 {
        let head = entries.subrange(0, entries.len() - 1);
        let last = entries[entries.len() - 1];
        assert forall|i: int| 0 <= i < head.len() implies normal((#[trigger] head[i]).1)
            == head[i].1 by {
            assert(head[i] == entries[i]);
        }
        lemma_normal_entries_kept(head);
        if head.len() > 0 {
            assert(head.last() == entries[entries.len() - 2]);
            crate::text::lemma_text_before_total(head.last().0, last.0);
            assert(head.push(last) =~= entries);
        } else {
            assert(seq![last] =~= entries);
        }
    }
}

/// Where an entry goes when it is set in key order.
proof fn lemma_with_entry_at(
    entries: Seq<(Seq<char>, JsonView)>,
    key: Seq<char>,
    value: JsonView,
    at: int,
)
    requires
        0 <= at <= entries.len(),
        forall|i: int| at <= i < entries.len() ==> (#[trigger] entries[i]).0 != key && !crate::text::text_before(
            entries[i].0,
            key,
        ),
    ensures
        at == 0 ==> with_entry(entries, key, value) == entries.insert(0, (key, value)),
        at > 0 && entries[at - 1].0 == key ==> with_entry(entries, key, value) == entries.update(
            at - 1,
            (key, value),
        ),
        at > 0 && entries[at - 1].0 != key && crate::text::text_before(entries[at - 1].0, key) ==> with_entry(
            entries,
            key,
            value,
        ) == entries.insert(at, (key, value)),
    decreases entries.len(),
{
    if at < entries.len() {
        let head = entries.drop_last();
        assert(entries.last() == entries[entries.len() - 1]);
        lemma_with_entry_at(head, key, value, at);
        if at == 0 || entries[at - 1].0 != key {
            assert(head.insert(at, (key, value)).push(entries.last()) =~= entries.insert(
                at,
                (key, value),
            ));
        } else {
            assert(head.update(at - 1, (key, value)).push(entries.last()) =~= entries.update(
                at - 1,
                (key, value),
            ));
        }
    } else if at > 0 {
        if entries.last().0 == key {
            assert(entries.drop_last().push((key, value)) =~= entries.update(at - 1, (key, value)));
        } else {
            assert(entries.push((key, value)) =~= entries.insert(at, (key, value)));
        }
    } else {
        assert(seq![(key, value)] =~= entries.insert(0, (key, value)));
    }
}

/// Sets one entry of an object in key order.
fn set_entry(entries: &mut Vec<(String, serde_json::Value)>, key: String, value: serde_json::Value)
    ensures
        entry_trees(final(entries)@) == with_entry(
            entry_trees(old(entries)@),
            key@,
            json_tree(value),
        ),
{
    let ghost before = entries@;
    let ghost trees = entry_trees(before);
    let mut at: usize = entries.len();
    let mut found = false;
    while at > 0 && !found
        invariant
            entries@ == before,
            trees == entry_trees(before),
            at <= before.len(),
            forall|i: int|
                at <= i < trees.len() ==> (#[trigger] trees[i]).0 != key@ && !crate::text::text_before(
                    trees[i].0,
                    key@,
                ),
            found ==> at > 0 && (before[at - 1].0@ == key@ || crate::text::text_before(
                before[at - 1].0@,
                key@,
            )),
        decreases at + (if found { 0int } else { 1int }),
    {
        let here = entries[at - 1].0.as_str();
        if same_text(here, key.as_str()) || is_text_before(here, key.as_str()) {
            found = true;
        } else {
            at = at - 1;
        }
    }
    proof {
        lemma_with_entry_at(trees, key@, json_tree(value), at as int);
        if at > 0 {
            assert(trees[at - 1].0 == before[at - 1].0@);
        }
    }
    if at > 0 && same_text(entries[at - 1].0.as_str(), key.as_str()) {
        entries.set(at - 1, (key, value));
        assert(entry_trees(entries@) =~= trees.update(at - 1, (key@, json_tree(value))));
    } else {
        entries.insert(at, (key, value));
        assert(entry_trees(entries@) =~= trees.insert(at as int, (key@, json_tree(value))));
    }
}

/// Builds a `serde_json::Value` from one level. A `serde_json::Map` collected from entries with
/// ascending keys hands them out in that order.
#[verifier::external_body]
fn json_join(node: JsonNode) -> (value: serde_json::Value)
    requires
        node matches JsonNode::Object(entries) ==> ascending_keys(entry_trees(entries@)),
        node matches JsonNode::Negative(n) ==> n < 0,
    ensures
        json_tree(value) == node_tree(node),
{
    match node {
        JsonNode::Null => serde_json::Value::Null,
        JsonNode::Bool(b) => serde_json::Value::Bool(b),
        JsonNode::Unsigned(n) => serde_json::Value::from(n),
        JsonNode::Negative(n) => serde_json::Value::from(n),
        JsonNode::Number(JsonNumber(n)) => serde_json::Value::Number(n),
        JsonNode::Text(s) => serde_json::Value::String(s),
        JsonNode::Array(items) => serde_json::Value::Array(items.into()),
        JsonNode::Object(entries) => serde_json::Value::Object(entries.into_iter().collect()),
    }
}

/// `Clone` of `serde_json::Number` gives the same number.
#[verifier::external_body]
fn number_clone(n: &serde_json::Number) -> (r: serde_json::Number)
    ensures
        r == *n,
{
    n.clone()
}

impl Clone for JsonNumber {
    fn clone(&self) -> (r: Self)
        ensures
            r == *self,
    {
        JsonNumber(number_clone(&self.0))
    }
}

/// An array's items are smaller than the array.
pub proof fn lemma_item_decreases(json: Json, i: int)
    requires
        json is Array,
        0 <= i < json->Array_0@.len(),
    ensures
        json@->Array_0[i] == json->Array_0@[i]@,
        decreases_to!(json@ => json->Array_0@[i]@),
{
    let v = json@;
    assert(decreases_to!(v => v->Array_0));
    assert(decreases_to!(v->Array_0 => v->Array_0[i]));
}

/// An object's values are smaller than the object.
pub proof fn lemma_entry_decreases(json: Json, i: int)
    requires
        json is Object,
        0 <= i < json->Object_0@.len(),
    ensures
        json@->Object_0[i] == (json->Object_0@[i].0@, json->Object_0@[i].1@),
        decreases_to!(json@ => json->Object_0@[i].1@),
{
    let v = json@;
    assert(decreases_to!(v => v->Object_0));
    assert(decreases_to!(v->Object_0 => v->Object_0[i]));
    assert(decreases_to!(v->Object_0[i] => v->Object_0[i].1));
}

/// A copy of the tree.
fn copy_json(json: &Json) -> (r: Json)
    ensures
        r@ == json@,
    decreases json@,
{
    match json {
        Json::Null => Json::Null,
        Json::Bool(b) => Json::Bool(*b),
        Json::Unsigned(n) => Json::Unsigned(*n),
        Json::Negative(n) => Json::Negative(*n),
        Json::Number(n) => Json::Number(n.clone()),
        Json::Text(s) => Json::Text(s.clone()),
        Json::Array(items) => {
            let mut out: Vec<Json> = Vec::new();
            let mut i: usize = 0;
            while i < items.len()
                invariant
                    *json == Json::Array(*items),
                    i <= items@.len(),
                    out@.len() == i,
                    forall|k: int| 0 <= k < i ==> #[trigger] out@[k]@ == items@[k]@,
                decreases items@.len() - i,
            {
                proof {
                    lemma_item_decreases(*json, i as int);
                }
                out.push(copy_json(&items[i]));
                i = i + 1;
            }
            let ghost done = out@;
            let r = Json::Array(out);
            proof {
                assert forall|k: int| 0 <= k < done.len() implies #[trigger] r@->Array_0[k]
                    == json@->Array_0[k] by {
                    assert(r@->Array_0[k] == done[k]@);
                }
                assert(r@->Array_0 =~= json@->Array_0);
            }
            r
        },
        Json::Object(entries) => {
            let mut out: Vec<(String, Json)> = Vec::new();
            let mut i: usize = 0;
            while i < entries.len()
                invariant
                    *json == Json::Object(*entries),
                    i <= entries@.len(),
                    out@.len() == i,
                    forall|k: int|
                        0 <= k < i ==> (#[trigger] out@[k]).0@ == entries@[k].0@ && out@[k].1@
                            == entries@[k].1@,
                decreases entries@.len() - i,
            {
                let entry = &entries[i];
                proof {
                    lemma_entry_decreases(*json, i as int);
                }
                out.push((entry.0.clone(), copy_json(&entry.1)));
                i = i + 1;
            }
            let ghost done = out@;
            let r = Json::Object(out);
            proof {
                assert forall|k: int| 0 <= k < done.len() implies #[trigger] r@->Object_0[k]
                    == json@->Object_0[k] by {
                    assert(r@->Object_0[k] == (done[k].0@, done[k].1@));
                }
                assert(r@->Object_0 =~= json@->Object_0);
            }
            r
        },
    }
}

impl Clone for Json {
    fn clone(&self) -> (r: Self)
        ensures
            r@ == self@,
    {
        copy_json(self)
    }
}

/// The `serde_json` value of a tree.
pub fn to_value(json: &Json) -> (r: serde_json::Value)
    ensures
        json_tree(r) == normal(json@),
    decreases json@,
{
    match json {
        Json::Null => json_join(JsonNode::Null),
        Json::Bool(b) => json_join(JsonNode::Bool(*b)),
        Json::Unsigned(n) => json_join(JsonNode::Unsigned(*n)),
        Json::Negative(n) => if *n >= 0 {
            json_join(JsonNode::Unsigned(*n as u64))
        } else {
            json_join(JsonNode::Negative(*n))
        },
        Json::Number(n) => json_join(JsonNode::Number(n.clone())),
        Json::Text(s) => json_join(JsonNode::Text(s.clone())),
        Json::Array(items) => {
            let mut out: VecDeque<serde_json::Value> = VecDeque::new();
            let mut i: usize = 0;
            let ghost given = json@->Array_0;
            assert(item_trees(out@) =~= normal_items(given.take(0)));
            while i < items.len()
                invariant
                    *json == Json::Array(*items),
                    given == json@->Array_0,
                    given.len() == items@.len(),
                    i <= items@.len(),
                    item_trees(out@) == normal_items(given.take(i as int)),
                decreases items@.len() - i,
            {
                proof {
                    lemma_item_decreases(*json, i as int);
                }
                let ghost before = out@;
                let value = to_value(&items[i]);
                out.push_back(value);
                proof {
                    assert(given.take(i + 1).subrange(0, i as int) =~= given.take(i as int));
                    assert(item_trees(out@) =~= item_trees(before).push(json_tree(value)));
                }
                i = i + 1;
            }
            assert(given.take(i as int) =~= given);
            json_join(JsonNode::Array(out))
        },
        Json::Object(entries) => {
            let mut out: Vec<(String, serde_json::Value)> = Vec::new();
            let mut i: usize = 0;
            let ghost given = json@->Object_0;
            assert(entry_trees(out@) =~= normal_entries(given.take(0)));
            while i < entries.len()
                invariant
                    *json == Json::Object(*entries),
                    given == json@->Object_0,
                    given.len() == entries@.len(),
                    i <= entries@.len(),
                    entry_trees(out@) == normal_entries(given.take(i as int)),
                decreases entries@.len() - i,
            {
                let entry = &entries[i];
                proof {
                    lemma_entry_decreases(*json, i as int);
                    assert(given.take(i + 1).subrange(0, i as int) =~= given.take(i as int));
                }
                let value = to_value(&entry.1);
                set_entry(&mut out, entry.0.clone(), value);
                i = i + 1;
            }
            proof {
                assert(given.take(i as int) =~= given);
                lemma_normal_entries_ascend(given);
            }
            let mut queue: VecDeque<(String, serde_json::Value)> = VecDeque::new();
            let ghost sorted = out@;
            while out.len() > 0
                invariant
                    out@ + queue@ =~= sorted,
                decreases out@.len(),
            {
                if let Some(entry) = out.pop() {
                    queue.push_front(entry);
                }
            }
            assert(queue@ =~= sorted);
            json_join(JsonNode::Object(queue))
        },
    }
}

} // verus!
