//! Canonical JSON frames and base64url byte strings.

use vstd::prelude::*;
use vstd::utf8::*;

use crate::bytes::{push_be, read_be32};
use crate::error::{WireError, WireErrorCode, WireErrorView};
use crate::json::{from_value, to_value, Json, JsonView};
use crate::text::{same_bytes, text_contains};

verus! {

pub const FRAME_MAX_BYTES: usize = 1048576;

pub const JSON_MAX_DEPTH: usize = 32;

pub const JSON_MAX_STRING_BYTES: usize = 262144;

pub const JSON_MAX_LIST_LENGTH: usize = 256;

/// What `serde_json` reads from a byte string: a tree, or the text of its error.
pub uninterp spec fn json_parsed(bytes: Seq<u8>) -> Result<JsonView, Seq<char>>;

/// What `serde_jcs` writes for a tree: RFC 8785 bytes, or the text of its error.
pub uninterp spec fn jcs_encoding(tree: JsonView) -> Result<Seq<u8>, Seq<char>>;

/// The characters of an error and the bytes of a success.
pub open spec fn bytes_result(r: Result<Vec<u8>, String>) -> Result<Seq<u8>, Seq<char>> {
    match r {
        Ok(bytes) => Ok(bytes@),
        Err(text) => Err(text@),
    }
}

/// The tree of a success and the characters of an error.
pub open spec fn value_result(r: Result<serde_json::Value, String>) -> Result<JsonView, Seq<char>> {
    match r {
        Ok(value) => Ok(crate::json::json_tree(value)),
        Err(text) => Err(text@),
    }
}

/// How deep containers nest in a tree.
pub open spec fn nesting(v: JsonView) -> nat
    decreases v, 0nat,
{
    match v {
        JsonView::Array(items) => 1 + items_nesting(items),
        JsonView::Object(entries) => 1 + entries_nesting(entries),
        _ => 0,
    }
}

pub open spec fn items_nesting(items: Seq<JsonView>) -> nat
    decreases items, items.len(),
{
    if items.len() == 0 {
        0
    } else {
        let head = items_nesting(items.subrange(0, items.len() - 1));
        let last = nesting(items[items.len() - 1]);
        if head < last {
            last
        } else {
            head
        }
    }
}

pub open spec fn entries_nesting(entries: Seq<(Seq<char>, JsonView)>) -> nat
    decreases entries, entries.len(),
{
    if entries.len() == 0 {
        0
    } else {
        let head = entries_nesting(entries.subrange(0, entries.len() - 1));
        let last = nesting(entries[entries.len() - 1].1);
        if head < last {
            last
        } else {
            head
        }
    }
}

/// A tree whose numbers are integers that a double holds exactly, with every object in key order.
pub open spec fn portable(v: JsonView) -> bool
    decreases v,
{
    match v {
        JsonView::Unsigned(n) => n <= 0x20_0000_0000_0000,
        JsonView::Negative(n) => -0x20_0000_0000_0000 <= n < 0,
        JsonView::Number(_) => false,
        JsonView::Array(items) => forall|i: int| 0 <= i < items.len() ==> portable(#[trigger] items[i]),
        JsonView::Object(entries) => crate::json::ascending_keys(entries) && forall|i: int|
            0 <= i < entries.len() ==> portable((#[trigger] entries[i]).1),
        _ => true,
    }
}

/// Every number is an integer that a double holds exactly.
pub open spec fn exact_numbers(v: JsonView) -> bool
    decreases v,
{
    match v {
        JsonView::Unsigned(n) => n <= 0x20_0000_0000_0000,
        JsonView::Negative(n) => -0x20_0000_0000_0000 <= n <= 0x20_0000_0000_0000,
        JsonView::Number(_) => false,
        JsonView::Array(items) => forall|i: int|
            0 <= i < items.len() ==> exact_numbers(#[trigger] items[i]),
        JsonView::Object(entries) => forall|i: int|
            0 <= i < entries.len() ==> exact_numbers((#[trigger] entries[i]).1),
        _ => true,
    }
}

/// The normal form of a tree with exact numbers is portable.
pub proof fn lemma_normal_is_portable(v: JsonView)
    requires
        exact_numbers(v),
    ensures
        portable(crate::json::normal(v)),
    decreases v, 0nat,
{
    match v {
        JsonView::Array(items) => {
            lemma_normal_items_portable(items);
            assert(crate::json::normal(v) == JsonView::Array(crate::json::normal_items(items)));
        },
        JsonView::Object(entries) => {
            lemma_normal_entries_portable(entries);
            crate::json::lemma_normal_entries_ascend(entries);
        },
        _ => {},
    }
}

proof fn lemma_normal_items_portable(items: Seq<JsonView>)
    requires
        forall|i: int| 0 <= i < items.len() ==> exact_numbers(#[trigger] items[i]),
    ensures
        forall|i: int|
            0 <= i < crate::json::normal_items(items).len() ==> portable(
                #[trigger] crate::json::normal_items(items)[i],
            ),
    decreases items, items.len(),
{
    if items.len() > 0 {
        let head = items.subrange(0, items.len() - 1);
        assert forall|i: int| 0 <= i < head.len() implies exact_numbers(#[trigger] head[i]) by {
            assert(head[i] == items[i]);
        }
        lemma_normal_items_portable(head);
        lemma_normal_is_portable(items[items.len() - 1]);
        let out = crate::json::normal_items(items);
        let inner = crate::json::normal_items(head);
        assert forall|i: int| 0 <= i < out.len() implies portable(#[trigger] out[i]) by {
            if i < inner.len() {
                assert(portable(inner[i]));
            }
        }
    }
}

proof fn lemma_normal_entries_portable(entries: Seq<(Seq<char>, JsonView)>)
    requires
        forall|i: int| 0 <= i < entries.len() ==> exact_numbers((#[trigger] entries[i]).1),
    ensures
        forall|i: int|
            0 <= i < crate::json::normal_entries(entries).len() ==> portable(
                (#[trigger] crate::json::normal_entries(entries)[i]).1,
            ),
    decreases entries, entries.len(),
{
    if entries.len() > 0 {
        let head = entries.subrange(0, entries.len() - 1);
        let last = entries[entries.len() - 1];
        assert forall|i: int| 0 <= i < head.len() implies exact_numbers((#[trigger] head[i]).1) by {
            assert(head[i] == entries[i]);
        }
        lemma_normal_entries_portable(head);
        lemma_normal_is_portable(last.1);
        lemma_with_entry_portable(
            crate::json::normal_entries(head),
            last.0,
            crate::json::normal(last.1),
        );
    }
}

proof fn lemma_with_entry_portable(
    entries: Seq<(Seq<char>, JsonView)>,
    key: Seq<char>,
    value: JsonView,
)
    requires
        portable(value),
        forall|i: int| 0 <= i < entries.len() ==> portable((#[trigger] entries[i]).1),
    ensures
        forall|i: int|
            0 <= i < crate::json::with_entry(entries, key, value).len() ==> portable(
                (#[trigger] crate::json::with_entry(entries, key, value)[i]).1,
            ),
    decreases entries.len(),
{
    if entries.len() > 0 {
        let head = entries.drop_last();
        assert forall|i: int| 0 <= i < head.len() implies portable((#[trigger] head[i]).1) by {
            assert(head[i] == entries[i]);
        }
        assert(entries.last() == entries[entries.len() - 1]);
        lemma_with_entry_portable(head, key, value);
        let out = crate::json::with_entry(entries, key, value);
        let inner = crate::json::with_entry(head, key, value);
        assert forall|i: int| 0 <= i < out.len() implies portable((#[trigger] out[i]).1) by {
            if i < head.len() {
                assert(head[i] == entries[i]);
            }
            if i < inner.len() {
                assert(portable(inner[i].1));
            }
        }
    }
}

/// `serde_json` reads the tree from the bytes.
pub open spec fn reads_as(bytes: Seq<u8>, tree: JsonView) -> bool {
    json_parsed(bytes) == Ok::<JsonView, Seq<char>>(tree)
}

/// `serde_json::from_slice` into a `Value`.
#[verifier::external_body]
fn json_parse(bytes: &[u8]) -> (r: Result<serde_json::Value, String>)
    ensures
        value_result(r) == json_parsed(bytes@),
{
    serde_json::from_slice(bytes).map_err(|e| e.to_string())
}

/// `serde_jcs::to_vec` of a `Value`. It never fails on a value without floating-point numbers,
/// and what it writes for a portable tree of up to 127 levels `serde_json` reads back.
#[verifier::external_body]
fn jcs_encode(value: &serde_json::Value) -> (r: Result<Vec<u8>, String>)
    ensures
        bytes_result(r) == jcs_encoding(crate::json::json_tree(*value)),
        portable(crate::json::json_tree(*value)) ==> r is Ok,
        portable(crate::json::json_tree(*value)) && nesting(crate::json::json_tree(*value)) <= 127
            ==> reads_as(r->Ok_0@, crate::json::json_tree(*value)),
{
    serde_jcs::to_vec(value).map_err(|e| e.to_string())
}

/// The RFC 8785 bytes of a tree, or the text of the encoder's error.
pub open spec fn canonical(v: JsonView) -> Result<Seq<u8>, Seq<char>> {
    jcs_encoding(crate::json::normal(v))
}

/// The RFC 8785 bytes of a tree.
pub fn canonical_json(json: &Json) -> (r: Result<Vec<u8>, String>)
    ensures
        bytes_result(r) == canonical(json@),
        portable(crate::json::normal(json@)) ==> r is Ok,
        portable(crate::json::normal(json@)) && nesting(crate::json::normal(json@)) <= 127
            ==> reads_as(r->Ok_0@, crate::json::normal(json@)),
{
    jcs_encode(&to_value(json))
}

pub open spec fn malformed_error(message: Seq<char>) -> WireErrorView {
    WireErrorView { code: WireErrorCode::MalformedFrame, message }
}

pub open spec fn limit_error(message: Seq<char>) -> WireErrorView {
    WireErrorView { code: WireErrorCode::LimitExceededFrame, message }
}

/// The error for input that breaks the format.
pub fn malformed(message: &str) -> (r: WireError)
    ensures
        r@ == malformed_error(message@),
{
    WireError::new(WireErrorCode::MalformedFrame, message)
}

/// The error for input that exceeds a limit.
pub fn limit(message: &str) -> (r: WireError)
    ensures
        r@ == limit_error(message@),
{
    WireError::new(WireErrorCode::LimitExceededFrame, message)
}

/// The first limit that a tree exceeds, items and entries in order.
pub open spec fn shape(v: JsonView, depth: nat) -> Result<(), WireErrorView>
    decreases v, 0nat,
{
    if depth > JSON_MAX_DEPTH {
        Err(limit_error("JSON nesting depth exceeds 32"@))
    } else {
        match v {
            JsonView::Text(s) => if encode_utf8(s).len() > JSON_MAX_STRING_BYTES {
                Err(limit_error("JSON string exceeds 256 KiB"@))
            } else {
                Ok(())
            },
            JsonView::Array(items) => if items.len() > JSON_MAX_LIST_LENGTH {
                Err(limit_error("JSON list exceeds 256 elements"@))
            } else {
                items_shape(items, depth + 1)
            },
            JsonView::Object(entries) => entries_shape(entries, depth + 1),
            _ => Ok(()),
        }
    }
}

pub open spec fn items_shape(items: Seq<JsonView>, depth: nat) -> Result<(), WireErrorView>
    decreases items, items.len(),
{
    if items.len() == 0 {
        Ok(())
    } else {
        match items_shape(items.subrange(0, items.len() - 1), depth) {
            Ok(_) => shape(items[items.len() - 1], depth),
            Err(e) => Err(e),
        }
    }
}

pub open spec fn entries_shape(entries: Seq<(Seq<char>, JsonView)>, depth: nat) -> Result<
    (),
    WireErrorView,
>
    decreases entries, entries.len(),
{
    if entries.len() == 0 {
        Ok(())
    } else {
        match entries_shape(entries.subrange(0, entries.len() - 1), depth) {
            Ok(_) => if encode_utf8(entries[entries.len() - 1].0).len() > JSON_MAX_STRING_BYTES {
                Err(limit_error("JSON object key exceeds 256 KiB"@))
            } else {
                shape(entries[entries.len() - 1].1, depth)
            },
            Err(e) => Err(e),
        }
    }
}


/// An error in the first items is the error of all of them.
proof fn lemma_items_shape_error(items: Seq<JsonView>, depth: nat, n: int)
    requires
        0 <= n <= items.len(),
        items_shape(items.take(n), depth) is Err,
    ensures
        items_shape(items, depth) == items_shape(items.take(n), depth),
    decreases items.len(),
{
    if n < items.len() {
        let head = items.subrange(0, items.len() - 1);
        assert(head.take(n) =~= items.take(n));
        lemma_items_shape_error(head, depth, n);
    } else {
        assert(items.take(n) =~= items);
    }
}

/// An error in the first entries is the error of all of them.
proof fn lemma_entries_shape_error(entries: Seq<(Seq<char>, JsonView)>, depth: nat, n: int)
    requires
        0 <= n <= entries.len(),
        entries_shape(entries.take(n), depth) is Err,
    ensures
        entries_shape(entries, depth) == entries_shape(entries.take(n), depth),
    decreases entries.len(),
{
    if n < entries.len() {
        let head = entries.subrange(0, entries.len() - 1);
        assert(head.take(n) =~= entries.take(n));
        lemma_entries_shape_error(head, depth, n);
    } else {
        assert(entries.take(n) =~= entries);
    }
}

/// Refuses a tree that nests too deep or holds a string, key or list that is too long.
pub fn validate_json_shape(value: &Json, depth: usize) -> (r: Result<(), WireError>)
    ensures
        crate::error::outcome(r) == shape(value@, depth as nat),
    decreases value@,
{
    if depth > JSON_MAX_DEPTH {
        return Err(limit("JSON nesting depth exceeds 32"));
    }
    match value {
        Json::Text(text) => {
            if text.as_str().as_bytes().len() > JSON_MAX_STRING_BYTES {
                return Err(limit("JSON string exceeds 256 KiB"));
            }
            Ok(())
        },
        Json::Array(items) => {
            let ghost given = value@->Array_0;
            if items.len() > JSON_MAX_LIST_LENGTH {
                return Err(limit("JSON list exceeds 256 elements"));
            }
            let mut i: usize = 0;
            assert(given.take(0) =~= Seq::<JsonView>::empty());
            while i < items.len()
                invariant
                    depth <= JSON_MAX_DEPTH,
                    *value == Json::Array(*items),
                    given == value@->Array_0,
                    given.len() == items@.len(),
                    items@.len() <= JSON_MAX_LIST_LENGTH,
                    i <= items@.len(),
                    items_shape(given.take(i as int), (depth + 1) as nat) == Ok::<(), WireErrorView>(()),
                decreases items@.len() - i,
            {
                proof {
                    crate::json::lemma_item_decreases(*value, i as int);
                    assert(given.take(i + 1).subrange(0, i as int) =~= given.take(i as int));
                }
                if let Err(error) = validate_json_shape(&items[i], depth + 1) {
                    proof {
                        lemma_items_shape_error(given, (depth + 1) as nat, i + 1);
                    }
                    return Err(error);
                }
                i = i + 1;
            }
            assert(given.take(i as int) =~= given);
            Ok(())
        },
        Json::Object(entries) => {
            let ghost given = value@->Object_0;
            let mut i: usize = 0;
            assert(given.take(0) =~= Seq::<(Seq<char>, JsonView)>::empty());
            while i < entries.len()
                invariant
                    depth <= JSON_MAX_DEPTH,
                    *value == Json::Object(*entries),
                    given == value@->Object_0,
                    given.len() == entries@.len(),
                    i <= entries@.len(),
                    entries_shape(given.take(i as int), (depth + 1) as nat) == Ok::<(), WireErrorView>(()),
                decreases entries@.len() - i,
            {
                let entry = &entries[i];
                proof {
                    crate::json::lemma_entry_decreases(*value, i as int);
                    assert(given.take(i + 1).subrange(0, i as int) =~= given.take(i as int));
                }
                if entry.0.as_str().as_bytes().len() > JSON_MAX_STRING_BYTES {
                    proof {
                        lemma_entries_shape_error(given, (depth + 1) as nat, i + 1);
                    }
                    return Err(limit("JSON object key exceeds 256 KiB"));
                }
                if let Err(error) = validate_json_shape(&entry.1, depth + 1) {
                    proof {
                        lemma_entries_shape_error(given, (depth + 1) as nat, i + 1);
                    }
                    return Err(error);
                }
                i = i + 1;
            }
            assert(given.take(i as int) =~= given);
            Ok(())
        },
        _ => Ok(()),
    }
}

/// The frame of a payload: its length in four bytes, then the payload.
pub open spec fn frame_of(payload: Seq<u8>) -> Seq<u8> {
    crate::bytes::be_bytes(payload.len(), 4) + payload
}

/// The frame of a tree, or why there is none.
pub open spec fn frame(v: JsonView) -> Result<Seq<u8>, WireErrorView> {
    match canonical(v) {
        Err(text) => Err(malformed_error(text)),
        Ok(payload) => if payload.len() > FRAME_MAX_BYTES {
            Err(limit_error("encoded frame exceeds 1 MiB"@))
        } else {
            Ok(frame_of(payload))
        },
    }
}

/// The characters of an error and the bytes of a success.
pub open spec fn frame_result(r: Result<Vec<u8>, WireError>) -> Result<Seq<u8>, WireErrorView> {
    match r {
        Ok(bytes) => Ok(bytes@),
        Err(e) => Err(e@),
    }
}

/// A tree within the limits nests no deeper than they allow.
proof fn lemma_shape_bounds_nesting(v: JsonView, depth: nat)
    requires
        shape(v, depth) is Ok,
    ensures
        nesting(v) + depth <= JSON_MAX_DEPTH + 1,
    decreases v, 0nat,
{
    match v {
        JsonView::Array(items) => {
            lemma_items_shape_bounds_nesting(items, depth + 1);
        },
        JsonView::Object(entries) => {
            lemma_entries_shape_bounds_nesting(entries, depth + 1);
        },
        _ => {},
    }
}

proof fn lemma_items_shape_bounds_nesting(items: Seq<JsonView>, depth: nat)
    requires
        items_shape(items, depth) is Ok,
        depth <= JSON_MAX_DEPTH + 1,
    ensures
        items_nesting(items) + depth <= JSON_MAX_DEPTH + 1,
    decreases items, items.len(),
{
    if items.len() > 0 {
        lemma_items_shape_bounds_nesting(items.subrange(0, items.len() - 1), depth);
        lemma_shape_bounds_nesting(items[items.len() - 1], depth);
    }
}

proof fn lemma_entries_shape_bounds_nesting(entries: Seq<(Seq<char>, JsonView)>, depth: nat)
    requires
        entries_shape(entries, depth) is Ok,
        depth <= JSON_MAX_DEPTH + 1,
    ensures
        entries_nesting(entries) + depth <= JSON_MAX_DEPTH + 1,
    decreases entries, entries.len(),
{
    if entries.len() > 0 {
        lemma_entries_shape_bounds_nesting(entries.subrange(0, entries.len() - 1), depth);
        lemma_shape_bounds_nesting(entries[entries.len() - 1].1, depth);
    }
}

/// Writes a tree as a length-prefixed RFC 8785 frame. A tree with exact numbers and within the
/// limits is read back from its frame, in normal form.
pub fn encode_frame(value: &Json) -> (r: Result<Vec<u8>, WireError>)
    ensures
        frame_result(r) == frame(value@),
        exact_numbers(value@) ==> canonical(value@) is Ok,
        exact_numbers(value@) && shape(crate::json::normal(value@), 1) is Ok && r is Ok
            ==> unframe(r->Ok_0@) == Ok::<JsonView, WireErrorView>(crate::json::normal(value@)),
{
    proof {
        if exact_numbers(value@) {
            lemma_normal_is_portable(value@);
        }
    }
    let json = match canonical_json(value) {
        Ok(json) => json,
        Err(text) => {
            return Err(malformed(text.as_str()));
        },
    };
    if json.len() > FRAME_MAX_BYTES {
        return Err(limit("encoded frame exceeds 1 MiB"));
    }
    let mut frame: Vec<u8> = Vec::new();
    push_be(&mut frame, json.len() as u64, 4);
    frame.extend_from_slice(json.as_slice());
    proof {
        crate::bytes::lemma_be_bytes_len(json@.len(), 4);
        assert(frame@ =~= frame_of(json@));
        assert(frame@.skip(4) =~= json@);
        assert(frame@.take(4) =~= crate::bytes::be_bytes(json@.len(), 4));
        crate::bytes::lemma_be_value_of_bytes(json@.len());
        if shape(crate::json::normal(value@), 1) is Ok {
            lemma_shape_bounds_nesting(crate::json::normal(value@), 1);
        }
    }
    Ok(frame)
}

/// What a frame holds, or why it is refused.
pub open spec fn unframe(frame: Seq<u8>) -> Result<JsonView, WireErrorView> {
    if frame.len() < 4 {
        Err(malformed_error("frame is shorter than its length prefix"@))
    } else {
        let declared = crate::bytes::be_value(frame.take(4));
        let payload = frame.skip(4);
        if declared > FRAME_MAX_BYTES {
            Err(limit_error("declared frame length exceeds 1 MiB"@))
        } else if frame.len() != declared + 4 {
            Err(malformed_error("frame length prefix does not match input"@))
        } else {
            match json_parsed(payload) {
                Err(text) => Err(malformed_error(text)),
                Ok(tree) => match shape(tree, 1) {
                    Err(e) => Err(e),
                    Ok(_) => match jcs_encoding(tree) {
                        Err(text) => Err(malformed_error(text)),
                        Ok(bytes) => if bytes != payload {
                            Err(malformed_error("JSON payload is not RFC 8785 canonical"@))
                        } else {
                            Ok(tree)
                        },
                    },
                },
            }
        }
    }
}

pub open spec fn json_result(r: Result<Json, WireError>) -> Result<JsonView, WireErrorView> {
    match r {
        Ok(json) => Ok(json@),
        Err(e) => Err(e@),
    }
}

/// Reads a length-prefixed RFC 8785 frame. Writing what was read gives the same frame.
pub fn decode_frame(bytes: &[u8]) -> (r: Result<Json, WireError>)
    ensures
        json_result(r) == unframe(bytes@),
        r matches Ok(json) ==> crate::json::normal(json@) == json@ && frame(json@) == Ok::<
            Seq<u8>,
            WireErrorView,
        >(bytes@),
{
    if bytes.len() < 4 {
        return Err(malformed("frame is shorter than its length prefix"));
    }
    let declared: usize = read_be32(bytes) as usize;
    if declared > FRAME_MAX_BYTES {
        return Err(limit("declared frame length exceeds 1 MiB"));
    }
    if bytes.len() != declared + 4 {
        return Err(malformed("frame length prefix does not match input"));
    }
    let payload = vstd::slice::slice_subrange(bytes, 4, bytes.len());
    assert(payload@ =~= bytes@.skip(4));
    let value = match json_parse(payload) {
        Ok(value) => value,
        Err(text) => {
            return Err(malformed(text.as_str()));
        },
    };
    let encoded = jcs_encode(&value);
    let json = from_value(value);
    if let Err(error) = validate_json_shape(&json, 1) {
        return Err(error);
    }
    match encoded {
        Err(text) => Err(malformed(text.as_str())),
        Ok(written) => if !same_bytes(written.as_slice(), payload) {
            Err(malformed("JSON payload is not RFC 8785 canonical"))
        } else {
            proof {
                law_accepted_frame_is_canonical(bytes@);
            }
            Ok(json)
        },
    }
}

/// An accepted frame is the canonical frame of the tree that it holds.
pub proof fn law_accepted_frame_is_canonical(frame: Seq<u8>)
    requires
        unframe(frame) is Ok,
    ensures
        jcs_encoding(unframe(frame)->Ok_0) is Ok,
        frame == frame_of(jcs_encoding(unframe(frame)->Ok_0)->Ok_0),
{
    crate::bytes::lemma_be_bytes_of_value(frame.take(4));
    assert(frame =~= frame.take(4) + frame.skip(4));
}

/// The length of the payload that a prefix announces, where a frame may be so long.
pub open spec fn announced(prefix: Seq<u8>) -> Option<nat> {
    if crate::bytes::be_value(prefix) > FRAME_MAX_BYTES {
        None
    } else {
        Some(crate::bytes::be_value(prefix))
    }
}

/// The code of the error for a body that its type refuses.
pub open spec fn body_code(text: Seq<char>) -> WireErrorCode {
    if crate::text::contains_text(text, "unknown field"@) {
        WireErrorCode::UnknownField
    } else {
        WireErrorCode::MalformedFrame
    }
}

/// The length of the payload that a stream's next frame announces.
pub fn announced_length(prefix: [u8; 4]) -> (r: Result<usize, WireError>)
    ensures
        match r {
            Ok(length) => length == crate::bytes::be_value(prefix@) && length <= FRAME_MAX_BYTES,
            Err(e) => crate::bytes::be_value(prefix@) > FRAME_MAX_BYTES && e@ == limit_error(
                "local frame exceeds 1 MiB"@,
            ),
        },
        match r {
            Ok(length) => announced(prefix@) == Some(length as nat),
            Err(_) => announced(prefix@) is None,
        },
{
    assert(prefix@.take(4) =~= prefix@);
    let length: usize = read_be32(prefix.as_slice()) as usize;
    if length > FRAME_MAX_BYTES {
        return Err(limit("local frame exceeds 1 MiB"));
    }
    Ok(length)
}

/// The error for a body that its type refuses, by the text of the refusal.
pub fn body_error(text: &str) -> (r: WireError)
    ensures
        r@.message == text@,
        r@.code == (if crate::text::contains_text(text@, "unknown field"@) {
            WireErrorCode::UnknownField
        } else {
            WireErrorCode::MalformedFrame
        }),
        r@.code == body_code(text@),
{
    if text_contains(text, "unknown field") {
        WireError::new(WireErrorCode::UnknownField, text)
    } else {
        malformed(text)
    }
}

} // verus!
