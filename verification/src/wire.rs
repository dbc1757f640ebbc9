//! The wire form of values: how they read as JSON.

use vstd::prelude::*;

use crate::codec::canonical_json;
use crate::error::{WireError, WireErrorCode};
use crate::json::{Json, JsonView};

verus! {

/// The JSON tree that a value reads as, or the message with which writing it fails.
pub type WireForm = Result<JsonView, Seq<char>>;

/// The tree of a success and the characters of an error.
pub open spec fn wire_result(r: Result<Json, String>) -> WireForm {
    match r {
        Ok(json) => Ok(json@),
        Err(text) => Err(text@),
    }
}

/// A value with a JSON form. Writing it may fail with a message.
///
/// `wire` is ghost: contracts speak of it and nothing calls it. A type outside verified code
/// gives it a body that is never reached.
pub trait WireValue {
    spec fn wire(&self) -> WireForm;

    fn to_json(&self) -> (r: Result<Json, String>)
        ensures
            wire_result(r) == self.wire(),
    ;
}

impl WireValue for Json {
    open spec fn wire(&self) -> WireForm {
        Ok(self@)
    }

    fn to_json(&self) -> (r: Result<Json, String>) {
        Ok(self.clone())
    }
}

impl WireValue for String {
    open spec fn wire(&self) -> WireForm {
        Ok(JsonView::Text(self@))
    }

    fn to_json(&self) -> (r: Result<Json, String>) {
        Ok(Json::Text(self.clone()))
    }
}

/// The name of an error code on the wire.
pub open spec fn code_name(code: WireErrorCode) -> Seq<char> {
    match code {
        WireErrorCode::MalformedFrame => "malformed_frame"@,
        WireErrorCode::UnknownField => "unknown_field"@,
        WireErrorCode::LimitExceededFrame => "limit_exceeded_frame"@,
        WireErrorCode::UnauthenticatedPeer => "unauthenticated_peer"@,
        WireErrorCode::UnsupportedVersion => "unsupported_version"@,
        WireErrorCode::OperationIdConflict => "operation_id_conflict"@,
        WireErrorCode::QuotaExceeded => "quota_exceeded"@,
        WireErrorCode::ServiceUnavailable => "service_unavailable"@,
        WireErrorCode::ClockRollback => "clock_rollback"@,
        WireErrorCode::ClockUntrusted => "clock_untrusted"@,
    }
}

fn code_text(code: WireErrorCode) -> (r: &'static str)
    ensures
        r@ == code_name(code),
{
    match code {
        WireErrorCode::MalformedFrame => "malformed_frame",
        WireErrorCode::UnknownField => "unknown_field",
        WireErrorCode::LimitExceededFrame => "limit_exceeded_frame",
        WireErrorCode::UnauthenticatedPeer => "unauthenticated_peer",
        WireErrorCode::UnsupportedVersion => "unsupported_version",
        WireErrorCode::OperationIdConflict => "operation_id_conflict",
        WireErrorCode::QuotaExceeded => "quota_exceeded",
        WireErrorCode::ServiceUnavailable => "service_unavailable",
        WireErrorCode::ClockRollback => "clock_rollback",
        WireErrorCode::ClockUntrusted => "clock_untrusted",
    }
}

/// Adds a text field to an object.
pub fn text_field(entries: &mut Vec<(String, Json)>, key: &str, value: &str)
    ensures
        Json::Object(*final(entries))@ == with_field(
            Json::Object(*old(entries))@,
            key@,
            JsonView::Text(value@),
        ),
{
    json_field(entries, key, Json::Text(value.to_owned()));
}

/// The object with one more field behind its others.
pub open spec fn with_field(object: JsonView, key: Seq<char>, value: JsonView) -> JsonView {
    JsonView::Object(object->Object_0.push((key, value)))
}

/// A field with exact numbers keeps the numbers of an object exact.
pub proof fn lemma_field_keeps_numbers(object: JsonView, key: Seq<char>, value: JsonView)
    requires
        object is Object,
        crate::codec::exact_numbers(object),
        crate::codec::exact_numbers(value),
    ensures
        crate::codec::exact_numbers(with_field(object, key, value)),
{
    let was = object->Object_0;
    let now = was.push((key, value));
    assert forall|i: int| 0 <= i < now.len() implies crate::codec::exact_numbers(
        (#[trigger] now[i]).1,
    ) by {
        if i < was.len() {
            assert(now[i] == was[i]);
        }
    }
}

/// Adds a field to an object.
pub fn json_field(entries: &mut Vec<(String, Json)>, key: &str, value: Json)
    ensures
        Json::Object(*final(entries))@ == with_field(
            Json::Object(*old(entries))@,
            key@,
            value@,
        ),
{
    let ghost before = entries@;
    entries.push((key.to_owned(), value));
    proof {
        let was = Json::Object(*old(entries))@->Object_0;
        let now = Json::Object(*entries)@->Object_0;
        assert forall|i: int| 0 <= i < now.len() implies now[i] == was.push((key@, value@))[i] by {
            if i < before.len() {
                assert(was[i] == (before[i].0@, before[i].1@));
            }
            assert(now[i] == (entries@[i].0@, entries@[i].1@));
        }
        assert(now =~= was.push((key@, value@)));
    }
}

/// An object without fields.
pub open spec fn no_fields() -> JsonView {
    JsonView::Object(Seq::empty())
}

/// The entries of an object without fields.
pub fn new_object() -> (r: Vec<(String, Json)>)
    ensures
        Json::Object(r)@ == no_fields(),
{
    let r: Vec<(String, Json)> = Vec::new();
    assert(Json::Object(r)@->Object_0 =~= Seq::empty());
    r
}

impl WireValue for WireError {
    open spec fn wire(&self) -> WireForm {
        Ok(
            with_field(
                with_field(no_fields(), "code"@, JsonView::Text(code_name(self.code))),
                "message"@,
                JsonView::Text(self.message@),
            ),
        )
    }

    fn to_json(&self) -> (r: Result<Json, String>) {
        let mut entries = new_object();
        text_field(&mut entries, "code", code_text(self.code));
        text_field(&mut entries, "message", self.message.as_str());
        Ok(Json::Object(entries))
    }
}

/// An outcome travels as an object with one field, `Ok` or `Err`.
impl<T: WireValue> WireValue for Result<T, WireError> {
    open spec fn wire(&self) -> WireForm {
        match self {
            Ok(value) => match value.wire() {
                Ok(tree) => Ok(with_field(no_fields(), "Ok"@, tree)),
                Err(text) => Err(text),
            },
            Err(error) => Ok(with_field(no_fields(), "Err"@, error.wire()->Ok_0)),
        }
    }

    fn to_json(&self) -> (r: Result<Json, String>) {
        let mut entries = new_object();
        match self {
            Ok(value) => match value.to_json() {
                Ok(json) => {
                    json_field(&mut entries, "Ok", json);
                    Ok(Json::Object(entries))
                },
                Err(text) => Err(text),
            },
            Err(error) => match error.to_json() {
                Ok(json) => {
                    json_field(&mut entries, "Err", json);
                    Ok(Json::Object(entries))
                },
                Err(text) => Err(text),
            },
        }
    }
}

/// The RFC 8785 bytes of a wire form, or the text of the error that prevents them.
pub open spec fn wire_bytes(wire: WireForm) -> Result<Seq<u8>, Seq<char>> {
    match wire {
        Ok(tree) => crate::codec::canonical(tree),
        Err(text) => Err(text),
    }
}

/// The RFC 8785 bytes of a value.
pub fn canonical_wire<T: WireValue>(value: &T) -> (r: Result<Vec<u8>, String>)
    ensures
        crate::codec::bytes_result(r) == wire_bytes(value.wire()),
        value.wire() is Ok && crate::codec::exact_numbers(value.wire()->Ok_0) ==> r is Ok,
{
    match value.to_json() {
        Ok(json) => {
            proof {
                if crate::codec::exact_numbers(json@) {
                    crate::codec::lemma_normal_is_portable(json@);
                }
            }
            canonical_json(&json)
        },
        Err(text) => Err(text),
    }
}

} // verus!
