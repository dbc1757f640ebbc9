//! Typed requests: bodies whose wire form carries a closed method tag.

use vstd::prelude::*;
use vstd::string::*;

use crate::codec::{malformed, malformed_error};
use crate::envelope::{AuthenticatedPeer, EnvelopeKind, SignedEnvelope, UnsignedEnvelope};
use crate::error::{WireError, WireErrorCode, WireErrorView};
use crate::ids::{OperationId, Token};
use crate::json::{Json, JsonView};
use crate::text::same_text;
use crate::wire::WireValue;

verus! {

/// The value of a key: of equal keys, the last one counts.
pub open spec fn field_of(entries: Seq<(Seq<char>, JsonView)>, key: Seq<char>) -> Option<JsonView>
    decreases entries.len(),
{
    if entries.len() == 0 {
        None
    } else if entries.last().0 == key {
        Some(entries.last().1)
    } else {
        field_of(entries.drop_last(), key)
    }
}

/// The text of the `method` field of an object.
pub open spec fn method_tag(tree: JsonView) -> Option<Seq<char>> {
    match tree {
        JsonView::Object(entries) => match field_of(entries, "method"@) {
            Some(JsonView::Text(text)) => Some(text),
            _ => None,
        },
        _ => None,
    }
}

/// The method of a wire form, or why it has none.
pub open spec fn method_of(wire: Result<JsonView, Seq<char>>) -> Result<Seq<char>, WireErrorView> {
    match wire {
        Err(text) => Err(
            malformed_error(
                crate::envelope::labelled("typed request serialization failed: "@, text),
            ),
        ),
        Ok(tree) => match method_tag(tree) {
            None => Err(malformed_error("typed request has no method discriminator"@)),
            Some(text) => if crate::ids::is_token_text(text) {
                Ok(text)
            } else {
                Err(
                    malformed_error(
                        "token must be a 1-64 byte lowercase ASCII protocol identifier"@,
                    ),
                )
            },
        },
    }
}

pub open spec fn token_result(r: Result<Token, WireError>) -> Result<Seq<char>, WireErrorView> {
    match r {
        Ok(token) => Ok(token@),
        Err(e) => Err(e@),
    }
}

/// Finds the text of the `method` field of an object.
fn find_method(json: &Json) -> (r: Option<&String>)
    ensures
        match r {
            Some(text) => method_tag(json@) == Some(text@),
            None => method_tag(json@) is None,
        },
{
    if let Json::Object(entries) = json {
        let ghost given = json@->Object_0;
        let mut i: usize = entries.len();
        assert(given.take(i as int) =~= given);
        while i > 0
            invariant
                *json == Json::Object(*entries),
                given == json@->Object_0,
                given.len() == entries@.len(),
                i <= entries@.len(),
                field_of(given, "method"@) == field_of(given.take(i as int), "method"@),
            decreases i,
        {
            let entry = &entries[i - 1];
            proof {
                assert(given[i - 1] == (entry.0@, entry.1@));
                assert(given.take(i as int).last() == given[i - 1]);
                assert(given.take(i as int).drop_last() =~= given.take(i - 1));
            }
            if same_text(entry.0.as_str(), "method") {
                if let Json::Text(text) = &entry.1 {
                    return Some(text);
                }
                return None;
            }
            i = i - 1;
        }
    }
    None
}

/// The method that a wire form carries.
pub fn method_of_wire(wire: Result<Json, String>) -> (r: Result<Token, WireError>)
    ensures
        token_result(r) == method_of(crate::wire::wire_result(wire)),
{
    let json = match wire {
        Ok(json) => json,
        Err(text) => {
            let mut message = "typed request serialization failed: ".to_owned();
            message.append(text.as_str());
            return Err(malformed(message.as_str()));
        },
    };
    match find_method(&json) {
        None => Err(malformed("typed request has no method discriminator")),
        Some(text) => Token::new(text.as_str()),
    }
}

/// A typed RPC body whose wire representation contains a closed method tag.
pub trait TypedRequestMethod: WireValue {
    fn method(&self) -> (r: Result<Token, WireError>)
        default_ensures
            token_result(r) == method_of(self.wire()),
    {
        method_of_wire(self.to_json())
    }

    /// Returns the stable domain operation ID when the typed request carries one directly.
    /// Read-only requests without an operation receive a fresh transport correlation ID from the
    /// caller.
    fn operation_id(&self) -> (r: Result<Option<OperationId>, WireError>)
        default_ensures
            r == Ok::<Option<OperationId>, WireError>(None),
    {
        Ok(None)
    }
}

/// A JSON body is its own typed request.
impl TypedRequestMethod for Json {

}

/// Whether an authentic envelope is bound to what its body says of itself.
pub open spec fn typed_binding<T>(
    envelope: UnsignedEnvelope<T>,
    method: Result<Token, WireError>,
    operation: Result<Option<OperationId>, WireError>,
) -> Result<(), WireErrorView> {
    if envelope.kind != EnvelopeKind::Request {
        Err(malformed_error("typed request verifier received a response envelope"@))
    } else {
        match method {
            Err(e) => Err(e@),
            Ok(method) => if envelope.method@ != method@ {
                Err(
                    malformed_error(
                        "authenticated envelope method does not match typed request method"@,
                    ),
                )
            } else {
                match operation {
                    Err(e) => Err(e@),
                    Ok(Some(id)) => if id@ != envelope.operation_id@ {
                        Err(
                            WireErrorView {
                                code: WireErrorCode::OperationIdConflict,
                                message:
                                    "authenticated envelope operation ID does not match typed request body"@,
                            },
                        )
                    } else {
                        Ok(())
                    },
                    Ok(None) => Ok(()),
                }
            },
        }
    }
}

/// Binds an authentic envelope to the method and operation that its body states.
pub fn check_typed_binding<T>(
    envelope: &UnsignedEnvelope<T>,
    method: Result<Token, WireError>,
    operation: Result<Option<OperationId>, WireError>,
) -> (r: Result<(), WireError>)
    ensures
        crate::error::outcome(r) == typed_binding(*envelope, method, operation),
{
    if envelope.kind != EnvelopeKind::Request {
        return Err(malformed("typed request verifier received a response envelope"));
    }
    let method = match method {
        Ok(method) => method,
        Err(error) => {
            return Err(error);
        },
    };
    if !envelope.method.same_as(&method) {
        return Err(malformed("authenticated envelope method does not match typed request method"));
    }
    match operation {
        Err(error) => Err(error),
        Ok(None) => Ok(()),
        Ok(Some(id)) => if !id.same_as(&envelope.operation_id) {
            Err(
                WireError::new(
                    WireErrorCode::OperationIdConflict,
                    "authenticated envelope operation ID does not match typed request body",
                ),
            )
        } else {
            Ok(())
        },
    }
}

impl<T: TypedRequestMethod> SignedEnvelope<T> {
    /// Verifies peer/application identity and binds the authenticated outer method to the typed
    /// body's dispatch discriminator.
    pub fn verify_typed(
        &self,
        observed_effective_uid: u32,
        expected: &AuthenticatedPeer,
    ) -> (r: Result<(), WireError>)
        ensures
            match crate::envelope::authentic(*self, observed_effective_uid, *expected) {
                Err(e) => crate::error::outcome(r) == Err::<(), WireErrorView>(e),
                Ok(_) => exists|
                    method: Result<Token, WireError>,
                    operation: Result<Option<OperationId>, WireError>,
                |
                    {
                        &&& #[trigger] call_ensures(T::method, (&self.unsigned.body,), method)
                        &&& #[trigger] call_ensures(
                            T::operation_id,
                            (&self.unsigned.body,),
                            operation,
                        )
                        &&& crate::error::outcome(r) == typed_binding(
                            self.unsigned,
                            method,
                            operation,
                        )
                    },
            },
    {
        if let Err(error) = self.verify(observed_effective_uid, expected) {
            return Err(error);
        }
        let method = self.unsigned.body.method();
        let operation = self.unsigned.body.operation_id();
        let r = check_typed_binding(&self.unsigned, method, operation);
        assert(call_ensures(T::method, (&self.unsigned.body,), method));
        assert(call_ensures(T::operation_id, (&self.unsigned.body,), operation));
        r
    }
}

} // verus!
