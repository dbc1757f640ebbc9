//! The closed error vocabulary of the wire.

use vstd::prelude::*;
use vstd::string::*;

verus! {

/// Why a peer, a frame or a request was refused.
#[derive(Clone, Copy, Debug, PartialEq, Eq, Structural)]
pub enum WireErrorCode {
    MalformedFrame,
    UnknownField,
    LimitExceededFrame,
    UnauthenticatedPeer,
    UnsupportedVersion,
    OperationIdConflict,
    QuotaExceeded,
    ServiceUnavailable,
    ClockRollback,
    ClockUntrusted,
}

/// An error code with a message for the operator.
#[derive(Debug, PartialEq, Eq)]
pub struct WireError {
    pub code: WireErrorCode,
    pub message: String,
}

/// What a [`WireError`] says: its code and the characters of its message.
pub struct WireErrorView {
    pub code: WireErrorCode,
    pub message: Seq<char>,
}

impl View for WireError {
    type V = WireErrorView;

    open spec fn view(&self) -> WireErrorView {
        WireErrorView { code: self.code, message: self.message@ }
    }
}

/// The error with code `code` and message `message`.
pub open spec fn error_of(code: WireErrorCode, message: Seq<char>) -> WireErrorView {
    WireErrorView { code, message }
}

/// The outcome of a check: nothing, or what the error says.
pub open spec fn outcome<T>(r: Result<T, WireError>) -> Result<(), WireErrorView> {
    match r {
        Ok(_) => Ok(()),
        Err(e) => Err(e@),
    }
}

impl Clone for WireError {
    fn clone(&self) -> (r: Self)
        ensures
            r@ == self@,
    {
        WireError { code: self.code, message: self.message.clone() }
    }
}

/// The name of a code, as it is shown to an operator.
pub open spec fn code_label(code: WireErrorCode) -> Seq<char> {
    match code {
        WireErrorCode::MalformedFrame => "MalformedFrame"@,
        WireErrorCode::UnknownField => "UnknownField"@,
        WireErrorCode::LimitExceededFrame => "LimitExceededFrame"@,
        WireErrorCode::UnauthenticatedPeer => "UnauthenticatedPeer"@,
        WireErrorCode::UnsupportedVersion => "UnsupportedVersion"@,
        WireErrorCode::OperationIdConflict => "OperationIdConflict"@,
        WireErrorCode::QuotaExceeded => "QuotaExceeded"@,
        WireErrorCode::ServiceUnavailable => "ServiceUnavailable"@,
        WireErrorCode::ClockRollback => "ClockRollback"@,
        WireErrorCode::ClockUntrusted => "ClockUntrusted"@,
    }
}

/// An error as it is shown to an operator: its code and its message.
pub open spec fn shown(error: WireErrorView) -> Seq<char> {
    code_label(error.code) + ": "@ + error.message
}

impl WireError {
    /// The error as it is shown to an operator.
    pub fn text(&self) -> (r: String)
        ensures
            r@ == shown(self@),
    {
        let label = match self.code {
            WireErrorCode::MalformedFrame => "MalformedFrame",
            WireErrorCode::UnknownField => "UnknownField",
            WireErrorCode::LimitExceededFrame => "LimitExceededFrame",
            WireErrorCode::UnauthenticatedPeer => "UnauthenticatedPeer",
            WireErrorCode::UnsupportedVersion => "UnsupportedVersion",
            WireErrorCode::OperationIdConflict => "OperationIdConflict",
            WireErrorCode::QuotaExceeded => "QuotaExceeded",
            WireErrorCode::ServiceUnavailable => "ServiceUnavailable",
            WireErrorCode::ClockRollback => "ClockRollback",
            WireErrorCode::ClockUntrusted => "ClockUntrusted",
        };
        let mut text = label.to_owned();
        text.append(": ");
        text.append(self.message.as_str());
        text
    }

    pub fn new(code: WireErrorCode, message: &str) -> (r: Self)
        ensures
            r@ == error_of(code, message@),
    {
        WireError { code, message: message.to_owned() }
    }

    pub fn fatal(code: WireErrorCode, message: &str) -> (r: Self)
        ensures
            r@ == error_of(code, message@),
    {
        Self::new(code, message)
    }
}

} // verus!
