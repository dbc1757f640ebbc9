//! Closed identifier and number formats of the wire.

use std::str::FromStr;

use vstd::prelude::*;
use vstd::string::*;
use vstd::utf8::*;

use crate::decimal::{
    decimal_leq, decimal_string, is_canonical_decimal, parse_canonical_decimal,
};
use crate::error::{WireError, WireErrorCode};
use crate::hex_text::{hex_decode, hex_encode, is_lower_hex};
use crate::text::same_text;

verus! {

/// The longest token, in bytes.
pub const TOKEN_MAX_BYTES: usize = 64;

pub open spec fn is_token_char(c: char) -> bool {
    'a' <= c <= 'z' || '0' <= c <= '9' || c == '.' || c == '_' || c == '-' || c == '/'
}

/// One to 64 lowercase letters, digits, dots, underscores, hyphens or slashes, a letter first.
pub open spec fn is_token_text(value: Seq<char>) -> bool {
    &&& 1 <= value.len() <= TOKEN_MAX_BYTES
    &&& 'a' <= value[0] <= 'z'
    &&& forall|i: int| 0 <= i < value.len() ==> is_token_char(#[trigger] value[i])
}

/// Tokens are ASCII.
pub proof fn lemma_token_is_ascii(value: Seq<char>)
    requires
        is_token_text(value),
    ensures
        is_ascii_chars(value),
{
    assert forall|i: int| 0 <= i < value.len() implies (#[trigger] value[i] as u32) < 128 by {
        assert(is_token_char(value[i]));
    }
}

/// Whether `value` is a token.
pub fn valid_token(value: &str) -> (r: bool)
    ensures
        r == is_token_text(value@),
{
    broadcast use is_ascii_chars_encode_utf8;

    if !value.is_ascii() {
        proof {
            if is_token_text(value@) {
                lemma_token_is_ascii(value@);
            }
        }
        return false;
    }
    let bytes = value.as_bytes();
    if bytes.len() == 0 || bytes.len() > TOKEN_MAX_BYTES {
        return false;
    }
    if bytes[0] < ('a' as u8) || bytes[0] > ('z' as u8) {
        return false;
    }
    let mut i: usize = 0;
    while i < bytes.len()
        invariant
            is_ascii_chars(value@),
            bytes@ == Seq::new(value@.len(), |k: int| value@[k] as u8),
            i <= bytes@.len(),
            forall|k: int| 0 <= k < i ==> is_token_char(#[trigger] value@[k]),
        decreases bytes@.len() - i,
    {
        let b: u8 = bytes[i];
        let in_alphabet = ('a' as u8) <= b && b <= ('z' as u8) || ('0' as u8) <= b && b <= (
        '9' as u8) || b == ('.' as u8) || b == ('_' as u8) || b == ('-' as u8) || b == ('/' as u8);
        if !in_alphabet {
            assert(!is_token_char(value@[i as int]));
            return false;
        }
        i = i + 1;
    }
    true
}

/// A short, lowercase protocol identifier.
#[derive(Debug, PartialEq, Eq, PartialOrd, Ord, Hash)]
pub struct Token(String);

impl View for Token {
    type V = Seq<char>;

    closed spec fn view(&self) -> Seq<char> {
        self.0@
    }
}

impl Clone for Token {
    fn clone(&self) -> (r: Self)
        ensures
            r@ == self@,
    {
        proof {
            use_type_invariant(self);
        }
        Token(self.0.clone())
    }
}

impl Token {
    #[verifier::type_invariant]
    spec fn well_formed(self) -> bool {
        is_token_text(self.0@)
    }

    /// Accepts exactly the token texts.
    pub fn new(value: &str) -> (r: Result<Self, WireError>)
        ensures
            match r {
                Ok(token) => is_token_text(value@) && token@ == value@,
                Err(e) => !is_token_text(value@) && e@.code == WireErrorCode::MalformedFrame
                    && e@.message
                    == "token must be a 1-64 byte lowercase ASCII protocol identifier"@,
            },
    {
        if valid_token(value) {
            Ok(Token(value.to_owned()))
        } else {
            Err(
                WireError::fatal(
                    WireErrorCode::MalformedFrame,
                    "token must be a 1-64 byte lowercase ASCII protocol identifier",
                ),
            )
        }
    }

    pub fn as_str(&self) -> (r: &str)
        ensures
            r@ == self@,
            is_token_text(self@),
    {
        proof {
            use_type_invariant(self);
        }
        self.0.as_str()
    }

    /// Whether both hold the same text.
    pub fn same_as(&self, other: &Self) -> (r: bool)
        ensures
            r == (self@ == other@),
    {
        same_text(self.0.as_str(), other.0.as_str())
    }
}

impl FromStr for Token {
    type Err = WireError;

    /// Accepts exactly the texts that [`Self::new`] accepts.
    fn from_str(value: &str) -> (r: Result<Self, WireError>)
        ensures
            match r {
                Ok(token) => is_token_text(value@) && token@ == value@,
                Err(e) => !is_token_text(value@) && e@.code == WireErrorCode::MalformedFrame
                    && e@.message
                    == "token must be a 1-64 byte lowercase ASCII protocol identifier"@,
            },
    {
        Self::new(value)
    }
}

/// SHA-256 digest, as lowercase hexadecimal.
#[derive(Debug, PartialEq, Eq, PartialOrd, Ord, Hash)]
pub struct Digest32(String);

impl View for Digest32 {
    type V = Seq<char>;

    closed spec fn view(&self) -> Seq<char> {
        self.0@
    }
}

impl Clone for Digest32 {
    fn clone(&self) -> (r: Self)
        ensures
            r@ == self@,
    {
        proof {
            use_type_invariant(self);
        }
        Digest32(self.0.clone())
    }
}

impl Digest32 {
    pub const HEX_LENGTH: usize = 64;

    #[verifier::type_invariant]
    spec fn well_formed(self) -> bool {
        crate::hex_text::is_lower_hex_text(self.0@, 64)
    }

    /// Accepts exactly 64 lowercase hexadecimal digits.
    pub fn new(value: &str) -> (r: Result<Self, WireError>)
        ensures
            match r {
                Ok(id) => crate::hex_text::is_lower_hex_text(value@, 64) && id@ == value@,
                Err(e) => !crate::hex_text::is_lower_hex_text(value@, 64) && e@.code
                    == WireErrorCode::MalformedFrame && e@.message
                    == "SHA-256 digest must be fixed-length lowercase hexadecimal"@,
            },
    {
        if is_lower_hex(value, Self::HEX_LENGTH) {
            Ok(Digest32(value.to_owned()))
        } else {
            Err(
                WireError::fatal(
                    WireErrorCode::MalformedFrame,
                    "SHA-256 digest must be fixed-length lowercase hexadecimal",
                ),
            )
        }
    }

    pub fn from_bytes(bytes: [u8; 32]) -> (r: Self)
        ensures
            r@ == crate::hex_text::hex_chars(bytes@),
    {
        proof {
            crate::hex_text::law_hex_decodes_what_it_encodes(bytes@);
        }
        Digest32(hex_encode(bytes.as_slice()))
    }

    pub fn as_str(&self) -> (r: &str)
        ensures
            r@ == self@,
            crate::hex_text::is_lower_hex_text(self@, 64),
    {
        proof {
            use_type_invariant(self);
        }
        self.0.as_str()
    }

    /// Whether both hold the same text.
    pub fn same_as(&self, other: &Self) -> (r: bool)
        ensures
            r == (self@ == other@),
    {
        same_text(self.0.as_str(), other.0.as_str())
    }

    /// The bytes that were given to [`Self::from_bytes`], or that the text stands for.
    pub fn to_bytes(&self) -> (r: [u8; 32])
        ensures
            r@ == crate::hex_text::hex_bytes(self@),
            crate::hex_text::hex_chars(r@) == self@,
    {
        proof {
            use_type_invariant(self);
            assert forall|i: int| 0 <= i < self.0@.len() implies crate::hex_text::is_hex_digit(
                #[trigger] self.0@[i],
            ) by {
                assert(crate::hex_text::is_lower_hex_digit(self.0@[i]));
            }
            crate::hex_text::law_hex_encodes_what_it_decodes(self.0@);
        }
        let mut out: [u8; 32] = [0u8; 32];
        if let Some(decoded) = hex_decode(self.0.as_str()) {
            let mut i: usize = 0;
            while i < 32
                invariant
                    decoded@.len() == 32,
                    i <= 32,
                    forall|k: int| 0 <= k < i ==> out@[k] == decoded@[k],
                decreases 32 - i,
            {
                out[i] = decoded[i];
                i = i + 1;
            }
            assert(out@ =~= decoded@);
        }
        out
    }
}

impl FromStr for Digest32 {
    type Err = WireError;

    /// Accepts exactly the texts that [`Self::new`] accepts.
    fn from_str(value: &str) -> (r: Result<Self, WireError>)
        ensures
            match r {
                Ok(id) => crate::hex_text::is_lower_hex_text(value@, 64) && id@ == value@,
                Err(e) => !crate::hex_text::is_lower_hex_text(value@, 64) && e@.code
                    == WireErrorCode::MalformedFrame && e@.message
                    == "SHA-256 digest must be fixed-length lowercase hexadecimal"@,
            },
    {
        Self::new(value)
    }
}

/// Operation ID, as lowercase hexadecimal.
#[derive(Debug, PartialEq, Eq, PartialOrd, Ord, Hash)]
pub struct OperationId(String);

impl View for OperationId {
    type V = Seq<char>;

    closed spec fn view(&self) -> Seq<char> {
        self.0@
    }
}

impl Clone for OperationId {
    fn clone(&self) -> (r: Self)
        ensures
            r@ == self@,
    {
        proof {
            use_type_invariant(self);
        }
        OperationId(self.0.clone())
    }
}

impl OperationId {
    pub const HEX_LENGTH: usize = 64;

    #[verifier::type_invariant]
    spec fn well_formed(self) -> bool {
        crate::hex_text::is_lower_hex_text(self.0@, 64)
    }

    /// Accepts exactly 64 lowercase hexadecimal digits.
    pub fn new(value: &str) -> (r: Result<Self, WireError>)
        ensures
            match r {
                Ok(id) => crate::hex_text::is_lower_hex_text(value@, 64) && id@ == value@,
                Err(e) => !crate::hex_text::is_lower_hex_text(value@, 64) && e@.code
                    == WireErrorCode::MalformedFrame && e@.message
                    == "operation ID must be fixed-length lowercase hexadecimal"@,
            },
    {
        if is_lower_hex(value, Self::HEX_LENGTH) {
            Ok(OperationId(value.to_owned()))
        } else {
            Err(
                WireError::fatal(
                    WireErrorCode::MalformedFrame,
                    "operation ID must be fixed-length lowercase hexadecimal",
                ),
            )
        }
    }

    pub fn from_bytes(bytes: [u8; 32]) -> (r: Self)
        ensures
            r@ == crate::hex_text::hex_chars(bytes@),
    {
        proof {
            crate::hex_text::law_hex_decodes_what_it_encodes(bytes@);
        }
        OperationId(hex_encode(bytes.as_slice()))
    }

    pub fn as_str(&self) -> (r: &str)
        ensures
            r@ == self@,
            crate::hex_text::is_lower_hex_text(self@, 64),
    {
        proof {
            use_type_invariant(self);
        }
        self.0.as_str()
    }

    /// Whether both hold the same text.
    pub fn same_as(&self, other: &Self) -> (r: bool)
        ensures
            r == (self@ == other@),
    {
        same_text(self.0.as_str(), other.0.as_str())
    }

    /// The bytes that were given to [`Self::from_bytes`], or that the text stands for.
    pub fn to_bytes(&self) -> (r: [u8; 32])
        ensures
            r@ == crate::hex_text::hex_bytes(self@),
            crate::hex_text::hex_chars(r@) == self@,
    {
        proof {
            use_type_invariant(self);
            assert forall|i: int| 0 <= i < self.0@.len() implies crate::hex_text::is_hex_digit(
                #[trigger] self.0@[i],
            ) by {
                assert(crate::hex_text::is_lower_hex_digit(self.0@[i]));
            }
            crate::hex_text::law_hex_encodes_what_it_decodes(self.0@);
        }
        let mut out: [u8; 32] = [0u8; 32];
        if let Some(decoded) = hex_decode(self.0.as_str()) {
            let mut i: usize = 0;
            while i < 32
                invariant
                    decoded@.len() == 32,
                    i <= 32,
                    forall|k: int| 0 <= k < i ==> out@[k] == decoded@[k],
                decreases 32 - i,
            {
                out[i] = decoded[i];
                i = i + 1;
            }
            assert(out@ =~= decoded@);
        }
        out
    }
}

impl FromStr for OperationId {
    type Err = WireError;

    /// Accepts exactly the texts that [`Self::new`] accepts.
    fn from_str(value: &str) -> (r: Result<Self, WireError>)
        ensures
            match r {
                Ok(id) => crate::hex_text::is_lower_hex_text(value@, 64) && id@ == value@,
                Err(e) => !crate::hex_text::is_lower_hex_text(value@, 64) && e@.code
                    == WireErrorCode::MalformedFrame && e@.message
                    == "operation ID must be fixed-length lowercase hexadecimal"@,
            },
    {
        Self::new(value)
    }
}

/// Boot epoch, as lowercase hexadecimal.
#[derive(Debug, PartialEq, Eq, PartialOrd, Ord, Hash)]
pub struct BootEpoch(String);

impl View for BootEpoch {
    type V = Seq<char>;

    closed spec fn view(&self) -> Seq<char> {
        self.0@
    }
}

impl Clone for BootEpoch {
    fn clone(&self) -> (r: Self)
        ensures
            r@ == self@,
    {
        proof {
            use_type_invariant(self);
        }
        BootEpoch(self.0.clone())
    }
}

impl BootEpoch {
    pub const HEX_LENGTH: usize = 32;

    #[verifier::type_invariant]
    spec fn well_formed(self) -> bool {
        crate::hex_text::is_lower_hex_text(self.0@, 32)
    }

    /// Accepts exactly 32 lowercase hexadecimal digits.
    pub fn new(value: &str) -> (r: Result<Self, WireError>)
        ensures
            match r {
                Ok(id) => crate::hex_text::is_lower_hex_text(value@, 32) && id@ == value@,
                Err(e) => !crate::hex_text::is_lower_hex_text(value@, 32) && e@.code
                    == WireErrorCode::MalformedFrame && e@.message
                    == "boot epoch must be fixed-length lowercase hexadecimal"@,
            },
    {
        if is_lower_hex(value, Self::HEX_LENGTH) {
            Ok(BootEpoch(value.to_owned()))
        } else {
            Err(
                WireError::fatal(
                    WireErrorCode::MalformedFrame,
                    "boot epoch must be fixed-length lowercase hexadecimal",
                ),
            )
        }
    }

    pub fn from_bytes(bytes: [u8; 16]) -> (r: Self)
        ensures
            r@ == crate::hex_text::hex_chars(bytes@),
    {
        proof {
            crate::hex_text::law_hex_decodes_what_it_encodes(bytes@);
        }
        BootEpoch(hex_encode(bytes.as_slice()))
    }

    pub fn as_str(&self) -> (r: &str)
        ensures
            r@ == self@,
            crate::hex_text::is_lower_hex_text(self@, 32),
    {
        proof {
            use_type_invariant(self);
        }
        self.0.as_str()
    }

    /// Whether both hold the same text.
    pub fn same_as(&self, other: &Self) -> (r: bool)
        ensures
            r == (self@ == other@),
    {
        same_text(self.0.as_str(), other.0.as_str())
    }

    /// The bytes that were given to [`Self::from_bytes`], or that the text stands for.
    pub fn to_bytes(&self) -> (r: [u8; 16])
        ensures
            r@ == crate::hex_text::hex_bytes(self@),
            crate::hex_text::hex_chars(r@) == self@,
    {
        proof {
            use_type_invariant(self);
            assert forall|i: int| 0 <= i < self.0@.len() implies crate::hex_text::is_hex_digit(
                #[trigger] self.0@[i],
            ) by {
                assert(crate::hex_text::is_lower_hex_digit(self.0@[i]));
            }
            crate::hex_text::law_hex_encodes_what_it_decodes(self.0@);
        }
        let mut out: [u8; 16] = [0u8; 16];
        if let Some(decoded) = hex_decode(self.0.as_str()) {
            let mut i: usize = 0;
            while i < 16
                invariant
                    decoded@.len() == 16,
                    i <= 16,
                    forall|k: int| 0 <= k < i ==> out@[k] == decoded@[k],
                decreases 16 - i,
            {
                out[i] = decoded[i];
                i = i + 1;
            }
            assert(out@ =~= decoded@);
        }
        out
    }
}

impl FromStr for BootEpoch {
    type Err = WireError;

    /// Accepts exactly the texts that [`Self::new`] accepts.
    fn from_str(value: &str) -> (r: Result<Self, WireError>)
        ensures
            match r {
                Ok(id) => crate::hex_text::is_lower_hex_text(value@, 32) && id@ == value@,
                Err(e) => !crate::hex_text::is_lower_hex_text(value@, 32) && e@.code
                    == WireErrorCode::MalformedFrame && e@.message
                    == "boot epoch must be fixed-length lowercase hexadecimal"@,
            },
    {
        Self::new(value)
    }
}

/// Request nonce, as lowercase hexadecimal.
#[derive(Debug, PartialEq, Eq, PartialOrd, Ord, Hash)]
pub struct RequestNonce(String);

impl View for RequestNonce {
    type V = Seq<char>;

    closed spec fn view(&self) -> Seq<char> {
        self.0@
    }
}

impl Clone for RequestNonce {
    fn clone(&self) -> (r: Self)
        ensures
            r@ == self@,
    {
        proof {
            use_type_invariant(self);
        }
        RequestNonce(self.0.clone())
    }
}

impl RequestNonce {
    pub const HEX_LENGTH: usize = 32;

    #[verifier::type_invariant]
    spec fn well_formed(self) -> bool {
        crate::hex_text::is_lower_hex_text(self.0@, 32)
    }

    /// Accepts exactly 32 lowercase hexadecimal digits.
    pub fn new(value: &str) -> (r: Result<Self, WireError>)
        ensures
            match r {
                Ok(id) => crate::hex_text::is_lower_hex_text(value@, 32) && id@ == value@,
                Err(e) => !crate::hex_text::is_lower_hex_text(value@, 32) && e@.code
                    == WireErrorCode::MalformedFrame && e@.message
                    == "request nonce must be fixed-length lowercase hexadecimal"@,
            },
    {
        if is_lower_hex(value, Self::HEX_LENGTH) {
            Ok(RequestNonce(value.to_owned()))
        } else {
            Err(
                WireError::fatal(
                    WireErrorCode::MalformedFrame,
                    "request nonce must be fixed-length lowercase hexadecimal",
                ),
            )
        }
    }

    pub fn from_bytes(bytes: [u8; 16]) -> (r: Self)
        ensures
            r@ == crate::hex_text::hex_chars(bytes@),
    {
        proof {
            crate::hex_text::law_hex_decodes_what_it_encodes(bytes@);
        }
        RequestNonce(hex_encode(bytes.as_slice()))
    }

    pub fn as_str(&self) -> (r: &str)
        ensures
            r@ == self@,
            crate::hex_text::is_lower_hex_text(self@, 32),
    {
        proof {
            use_type_invariant(self);
        }
        self.0.as_str()
    }

    /// Whether both hold the same text.
    pub fn same_as(&self, other: &Self) -> (r: bool)
        ensures
            r == (self@ == other@),
    {
        same_text(self.0.as_str(), other.0.as_str())
    }

    /// The bytes that were given to [`Self::from_bytes`], or that the text stands for.
    pub fn to_bytes(&self) -> (r: [u8; 16])
        ensures
            r@ == crate::hex_text::hex_bytes(self@),
            crate::hex_text::hex_chars(r@) == self@,
    {
        proof {
            use_type_invariant(self);
            assert forall|i: int| 0 <= i < self.0@.len() implies crate::hex_text::is_hex_digit(
                #[trigger] self.0@[i],
            ) by {
                assert(crate::hex_text::is_lower_hex_digit(self.0@[i]));
            }
            crate::hex_text::law_hex_encodes_what_it_decodes(self.0@);
        }
        let mut out: [u8; 16] = [0u8; 16];
        if let Some(decoded) = hex_decode(self.0.as_str()) {
            let mut i: usize = 0;
            while i < 16
                invariant
                    decoded@.len() == 16,
                    i <= 16,
                    forall|k: int| 0 <= k < i ==> out@[k] == decoded@[k],
                decreases 16 - i,
            {
                out[i] = decoded[i];
                i = i + 1;
            }
            assert(out@ =~= decoded@);
        }
        out
    }
}

impl FromStr for RequestNonce {
    type Err = WireError;

    /// Accepts exactly the texts that [`Self::new`] accepts.
    fn from_str(value: &str) -> (r: Result<Self, WireError>)
        ensures
            match r {
                Ok(id) => crate::hex_text::is_lower_hex_text(value@, 32) && id@ == value@,
                Err(e) => !crate::hex_text::is_lower_hex_text(value@, 32) && e@.code
                    == WireErrorCode::MalformedFrame && e@.message
                    == "request nonce must be fixed-length lowercase hexadecimal"@,
            },
    {
        Self::new(value)
    }
}

/// Canonical unsigned 64-bit decimal string.
#[derive(Debug, PartialEq, Eq, PartialOrd, Ord)]
pub struct DecimalU64(String);

impl View for DecimalU64 {
    type V = u64;

    closed spec fn view(&self) -> u64 {
        crate::decimal::decimal_value(self.0@) as u64
    }
}

impl Clone for DecimalU64 {
    fn clone(&self) -> (r: Self)
        ensures
            r@ == self@,
    {
        proof {
            use_type_invariant(self);
        }
        DecimalU64(self.0.clone())
    }
}

impl DecimalU64 {
    #[verifier::type_invariant]
    spec fn well_formed(self) -> bool {
        &&& crate::decimal::canonical_decimal(self.0@)
        &&& crate::decimal::decimal_value(self.0@) <= u64::MAX
    }

    pub fn new(value: u64) -> (r: Self)
        ensures
            r@ == value,
    {
        proof {
            crate::decimal::law_decimal_chars_canonical(value as nat);
        }
        DecimalU64(decimal_string(value))
    }

    /// Accepts exactly the canonical decimal texts of 64-bit numbers.
    pub fn parse(value: &str) -> (r: Result<Self, WireError>)
        ensures
            match r {
                Ok(number) => crate::decimal::canonical_decimal(value@) && number@
                    == crate::decimal::decimal_value(value@),
                Err(e) => !(crate::decimal::canonical_decimal(value@)
                    && crate::decimal::decimal_value(value@) <= u64::MAX) && e@.code
                    == WireErrorCode::MalformedFrame && e@.message
                    == "value must be a canonical unsigned 64-bit decimal string"@,
            },
    {
        if let Some(number) = parse_canonical_decimal(value) {
            if number <= u64::MAX as u128 {
                return Ok(Self::new(number as u64));
            }
        }
        Err(
            WireError::fatal(
                WireErrorCode::MalformedFrame,
                "value must be a canonical unsigned 64-bit decimal string",
            ),
        )
    }

    pub fn get(&self) -> (r: u64)
        ensures
            r == self@,
    {
        proof {
            use_type_invariant(self);
        }
        match parse_canonical_decimal(self.0.as_str()) {
            Some(number) => number as u64,
            None => 0,
        }
    }

    /// The canonical decimal digits of the number.
    pub fn as_str(&self) -> (r: &str)
        ensures
            r@ == crate::decimal::decimal_chars(self@ as nat),
    {
        proof {
            use_type_invariant(self);
            crate::decimal::law_decimal_value_canonical(self.0@);
        }
        self.0.as_str()
    }
}

/// The greatest unsigned 256-bit number.
pub open spec fn u256_max() -> nat {
    0xffff_ffff_ffff_ffff_ffff_ffff_ffff_ffff_ffff_ffff_ffff_ffff_ffff_ffff_ffff_ffffnat
}

/// Canonical unsigned 256-bit decimal string.
///
/// Only the closed wire representation is validated here; arithmetic belongs to the package that
/// owns the amounts.
#[derive(Debug, PartialEq, Eq, PartialOrd, Ord)]
pub struct DecimalU256(String);

impl View for DecimalU256 {
    type V = nat;

    closed spec fn view(&self) -> nat {
        crate::decimal::decimal_value(self.0@)
    }
}

impl Clone for DecimalU256 {
    fn clone(&self) -> (r: Self)
        ensures
            r@ == self@,
    {
        proof {
            use_type_invariant(self);
        }
        DecimalU256(self.0.clone())
    }
}

impl DecimalU256 {
    #[verifier::type_invariant]
    spec fn well_formed(self) -> bool {
        &&& crate::decimal::canonical_decimal(self.0@)
        &&& crate::decimal::decimal_value(self.0@) <= u256_max()
    }

    /// Accepts exactly the canonical decimal texts of 256-bit numbers.
    pub fn parse(value: &str) -> (r: Result<Self, WireError>)
        ensures
            match r {
                Ok(number) => crate::decimal::canonical_decimal(value@) && number@
                    == crate::decimal::decimal_value(value@) && number@ <= u256_max(),
                Err(e) => !(crate::decimal::canonical_decimal(value@)
                    && crate::decimal::decimal_value(value@) <= u256_max()) && e@.code
                    == WireErrorCode::MalformedFrame && e@.message
                    == "value must be a canonical unsigned 256-bit decimal string"@,
            },
    {
        proof {
            lemma_u256_max_text();
        }
        if is_canonical_decimal(value) && decimal_leq(
            value,
            "115792089237316195423570985008687907853269984665640564039457584007913129639935",
        ) {
            Ok(DecimalU256(value.to_owned()))
        } else {
            Err(
                WireError::fatal(
                    WireErrorCode::MalformedFrame,
                    "value must be a canonical unsigned 256-bit decimal string",
                ),
            )
        }
    }

    /// The canonical decimal digits of the number.
    pub fn as_str(&self) -> (r: &str)
        ensures
            r@ == crate::decimal::decimal_chars(self@),
            self@ <= u256_max(),
    {
        proof {
            use_type_invariant(self);
            crate::decimal::law_decimal_value_canonical(self.0@);
        }
        self.0.as_str()
    }
}

/// The text of the greatest unsigned 256-bit number.
#[verifier::spinoff_prover]
#[verifier::rlimit(60)]
proof fn lemma_u256_max_text()
    ensures
        crate::decimal::canonical_decimal(
            "115792089237316195423570985008687907853269984665640564039457584007913129639935"@,
        ),
        crate::decimal::decimal_value(
            "115792089237316195423570985008687907853269984665640564039457584007913129639935"@,
        ) == u256_max(),
{
    let a = "11579208923731619542357098"@;
    let b = "50086879078532699846656405"@;
    let c = "64039457584007913129639935"@;
    let whole = "115792089237316195423570985008687907853269984665640564039457584007913129639935"@;
    reveal_strlit("11579208923731619542357098");
    reveal_strlit("50086879078532699846656405");
    reveal_strlit("64039457584007913129639935");
    reveal_strlit("115792089237316195423570985008687907853269984665640564039457584007913129639935");
    assert(whole =~= a + b + c);
    assert(crate::decimal::decimal_value(a) == 11579208923731619542357098) by {
        reveal_with_fuel(crate::decimal::decimal_value, 27);
    }
    assert(crate::decimal::decimal_value(b) == 50086879078532699846656405) by {
        reveal_with_fuel(crate::decimal::decimal_value, 27);
    }
    assert(crate::decimal::decimal_value(c) == 64039457584007913129639935) by {
        reveal_with_fuel(crate::decimal::decimal_value, 27);
    }
    crate::decimal::lemma_decimal_concat(a, b);
    crate::decimal::lemma_decimal_concat(a + b, c);
    let t = crate::decimal::ten_to(26);
    assert(t == 100000000000000000000000000) by {
        reveal_with_fuel(crate::decimal::ten_to, 27);
    }
    assert(11579208923731619542357098 * t == 1157920892373161954235709800000000000000000000000000) by (nonlinear_arith)
        requires
            t == 100000000000000000000000000,
    ;
    assert(1157920892373161954235709850086879078532699846656405 * t == 115792089237316195423570985008687907853269984665640500000000000000000000000000) by (nonlinear_arith)
        requires
            t == 100000000000000000000000000,
    ;
}

} // verus!
