//! Unpadded base64url byte strings.

use vstd::prelude::*;

use crate::codec::malformed;
use crate::error::{WireError, WireErrorView};
use crate::text::{same_text, text_contains};

verus! {

/// The base64url character of a number below 64.
pub open spec fn base64url_char(n: int) -> char {
    if n < 26 {
        ('A' as int + n) as char
    } else if n < 52 {
        ('a' as int + (n - 26)) as char
    } else if n < 62 {
        ('0' as int + (n - 52)) as char
    } else if n == 62 {
        '-'
    } else {
        '_'
    }
}

/// Byte `i` of a string that goes on with zeros.
pub open spec fn byte_or_zero(bytes: Seq<u8>, i: int) -> int {
    if 0 <= i < bytes.len() {
        bytes[i] as int
    } else {
        0
    }
}

/// The `i`-th group of six bits.
pub open spec fn sextet(bytes: Seq<u8>, i: int) -> int {
    let q = i / 4;
    if i % 4 == 0 {
        byte_or_zero(bytes, 3 * q) / 4
    } else if i % 4 == 1 {
        (byte_or_zero(bytes, 3 * q) % 4) * 16 + byte_or_zero(bytes, 3 * q + 1) / 16
    } else if i % 4 == 2 {
        (byte_or_zero(bytes, 3 * q + 1) % 16) * 4 + byte_or_zero(bytes, 3 * q + 2) / 64
    } else {
        byte_or_zero(bytes, 3 * q + 2) % 64
    }
}

/// The unpadded base64url text of a byte string: one character for each group of six bits.
pub open spec fn base64url_text(bytes: Seq<u8>) -> Seq<char> {
    Seq::new(((4 * bytes.len() + 2) / 3) as nat, |i: int| base64url_char(sextet(bytes, i)))
}

/// The text of the decoder's error on a text that it refuses.
pub uninterp spec fn base64url_fault(text: Seq<char>) -> Seq<char>;

proof fn lemma_base64url_char_injective(a: int, b: int)
    requires
        0 <= a < 64,
        0 <= b < 64,
        base64url_char(a) == base64url_char(b),
    ensures
        a == b,
{
}

proof fn lemma_sextet_range(bytes: Seq<u8>, i: int)
    requires
        0 <= i,
    ensures
        0 <= sextet(bytes, i) < 64,
{
}

/// Different byte strings have different texts.
pub proof fn law_base64url_is_injective(a: Seq<u8>, b: Seq<u8>)
    requires
        base64url_text(a) == base64url_text(b),
    ensures
        a == b,
{
    let text = base64url_text(a);
    assert((4 * a.len() + 2) / 3 == text.len() && (4 * b.len() + 2) / 3 == text.len());
    assert(a.len() == b.len());
    assert forall|i: int| 0 <= i < text.len() implies sextet(a, i) == sextet(b, i) by {
        lemma_sextet_range(a, i);
        lemma_sextet_range(b, i);
        assert(base64url_text(a)[i] == base64url_text(b)[i]);
        lemma_base64url_char_injective(sextet(a, i), sextet(b, i));
    }
    assert forall|k: int| 0 <= k < a.len() implies a[k] == b[k] by {
        let q = k / 3;
        if k % 3 == 0 {
            assert(k == 3 * q);
            assert(4 * q + 1 < text.len());
            assert((4 * q) / 4 == q && (4 * q + 1) / 4 == q);
            assert(sextet(a, 4 * q) == sextet(b, 4 * q));
            assert(sextet(a, 4 * q + 1) == sextet(b, 4 * q + 1));
            let x = a[k] as int;
            let y = b[k] as int;
            assert(x == 4 * (x / 4) + x % 4);
            assert(y == 4 * (y / 4) + y % 4);
            assert(0 <= byte_or_zero(a, 3 * q + 1) / 16 < 16);
            assert(0 <= byte_or_zero(b, 3 * q + 1) / 16 < 16);
        } else if k % 3 == 1 {
            assert(k == 3 * q + 1);
            assert(4 * q + 2 < text.len());
            assert((4 * q + 1) / 4 == q && (4 * q + 2) / 4 == q);
            assert(sextet(a, 4 * q + 1) == sextet(b, 4 * q + 1));
            assert(sextet(a, 4 * q + 2) == sextet(b, 4 * q + 2));
            let x = a[k] as int;
            let y = b[k] as int;
            assert(x == 16 * (x / 16) + x % 16);
            assert(y == 16 * (y / 16) + y % 16);
            assert(0 <= x / 16 < 16 && 0 <= y / 16 < 16);
            assert(0 <= byte_or_zero(a, 3 * q + 2) / 64 < 4);
            assert(0 <= byte_or_zero(b, 3 * q + 2) / 64 < 4);
        } else {
            assert(k == 3 * q + 2);
            assert(4 * q + 3 < text.len());
            assert((4 * q + 2) / 4 == q && (4 * q + 3) / 4 == q);
            assert(sextet(a, 4 * q + 2) == sextet(b, 4 * q + 2));
            assert(sextet(a, 4 * q + 3) == sextet(b, 4 * q + 3));
            let x = a[k] as int;
            let y = b[k] as int;
            assert(x == 64 * (x / 64) + x % 64);
            assert(y == 64 * (y / 64) + y % 64);
            assert(0 <= x / 64 < 4 && 0 <= y / 64 < 4);
        }
    }
    assert(a =~= b);
}

/// No text of a byte string holds a padding character.
proof fn lemma_base64url_unpadded(bytes: Seq<u8>)
    ensures
        !crate::text::contains_text(base64url_text(bytes), "="@),
{
    reveal_strlit("=");
    let text = base64url_text(bytes);
    if crate::text::contains_text(text, "="@) {
        let i = choose|i: int|
            0 <= i && i + "="@.len() <= text.len() && #[trigger] text.subrange(i, i + "="@.len())
                == "="@;
        lemma_sextet_range(bytes, i);
        assert(text.subrange(i, i + 1)[0] == text[i]);
        assert("="@[0] == '=');
    }
}

/// `URL_SAFE_NO_PAD.encode` of the `base64` crate.
#[verifier::external_body]
fn base64url_encode(bytes: &[u8]) -> (r: String)
    ensures
        r@ == base64url_text(bytes@),
{
    base64::Engine::encode(&base64::engine::general_purpose::URL_SAFE_NO_PAD, bytes)
}

/// `URL_SAFE_NO_PAD.decode` of the `base64` crate: it reads exactly the texts that encoding
/// writes, and refuses padding, other characters, a dangling character and set trailing bits.
#[verifier::external_body]
fn base64url_decode(text: &str) -> (r: Result<Vec<u8>, String>)
    ensures
        r matches Ok(bytes) ==> base64url_text(bytes@) == text@,
        r matches Err(fault) ==> fault@ == base64url_fault(text@) && forall|b: Seq<u8>|
            #[trigger] base64url_text(b) != text@,
{
    base64::Engine::decode(&base64::engine::general_purpose::URL_SAFE_NO_PAD, text)
        .map_err(|e| e.to_string())
}

/// A byte string that travels as unpadded base64url text.
#[derive(Debug, PartialEq, Eq)]
pub struct Base64UrlBytes(String);

impl View for Base64UrlBytes {
    type V = Seq<u8>;

    closed spec fn view(&self) -> Seq<u8> {
        choose|b: Seq<u8>| #[trigger] base64url_text(b) == self.0@
    }
}

impl Clone for Base64UrlBytes {
    fn clone(&self) -> (r: Self)
        ensures
            r@ == self@,
    {
        proof {
            use_type_invariant(self);
        }
        Base64UrlBytes(self.0.clone())
    }
}

/// Whether a text is the base64url text of some bytes.
pub open spec fn is_base64url(text: Seq<char>) -> bool {
    exists|b: Seq<u8>| #[trigger] base64url_text(b) == text
}

/// Why a text is no base64url text.
pub open spec fn base64url_error(text: Seq<char>) -> WireErrorView {
    if crate::text::contains_text(text, "="@) {
        crate::codec::malformed_error("base64url values must be unpadded"@)
    } else {
        crate::codec::malformed_error(base64url_fault(text))
    }
}

impl Base64UrlBytes {
    #[verifier::type_invariant]
    spec fn well_formed(self) -> bool {
        is_base64url(self.0@)
    }

    pub fn from_bytes(bytes: &[u8]) -> (r: Self)
        ensures
            r@ == bytes@,
    {
        let text = base64url_encode(bytes);
        proof {
            let seen = choose|b: Seq<u8>| #[trigger] base64url_text(b) == text@;
            law_base64url_is_injective(seen, bytes@);
        }
        Base64UrlBytes(text)
    }

    /// Accepts exactly the texts that [`Self::from_bytes`] makes.
    pub fn parse(encoded: &str) -> (r: Result<Self, WireError>)
        ensures
            match r {
                Ok(value) => base64url_text(value@) == encoded@,
                Err(e) => !is_base64url(encoded@) && e@ == base64url_error(encoded@),
            },
    {
        if text_contains(encoded, "=") {
            proof {
                if is_base64url(encoded@) {
                    let b = choose|b: Seq<u8>| #[trigger] base64url_text(b) == encoded@;
                    lemma_base64url_unpadded(b);
                }
            }
            return Err(malformed("base64url values must be unpadded"));
        }
        let decoded = match base64url_decode(encoded) {
            Ok(decoded) => decoded,
            Err(fault) => {
                return Err(malformed(fault.as_str()));
            },
        };
        if !same_text(base64url_encode(decoded.as_slice()).as_str(), encoded) {
            return Err(malformed("base64url value is noncanonical"));
        }
        Ok(Base64UrlBytes(encoded.to_owned()))
    }

    pub fn decode(&self) -> (r: Vec<u8>)
        ensures
            r@ == self@,
    {
        proof {
            use_type_invariant(self);
        }
        match base64url_decode(self.0.as_str()) {
            Ok(bytes) => {
                proof {
                    law_base64url_is_injective(bytes@, self@);
                }
                bytes
            },
            Err(_) => Vec::new(),
        }
    }

    /// Whether both hold the same bytes.
    pub fn same_as(&self, other: &Self) -> (r: bool)
        ensures
            r == (self@ == other@),
    {
        proof {
            use_type_invariant(self);
            use_type_invariant(other);
        }
        same_text(self.0.as_str(), other.0.as_str())
    }

    pub fn encoded(&self) -> (r: &str)
        ensures
            r@ == base64url_text(self@),
    {
        proof {
            use_type_invariant(self);
        }
        self.0.as_str()
    }
}

} // verus!
