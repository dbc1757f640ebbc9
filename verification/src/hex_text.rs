//! Hexadecimal notation of byte strings.

use vstd::prelude::*;

verus! {

/// The lowercase digit of a number below sixteen.
pub open spec fn hex_digit(n: int) -> char {
    if n < 10 {
        ('0' as int + n) as char
    } else {
        ('a' as int + (n - 10)) as char
    }
}

/// Two lowercase digits for each byte, the high half first.
pub open spec fn hex_chars(bytes: Seq<u8>) -> Seq<char> {
    Seq::new(
        2 * bytes.len(),
        |i: int|
            hex_digit(
                if i % 2 == 0 {
                    bytes[i / 2] as int / 16
                } else {
                    bytes[i / 2] as int % 16
                },
            ),
    )
}

pub open spec fn is_lower_hex_digit(c: char) -> bool {
    '0' <= c <= '9' || 'a' <= c <= 'f'
}

pub open spec fn is_hex_digit(c: char) -> bool {
    is_lower_hex_digit(c) || 'A' <= c <= 'F'
}

/// The number that a hexadecimal digit of either case stands for.
pub open spec fn hex_value(c: char) -> int {
    if c <= '9' {
        c as int - '0' as int
    } else if c <= 'F' {
        c as int - 'A' as int + 10
    } else {
        c as int - 'a' as int + 10
    }
}

/// An even number of hexadecimal digits.
pub open spec fn is_hex_text(text: Seq<char>) -> bool {
    text.len() % 2 == 0 && forall|i: int| 0 <= i < text.len() ==> is_hex_digit(#[trigger] text[i])
}

/// Exactly `length` lowercase hexadecimal digits.
pub open spec fn is_lower_hex_text(text: Seq<char>, length: nat) -> bool {
    text.len() == length && forall|i: int|
        0 <= i < text.len() ==> is_lower_hex_digit(#[trigger] text[i])
}

/// The bytes that a hexadecimal text stands for.
pub open spec fn hex_bytes(text: Seq<char>) -> Seq<u8> {
    Seq::new(
        text.len() / 2,
        |i: int| (16 * hex_value(text[2 * i]) + hex_value(text[2 * i + 1])) as u8,
    )
}

/// Decoding gives back the bytes that were encoded.
pub proof fn law_hex_decodes_what_it_encodes(bytes: Seq<u8>)
    ensures
        is_lower_hex_text(hex_chars(bytes), 2 * bytes.len()),
        is_hex_text(hex_chars(bytes)),
        hex_bytes(hex_chars(bytes)) == bytes,
{
    let text = hex_chars(bytes);
    assert forall|i: int| 0 <= i < text.len() implies is_lower_hex_digit(#[trigger] text[i]) by {
        let b = bytes[i / 2] as int;
        assert(0 <= b / 16 < 16 && 0 <= b % 16 < 16);
    }
    assert forall|i: int| 0 <= i < bytes.len() implies #[trigger] hex_bytes(text)[i]
        == bytes[i] by {
        let b = bytes[i] as int;
        assert((2 * i) / 2 == i && (2 * i) % 2 == 0);
        assert((2 * i + 1) / 2 == i && (2 * i + 1) % 2 == 1);
        assert(hex_value(hex_digit(b / 16)) == b / 16);
        assert(hex_value(hex_digit(b % 16)) == b % 16);
    }
    assert(hex_bytes(text) =~= bytes);
}

/// Encoding gives back the lowercase text that was decoded.
pub proof fn law_hex_encodes_what_it_decodes(text: Seq<char>)
    requires
        is_hex_text(text),
        is_lower_hex_text(text, text.len()),
    ensures
        hex_chars(hex_bytes(text)) == text,
{
    assert forall|i: int| 0 <= i < text.len() implies #[trigger] hex_chars(hex_bytes(text))[i]
        == text[i] by {
        let k = i / 2;
        assert(is_lower_hex_digit(text[2 * k]) && is_lower_hex_digit(text[2 * k + 1]));
        assert(hex_digit(hex_value(text[2 * k])) == text[2 * k]);
        assert(hex_digit(hex_value(text[2 * k + 1])) == text[2 * k + 1]);
    }
    assert(hex_chars(hex_bytes(text)) =~= text);
}

/// `hex::encode` writes each byte as two lowercase digits, the high half first.
#[verifier::external_body]
pub(crate) fn hex_encode(bytes: &[u8]) -> (r: String)
    ensures
        r@ == hex_chars(bytes@),
{
    hex::encode(bytes)
}

/// `hex::decode` takes an even number of digits of either case and gives the bytes; it fails on
/// every other text. Which error it then reports is left unsaid.
#[verifier::external_body]
pub(crate) fn hex_decode(text: &str) -> (r: Option<Vec<u8>>)
    ensures
        r is Some <==> is_hex_text(text@),
        r matches Some(bytes) ==> bytes@ == hex_bytes(text@),
{
    hex::decode(text).ok()
}

/// Whether `value` is exactly `length` lowercase hexadecimal digits.
pub fn is_lower_hex(value: &str, length: usize) -> (r: bool)
    ensures
        r == is_lower_hex_text(value@, length as nat),
{
    broadcast use vstd::utf8::is_ascii_chars_encode_utf8;

    if !value.is_ascii() {
        proof {
            if is_lower_hex_text(value@, length as nat) {
                assert forall|i: int| 0 <= i < value@.len() implies (#[trigger] value@[i] as u32)
                    < 128 by {
                    assert(is_lower_hex_digit(value@[i]));
                }
                assert(vstd::utf8::is_ascii_chars(value@));
            }
        }
        return false;
    }
    let bytes = value.as_bytes();
    if bytes.len() != length {
        return false;
    }
    let mut i: usize = 0;
    while i < bytes.len()
        invariant
            vstd::utf8::is_ascii_chars(value@),
            bytes@ == Seq::new(value@.len(), |k: int| value@[k] as u8),
            bytes@.len() == length,
            i <= bytes@.len(),
            forall|k: int| 0 <= k < i ==> is_lower_hex_digit(#[trigger] value@[k]),
        decreases bytes@.len() - i,
    {
        let b: u8 = bytes[i];
        if !(('0' as u8) <= b && b <= ('9' as u8) || ('a' as u8) <= b && b <= ('f' as u8)) {
            assert(!is_lower_hex_digit(value@[i as int]));
            return false;
        }
        i = i + 1;
    }
    true
}

} // verus!
