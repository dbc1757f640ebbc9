//! What the values of the wire are: identifiers, numbers, errors and outcomes.

use vstd::prelude::*;

use crate::audit::{head_message, head_sender, JournalHeadView};
use crate::bytes::{be_bytes, be_value};
use crate::codec::{announced, body_code};
use crate::envelope_laws::{field_count, says};
use crate::error::{code_label, shown, WireError, WireErrorCode, WireErrorView};
use crate::ids::{is_token_text, u256_max};
use crate::json::JsonView;
use crate::listener::temporary_name_of;
use crate::trusted_time::TrustedTimeError;
use crate::wire::{code_name, WireValue};

verus! {

/// A token is one to 64 characters, each a lowercase letter, a digit or one of `.`, `_`, `-` and
/// `/`, and the first of them a letter.
pub proof fn law_tokens_are_accepted_exactly(text: Seq<char>)
    ensures
        is_token_text(text) <==> 0 < text.len() < 65 && 0x61 <= text[0] as int <= 0x7a && forall|
            i: int,
        |
            0 <= i < text.len() ==> {
                let c = #[trigger] text[i] as int;
                0x61 <= c <= 0x7a || 0x30 <= c <= 0x39 || c == 0x2e || c == 0x5f || c == 0x2d || c
                    == 0x2f
            },
{
    if is_token_text(text) {
        assert forall|i: int| 0 <= i < text.len() implies {
            let c = #[trigger] text[i] as int;
            0x61 <= c <= 0x7a || 0x30 <= c <= 0x39 || c == 0x2e || c == 0x5f || c == 0x2d || c
                == 0x2f
        } by {
            assert(crate::ids::is_token_char(text[i]));
        }
    }
    if 0 < text.len() < 65 && 0x61 <= text[0] as int <= 0x7a && forall|i: int|
        0 <= i < text.len() ==> {
            let c = #[trigger] text[i] as int;
            0x61 <= c <= 0x7a || 0x30 <= c <= 0x39 || c == 0x2e || c == 0x5f || c == 0x2d || c
                == 0x2f
        } {
        assert forall|i: int| 0 <= i < text.len() implies crate::ids::is_token_char(
            #[trigger] text[i],
        ) by {
            let c = text[i] as int;
            assert(0x61 <= c <= 0x7a || 0x30 <= c <= 0x39 || c == 0x2e || c == 0x5f || c == 0x2d
                || c == 0x2f);
        }
    }
}

/// A text is lowercase hexadecimal of a length exactly if it has that many characters and each is
/// a digit or one of the letters from `a` to `f`.
pub proof fn law_lower_hex_is_accepted_exactly(text: Seq<char>, length: nat)
    ensures
        crate::hex_text::is_lower_hex_text(text, length) <==> text.len() == length && forall|
            i: int,
        |
            0 <= i < text.len() ==> {
                let c = #[trigger] text[i] as int;
                0x30 <= c <= 0x39 || 0x61 <= c <= 0x66
            },
{
    if crate::hex_text::is_lower_hex_text(text, length) {
        assert forall|i: int| 0 <= i < text.len() implies {
            let c = #[trigger] text[i] as int;
            0x30 <= c <= 0x39 || 0x61 <= c <= 0x66
        } by {
            assert(crate::hex_text::is_lower_hex_digit(text[i]));
        }
    }
    if text.len() == length && forall|i: int|
        0 <= i < text.len() ==> {
            let c = #[trigger] text[i] as int;
            0x30 <= c <= 0x39 || 0x61 <= c <= 0x66
        } {
        assert forall|i: int| 0 <= i < text.len() implies crate::hex_text::is_lower_hex_digit(
            #[trigger] text[i],
        ) by {
            let c = text[i] as int;
            assert(0x30 <= c <= 0x39 || 0x61 <= c <= 0x66);
        }
    }
}

/// The greatest 256-bit number is one less than the 256th power of two.
pub proof fn law_amounts_have_256_bits()
    ensures
        u256_max() + 1 == vstd::arithmetic::power2::pow2(256),
{
    vstd::arithmetic::power2::lemma2_to64();
    let half = vstd::arithmetic::power2::pow2(64);
    assert(half == 0x1_0000_0000_0000_0000);
    vstd::arithmetic::power2::lemma_pow2_adds(64, 64);
    assert(half * half == 0x1_0000_0000_0000_0000_0000_0000_0000_0000) by (nonlinear_arith)
        requires
            half == 0x1_0000_0000_0000_0000,
    ;
    let whole = vstd::arithmetic::power2::pow2(128);
    vstd::arithmetic::power2::lemma_pow2_adds(128, 128);
    assert(whole * whole
        == 0x1_0000_0000_0000_0000_0000_0000_0000_0000_0000_0000_0000_0000_0000_0000_0000_0000)
        by (nonlinear_arith)
        requires
            whole == 0x1_0000_0000_0000_0000_0000_0000_0000_0000,
    ;
}

/// Four bytes are read as a number with the most significant byte first, and are announced as a
/// length exactly up to one mebibyte.
pub proof fn law_lengths_are_read_high_byte_first(a: u8, b: u8, c: u8, d: u8)
    ensures
        ({
            let length = 16_777_216 * a + 65_536 * b + 256 * c + d;
            let prefix = seq![a, b, c, d];
            &&& be_value(prefix) == length
            &&& announced(prefix) == (if length <= 1_048_576 {
                Some(length as nat)
            } else {
                None
            })
        }),
{
    reveal_with_fuel(be_value, 5);
    let prefix = seq![a, b, c, d];
    assert(prefix.drop_last() =~= seq![a, b, c]);
    assert(seq![a, b, c].drop_last() =~= seq![a, b]);
    assert(seq![a, b].drop_last() =~= seq![a]);
    assert(seq![a].drop_last() =~= Seq::<u8>::empty());
}

/// A number is written in so many bytes that are read as it again, where it fits: the last byte
/// is its remainder by 256, and those before write the rest.
pub proof fn law_numbers_are_written_high_byte_first(n: nat, width: nat)
    requires
        n < vstd::arithmetic::power::pow(256, width),
    ensures
        be_bytes(n, width).len() == width,
        be_value(be_bytes(n, width)) == n,
    decreases width,
{
    vstd::arithmetic::power::lemma_pow0(256);
    if width > 0 {
        reveal(vstd::arithmetic::power::pow);
        let m = vstd::arithmetic::power::pow(256, (width - 1) as nat);
        assert(vstd::arithmetic::power::pow(256, width) == 256 * m);
        assert(n / 256 < m) by (nonlinear_arith)
            requires
                n < 256 * m,
        ;
        law_numbers_are_written_high_byte_first(n / 256, (width - 1) as nat);
        let written = be_bytes(n, width);
        assert(written.drop_last() =~= be_bytes(n / 256, (width - 1) as nat));
        assert(written.last() == n % 256);
    }
}

/// Each code has a name for operators and a name on the wire. No two codes share one.
pub proof fn law_codes_have_names_of_their_own(a: WireErrorCode, b: WireErrorCode)
    ensures
        code_label(a) == code_label(b) <==> a == b,
        code_name(a) == code_name(b) <==> a == b,
        a is MalformedFrame ==> code_label(a) == "MalformedFrame"@ && code_name(a)
            == "malformed_frame"@,
        a is UnknownField ==> code_label(a) == "UnknownField"@ && code_name(a)
            == "unknown_field"@,
        a is LimitExceededFrame ==> code_label(a) == "LimitExceededFrame"@ && code_name(a)
            == "limit_exceeded_frame"@,
        a is UnauthenticatedPeer ==> code_label(a) == "UnauthenticatedPeer"@ && code_name(a)
            == "unauthenticated_peer"@,
        a is UnsupportedVersion ==> code_label(a) == "UnsupportedVersion"@ && code_name(a)
            == "unsupported_version"@,
        a is OperationIdConflict ==> code_label(a) == "OperationIdConflict"@ && code_name(a)
            == "operation_id_conflict"@,
        a is QuotaExceeded ==> code_label(a) == "QuotaExceeded"@ && code_name(a)
            == "quota_exceeded"@,
        a is ServiceUnavailable ==> code_label(a) == "ServiceUnavailable"@ && code_name(a)
            == "service_unavailable"@,
        a is ClockRollback ==> code_label(a) == "ClockRollback"@ && code_name(a)
            == "clock_rollback"@,
        a is ClockUntrusted ==> code_label(a) == "ClockUntrusted"@ && code_name(a)
            == "clock_untrusted"@,
{
    reveal_strlit("MalformedFrame");
    reveal_strlit("UnknownField");
    reveal_strlit("LimitExceededFrame");
    reveal_strlit("UnauthenticatedPeer");
    reveal_strlit("UnsupportedVersion");
    reveal_strlit("OperationIdConflict");
    reveal_strlit("QuotaExceeded");
    reveal_strlit("ServiceUnavailable");
    reveal_strlit("ClockRollback");
    reveal_strlit("ClockUntrusted");
    reveal_strlit("malformed_frame");
    reveal_strlit("unknown_field");
    reveal_strlit("limit_exceeded_frame");
    reveal_strlit("unauthenticated_peer");
    reveal_strlit("unsupported_version");
    reveal_strlit("operation_id_conflict");
    reveal_strlit("quota_exceeded");
    reveal_strlit("service_unavailable");
    reveal_strlit("clock_rollback");
    reveal_strlit("clock_untrusted");
    let la = code_label(a);
    let lb = code_label(b);
    let na = code_name(a);
    let nb = code_name(b);
    assert(la == lb ==> la[0] == lb[0] && la[5] == lb[5] && la[7] == lb[7] && la.len()
        == lb.len());
    assert(na == nb ==> na[0] == nb[0] && na[6] == nb[6] && na[8] == nb[8] && na.len()
        == nb.len());
}

/// An operator is shown the code's name, a colon and the message.
pub proof fn law_errors_show_code_and_message(error: WireErrorView)
    ensures
        ({
            let text = shown(error);
            let label = code_label(error.code);
            &&& text.len() == label.len() + 2 + error.message.len()
            &&& text.take(label.len() as int) == label
            &&& text[label.len() as int] == ':'
            &&& text[(label.len() + 1) as int] == ' '
            &&& text.skip((label.len() + 2) as int) == error.message
        }),
{
    reveal_strlit(": ");
    let text = shown(error);
    let label = code_label(error.code);
    assert(text.take(label.len() as int) =~= label);
    assert(text.skip((label.len() + 2) as int) =~= error.message);
}

/// An error travels as its code's name and its message; an outcome as one field, which is `Ok`
/// with the value or `Err` with the error.
pub proof fn law_outcomes_travel_under_one_name<T: WireValue>(value: T, error: WireError)
    ensures
        error.wire() matches Ok(tree) && field_count(tree) == 2 && says(
            tree,
            "code"@,
            JsonView::Text(code_name(error.code)),
        ) && says(tree, "message"@, JsonView::Text(error.message@)),
        value.wire() is Ok ==> (Ok::<T, WireError>(value).wire() matches Ok(tree) && field_count(
            tree,
        ) == 1 && says(tree, "Ok"@, value.wire()->Ok_0)),
        value.wire() matches Err(text) ==> Ok::<T, WireError>(value).wire() == Err::<
            JsonView,
            Seq<char>,
        >(text),
        Err::<T, WireError>(error).wire() matches Ok(tree) && field_count(tree) == 1 && says(
            tree,
            "Err"@,
            error.wire()->Ok_0,
        ),
{
    let tree = error.wire()->Ok_0;
    let fields = tree->Object_0;
    assert(fields[0] == ("code"@, JsonView::Text(code_name(error.code))));
    assert(fields[1] == ("message"@, JsonView::Text(error.message@)));
    if value.wire() is Ok {
        let done = Ok::<T, WireError>(value).wire()->Ok_0;
        assert(done->Object_0[0] == ("Ok"@, value.wire()->Ok_0));
    }
    let failed = Err::<T, WireError>(error).wire()->Ok_0;
    assert(failed->Object_0[0] == ("Err"@, tree));
}

/// A body is refused for an unknown field exactly where the reason names one.
pub proof fn law_unknown_fields_are_told_apart(before: Seq<char>, after: Seq<char>, text: Seq<char>)
    ensures
        body_code(before + "unknown field"@ + after) == WireErrorCode::UnknownField,
        body_code(text) is UnknownField || body_code(text) is MalformedFrame,
        body_code(text) is UnknownField ==> exists|i: int|
            0 <= i <= text.len() && #[trigger] text.skip(i).take("unknown field"@.len() as int)
                == "unknown field"@,
{
    let words = "unknown field"@;
    let whole = before + words + after;
    let n = before.len() as int;
    assert(whole.subrange(n, n + words.len()) =~= words);
    if crate::text::contains_text(text, words) {
        let i = choose|i: int|
            0 <= i && i + words.len() <= text.len() && #[trigger] text.subrange(i, i + words.len())
                == words;
        assert(text.skip(i).take(words.len() as int) =~= text.subrange(i, i + words.len()));
    }
}

/// A digest is the hexadecimal text of SHA-256 over the one form of a value, and a value without
/// that form has none.
pub proof fn law_digests_are_of_the_canonical_form<T: WireValue>(value: T)
    ensures
        crate::sealing::digest_of(value) is Ok <==> crate::wire::wire_bytes(value.wire()) is Ok,
        crate::sealing::digest_of(value) matches Ok(digest) ==> crate::hex_text::hex_bytes(digest)
            == crate::crypto::sha256_of(crate::wire::wire_bytes(value.wire())->Ok_0)
            && crate::hex_text::is_lower_hex_text(digest, digest.len()),
        crate::sealing::digest_of(value) matches Err(e) ==> e.code is MalformedFrame,
{
    if crate::wire::wire_bytes(value.wire()) is Ok {
        crate::hex_text::law_hex_decodes_what_it_encodes(
            crate::crypto::sha256_of(crate::wire::wire_bytes(value.wire())->Ok_0),
        );
    }
}

/// A head comes from a service exactly if it names the service and the key, the key is one, and
/// the key signed it.
pub proof fn law_head_sender_is_accepted_exactly(
    head: JournalHeadView,
    service_id: Seq<char>,
    key_id: Seq<char>,
    public_key: Seq<u8>,
)
    ensures
        ({
            let verdict = head_sender(head, service_id, key_id, public_key);
            let named = head.service_id == service_id && head.key_id == key_id;
            let usable = crate::crypto::ed25519_key_accepted(public_key);
            let sized = head.signature.len() == 64;
            &&& verdict is Ok <==> named && usable && sized && crate::crypto::ed25519_verifies(
                public_key,
                head_message(head),
                head.signature,
            )
            &&& verdict matches Err(e) ==> e.code is UnauthenticatedPeer && e.message == (if !named {
                "journal head service or application key identity mismatch"@
            } else if !usable {
                "invalid pinned journal-head public key"@
            } else if !sized {
                "journal-head signature must contain 64 bytes"@
            } else {
                "journal-head application signature verification failed"@
            })
        }),
{
}

/// What a head's signature covers begins with the label of this protocol; then come the service,
/// the sequence in eight bytes and the hash, and the key at the end, zero bytes between.
pub proof fn law_head_message_is_laid_out(head: JournalHeadView)
    ensures
        ({
            let message = head_message(head);
            let label = vstd::utf8::encode_utf8("bloom-audit-journal-head/v1\0"@);
            let service = vstd::utf8::encode_utf8(head.service_id);
            let hash = vstd::utf8::encode_utf8(head.head_hash);
            let key = vstd::utf8::encode_utf8(head.key_id);
            let at = (label.len() + service.len()) as int;
            let tail = at + 9 + hash.len();
            &&& message.len() == tail + 1 + key.len()
            &&& message.take(label.len() as int) == label
            &&& message.subrange(label.len() as int, at) == service
            &&& message[at] == 0
            &&& be_value(message.subrange(at + 1, at + 9)) == head.sequence
            &&& message.subrange(at + 9, tail) == hash
            &&& message[tail] == 0
            &&& message.skip(tail + 1) == key
        }),
{
    let message = head_message(head);
    let label = vstd::utf8::encode_utf8("bloom-audit-journal-head/v1\0"@);
    let service = vstd::utf8::encode_utf8(head.service_id);
    let hash = vstd::utf8::encode_utf8(head.head_hash);
    let key = vstd::utf8::encode_utf8(head.key_id);
    let at = (label.len() + service.len()) as int;
    let tail = at + 9 + hash.len();
    let sequence = be_bytes(head.sequence as nat, 8);
    assert(vstd::arithmetic::power::pow(256, 8) == 0x1_0000_0000_0000_0000) by {
        reveal_with_fuel(vstd::arithmetic::power::pow, 9);
    }
    law_numbers_are_written_high_byte_first(head.sequence as nat, 8);
    assert(message.take(label.len() as int) =~= label);
    assert(message.subrange(label.len() as int, at) =~= service);
    assert(message.subrange(at + 1, at + 9) =~= sequence);
    assert(message.subrange(at + 9, tail) =~= hash);
    assert(message.skip(tail + 1) =~= key);
}

/// The temporary name of a process is hidden, tells the endpoint's own name and the process, and
/// no two processes share one.
pub proof fn law_temporary_names_tell_their_process(file_name: Seq<char>, a: u32, b: u32)
    ensures
        ({
            let name = temporary_name_of(file_name, a);
            let n = file_name.len() as int;
            &&& name[0] == '.'
            &&& name.subrange(1, 1 + n) == file_name
            &&& name.subrange(1 + n, 6 + n) == seq!['.', 'n', 'e', 'w', '.']
            &&& crate::decimal::decimal_value(name.skip(6 + n)) == a
            &&& crate::decimal::canonical_decimal(name.skip(6 + n))
            &&& name == temporary_name_of(file_name, b) ==> a == b
        }),
{
    lemma_temporary_name(file_name, a);
    lemma_temporary_name(file_name, b);
}

proof fn lemma_temporary_name(file_name: Seq<char>, pid: u32)
    ensures
        ({
            let name = temporary_name_of(file_name, pid);
            let n = file_name.len() as int;
            &&& name[0] == '.'
            &&& name.subrange(1, 1 + n) == file_name
            &&& name.subrange(1 + n, 6 + n) == seq!['.', 'n', 'e', 'w', '.']
            &&& crate::decimal::decimal_value(name.skip(6 + n)) == pid
            &&& crate::decimal::canonical_decimal(name.skip(6 + n))
        }),
{
    reveal_strlit(".");
    reveal_strlit(".new.");
    let name = temporary_name_of(file_name, pid);
    let n = file_name.len() as int;
    crate::decimal::law_decimal_chars_canonical(pid as nat);
    assert(name.subrange(1, 1 + n) =~= file_name);
    assert(name.subrange(1 + n, 6 + n) =~= seq!['.', 'n', 'e', 'w', '.']);
    assert(name.skip(6 + n) =~= crate::decimal::decimal_chars(pid as nat));
}

/// What an operator is told of a refused time source names the source.
pub proof fn law_time_errors_are_named(error: TrustedTimeError)
    ensures
        error matches TrustedTimeError::SourceMismatch(id) ==> error.text()
            == "trusted time source "@ + crate::trusted_time::quoted_text(id@)
            + " does not match this platform or reviewed packaging"@,
        error is WallClockRange ==> error.text()
            == "platform wall-clock value is outside the supported range"@,
        error is StatePoisoned ==> error.text() == "trusted time sampler state was poisoned"@,
{
}

} // verus!
