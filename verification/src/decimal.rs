//! Decimal notation of natural numbers.

use vstd::prelude::*;
use vstd::string::*;
use vstd::utf8::*;

use crate::text::is_text_before;

verus! {

/// The digit of a number below ten.
pub open spec fn digit_char(d: nat) -> char {
    ('0' as nat + d) as char
}

/// The number that a digit stands for.
pub open spec fn digit_value(c: char) -> nat {
    (c as int - '0' as int) as nat
}

pub open spec fn is_digit(c: char) -> bool {
    '0' <= c <= '9'
}

/// The decimal digits of `n`, without a leading zero.
pub open spec fn decimal_chars(n: nat) -> Seq<char>
    decreases n,
{
    if n < 10 {
        seq![digit_char(n)]
    } else {
        decimal_chars(n / 10).push(digit_char(n % 10))
    }
}

/// The number that a sequence of digits stands for.
pub open spec fn decimal_value(s: Seq<char>) -> nat
    decreases s.len(),
{
    if s.len() == 0 {
        0
    } else {
        10 * decimal_value(s.drop_last()) + digit_value(s.last())
    }
}

/// One or more digits, and no leading zero but in zero itself.
pub open spec fn canonical_decimal(s: Seq<char>) -> bool {
    &&& s.len() > 0
    &&& s.len() > 1 ==> s[0] != '0'
    &&& forall|i: int| 0 <= i < s.len() ==> is_digit(#[trigger] s[i])
}

/// Every number has one canonical text, and that text stands for the number.
pub proof fn law_decimal_chars_canonical(n: nat)
    ensures
        canonical_decimal(decimal_chars(n)),
        decimal_value(decimal_chars(n)) == n,
        n > 0 ==> decimal_chars(n)[0] != '0',
    decreases n,
{
    if n < 10 {
        reveal_with_fuel(decimal_value, 2);
        assert(decimal_chars(n).drop_last() =~= Seq::<char>::empty());
    } else {
        let head = decimal_chars(n / 10);
        law_decimal_chars_canonical(n / 10);
        assert(decimal_chars(n).drop_last() =~= head);
        assert(decimal_chars(n)[0] == head[0]);
        assert forall|i: int| 0 <= i < decimal_chars(n).len() implies is_digit(
            #[trigger] decimal_chars(n)[i],
        ) by {
            if i < head.len() {
                assert(decimal_chars(n)[i] == head[i]);
            }
        }
    }
}

/// A canonical text is the text of the number that it stands for.
pub proof fn law_decimal_value_canonical(s: Seq<char>)
    requires
        canonical_decimal(s),
    ensures
        decimal_chars(decimal_value(s)) == s,
        s.len() > 1 ==> decimal_value(s) >= 10,
    decreases s.len(),
{
    reveal_with_fuel(decimal_value, 2);
    let head = s.drop_last();
    assert(is_digit(s.last()));
    assert(s =~= head.push(s.last()));
    if s.len() == 1 {
        assert(head =~= Seq::<char>::empty());
        assert(decimal_value(s) == digit_value(s[0]));
        assert(seq![digit_char(digit_value(s[0]))] =~= s);
    } else {
        assert(s[0] == head[0]);
        assert forall|i: int| 0 <= i < head.len() implies is_digit(#[trigger] head[i]) by {
            assert(head[i] == s[i]);
        }
        law_decimal_value_canonical(head);
        if head.len() == 1 {
            assert(head.drop_last() =~= Seq::<char>::empty());
        }
        assert(decimal_value(s) / 10 == decimal_value(head));
    }
}

/// A digit sequence of length `n` stands for a number below `10^n`.
pub open spec fn ten_to(n: nat) -> nat
    decreases n,
{
    if n == 0 {
        1
    } else {
        10 * ten_to((n - 1) as nat)
    }
}

proof fn lemma_ten_to_monotone(a: nat, b: nat)
    requires
        a <= b,
    ensures
        1 <= ten_to(a) <= ten_to(b),
    decreases b,
{
    if a < b {
        lemma_ten_to_monotone(a, (b - 1) as nat);
    } else if a > 0 {
        lemma_ten_to_monotone((a - 1) as nat, (b - 1) as nat);
    }
}

proof fn lemma_decimal_bounds(s: Seq<char>)
    requires
        forall|i: int| 0 <= i < s.len() ==> is_digit(#[trigger] s[i]),
    ensures
        decimal_value(s) < ten_to(s.len()),
        s.len() > 0 && s[0] != '0' ==> ten_to((s.len() - 1) as nat) <= decimal_value(s),
    decreases s.len(),
{
    if s.len() > 0 {
        assert(is_digit(s.last()));
        let head = s.drop_last();
        assert forall|i: int| 0 <= i < head.len() implies is_digit(#[trigger] head[i]) by {
            assert(head[i] == s[i]);
        }
        lemma_decimal_bounds(head);
        if s.len() == 1 {
            assert(head =~= Seq::<char>::empty());
        } else {
            assert(head[0] == s[0]);
        }
    }
}

/// The number that two digit sequences stand for, one behind the other.
pub proof fn lemma_decimal_concat(a: Seq<char>, b: Seq<char>)
    ensures
        decimal_value(a + b) == decimal_value(a) * ten_to(b.len()) + decimal_value(b),
    decreases b.len(),
{
    if b.len() == 0 {
        assert(a + b =~= a);
        assert(decimal_value(a) * ten_to(0) == decimal_value(a)) by (nonlinear_arith)
            requires
                ten_to(0) == 1,
        ;
    } else {
        let head = b.drop_last();
        lemma_decimal_concat(a, head);
        assert((a + b).drop_last() =~= a + head);
        assert((a + b).last() == b.last());
        let x = decimal_value(a) as int;
        let t = ten_to(head.len()) as int;
        assert(10 * (x * t) == x * (10 * t)) by (nonlinear_arith);
    }
}

/// Of two digit sequences of one length, the first digit that differs decides.
proof fn lemma_decimal_order_at(a: Seq<char>, b: Seq<char>, i: int)
    requires
        a.len() == b.len(),
        0 <= i < a.len(),
        a.take(i) == b.take(i),
        a[i] < b[i],
        forall|k: int| 0 <= k < a.len() ==> is_digit(#[trigger] a[k]),
        forall|k: int| 0 <= k < b.len() ==> is_digit(#[trigger] b[k]),
    ensures
        decimal_value(a) < decimal_value(b),
    decreases a.len(),
{
    let ha = a.drop_last();
    let hb = b.drop_last();
    assert(is_digit(a.last()) && is_digit(b.last()));
    if i == a.len() - 1 {
        assert(ha =~= a.take(i));
        assert(hb =~= b.take(i));
    } else {
        assert(ha.take(i) =~= a.take(i));
        assert(hb.take(i) =~= b.take(i));
        assert forall|k: int| 0 <= k < ha.len() implies is_digit(#[trigger] ha[k]) by {
            assert(ha[k] == a[k]);
        }
        assert forall|k: int| 0 <= k < hb.len() implies is_digit(#[trigger] hb[k]) by {
            assert(hb[k] == b[k]);
        }
        lemma_decimal_order_at(ha, hb, i);
    }
}

/// Among texts of one length, byte order is numeric order.
proof fn lemma_decimal_order(a: Seq<char>, b: Seq<char>)
    requires
        a.len() == b.len(),
        canonical_decimal(a),
        canonical_decimal(b),
    ensures
        crate::text::text_before(a, b) <==> decimal_value(a) < decimal_value(b),
{
    lemma_canonical_is_ascii(a);
    lemma_canonical_is_ascii(b);
    is_ascii_chars_encode_utf8(a);
    is_ascii_chars_encode_utf8(b);
    let left = encode_utf8(a);
    let right = encode_utf8(b);
    if a == b {
        crate::text::lemma_bytes_before_at(left, right, left.len() as int);
    } else {
        let i = crate::text::lemma_first_difference(a, b);
        assert forall|k: int| 0 <= k < i implies left[k] == right[k] by {
            assert(a.take(i)[k] == b.take(i)[k]);
        }
        assert(left.take(i) =~= right.take(i));
        assert(is_digit(a[i]) && is_digit(b[i]));
        assert(left[i] == a[i] as u8 && right[i] == b[i] as u8);
        crate::text::lemma_bytes_before_at(left, right, i);
        if a[i] < b[i] {
            lemma_decimal_order_at(a, b, i);
        } else {
            assert(b.take(i) == a.take(i));
            lemma_decimal_order_at(b, a, i);
        }
    }
}

/// Canonical decimal texts are ASCII.
pub proof fn lemma_canonical_is_ascii(s: Seq<char>)
    requires
        canonical_decimal(s),
    ensures
        is_ascii_chars(s),
{
    assert forall|i: int| 0 <= i < s.len() implies (#[trigger] s[i] as u32) < 128 by {
        assert(is_digit(s[i]));
    }
}

/// Appends the decimal digits of `n`.
pub fn push_decimal(out: &mut String, n: u64)
    ensures
        final(out)@ == old(out)@ + decimal_chars(n as nat),
    decreases n,
{
    if n >= 10 {
        push_decimal(out, n / 10);
    }
    let digit: u8 = ('0' as u8) + (n % 10) as u8;
    out.push(digit as char);
    assert(out@ =~= old(out)@ + decimal_chars(n as nat));
}

/// The decimal digits of `n`.
pub fn decimal_string(n: u64) -> (r: String)
    ensures
        r@ == decimal_chars(n as nat),
{
    let mut out = String::new();
    push_decimal(&mut out, n);
    assert(out@ =~= decimal_chars(n as nat));
    out
}

/// `n` zeros.
pub open spec fn zeros(n: nat) -> Seq<char> {
    Seq::new(n, |i: int| '0')
}

/// The decimal digits of `n`, with zeros before them up to the given width.
pub open spec fn padded_decimal(n: nat, width: nat) -> Seq<char> {
    let digits = decimal_chars(n);
    if digits.len() < width {
        zeros((width - digits.len()) as nat) + digits
    } else {
        digits
    }
}

/// Appends the decimal digits of `n`, with zeros before them up to the given width.
pub fn push_padded_decimal(out: &mut String, n: u64, width: usize)
    ensures
        final(out)@ == old(out)@ + padded_decimal(n as nat, width as nat),
{
    let digits = decimal_string(n);
    proof {
        law_decimal_chars_canonical(n as nat);
        lemma_canonical_is_ascii(digits@);
        is_ascii_chars_encode_utf8(digits@);
    }
    let count: usize = digits.as_str().as_bytes().len();
    let mut filled: usize = count;
    while filled < width
        invariant
            count == digits@.len(),
            count <= filled,
            count < width ==> filled <= width,
            count >= width ==> filled == count,
            out@ =~= old(out)@ + zeros((filled - count) as nat),
        decreases width - filled,
    {
        out.push('0');
        filled = filled + 1;
    }
    out.append(digits.as_str());
    assert(out@ =~= old(out)@ + padded_decimal(n as nat, width as nat));
}

/// Whether `value` is a canonical decimal text.
pub fn is_canonical_decimal(value: &str) -> (r: bool)
    ensures
        r == canonical_decimal(value@),
{
    broadcast use is_ascii_chars_encode_utf8;

    if !value.is_ascii() {
        proof {
            if canonical_decimal(value@) {
                lemma_canonical_is_ascii(value@);
            }
        }
        return false;
    }
    let bytes = value.as_bytes();
    if bytes.len() == 0 || bytes.len() > 1 && bytes[0] == ('0' as u8) {
        return false;
    }
    let mut i: usize = 0;
    while i < bytes.len()
        invariant
            is_ascii_chars(value@),
            bytes@ == Seq::new(value@.len(), |k: int| value@[k] as u8),
            i <= bytes@.len(),
            forall|k: int| 0 <= k < i ==> is_digit(#[trigger] value@[k]),
        decreases bytes@.len() - i,
    {
        if bytes[i] < ('0' as u8) || bytes[i] > ('9' as u8) {
            assert(!is_digit(value@[i as int]));
            return false;
        }
        i = i + 1;
    }
    true
}

/// The number that a canonical decimal text stands for, if it fits in 128 bits.
pub fn parse_canonical_decimal(value: &str) -> (r: Option<u128>)
    ensures
        r == (if canonical_decimal(value@) && decimal_value(value@) <= u128::MAX {
            Some(decimal_value(value@) as u128)
        } else {
            None
        }),
{
    broadcast use is_ascii_chars_encode_utf8;

    if !is_canonical_decimal(value) {
        return None;
    }
    proof {
        lemma_canonical_is_ascii(value@);
    }
    let bytes = value.as_bytes();
    let mut n: u128 = 0;
    let mut i: usize = 0;
    assert(value@.take(0) =~= Seq::<char>::empty());
    while i < bytes.len()
        invariant
            canonical_decimal(value@),
            bytes@ == Seq::new(value@.len(), |k: int| value@[k] as u8),
            i <= bytes@.len(),
            n == decimal_value(value@.take(i as int)),
        decreases bytes@.len() - i,
    {
        proof {
            assert(is_digit(value@[i as int]));
            assert(value@.take(i + 1).drop_last() =~= value@.take(i as int));
            lemma_decimal_prefix(value@, i + 1);
        }
        let digit: u128 = (bytes[i] - ('0' as u8)) as u128;
        let scaled = match n.checked_mul(10) {
            Some(scaled) => scaled,
            None => {
                return None;
            },
        };
        n = match scaled.checked_add(digit) {
            Some(sum) => sum,
            None => {
                return None;
            },
        };
        i = i + 1;
    }
    assert(value@.take(i as int) =~= value@);
    Some(n)
}

/// A prefix of a digit sequence stands for no greater number.
proof fn lemma_decimal_prefix(s: Seq<char>, i: int)
    requires
        0 <= i <= s.len(),
    ensures
        decimal_value(s.take(i)) <= decimal_value(s),
    decreases s.len(),
{
    if i < s.len() {
        lemma_decimal_prefix(s.drop_last(), i);
        assert(s.drop_last().take(i) =~= s.take(i));
    } else {
        assert(s.take(i) =~= s);
    }
}

/// Whether one canonical decimal text stands for a number no greater than another's.
pub fn decimal_leq(left: &str, right: &str) -> (r: bool)
    requires
        canonical_decimal(left@),
        canonical_decimal(right@),
    ensures
        r == (decimal_value(left@) <= decimal_value(right@)),
{
    broadcast use is_ascii_chars_encode_utf8;

    proof {
        lemma_canonical_is_ascii(left@);
        lemma_canonical_is_ascii(right@);
        lemma_decimal_bounds(left@);
        lemma_decimal_bounds(right@);
        if left@.len() < right@.len() {
            lemma_ten_to_monotone(left@.len(), (right@.len() - 1) as nat);
        } else if right@.len() < left@.len() {
            lemma_ten_to_monotone(right@.len(), (left@.len() - 1) as nat);
        } else {
            lemma_decimal_order(right@, left@);
        }
    }
    let left_len: usize = left.as_bytes().len();
    let right_len: usize = right.as_bytes().len();
    left_len < right_len || (left_len == right_len && !is_text_before(right, left))
}

} // verus!
