//! Big-endian integers and fixed-size arrays.

use vstd::prelude::*;

verus! {

/// The `width` low bytes of `n`, the most significant first.
pub open spec fn be_bytes(n: nat, width: nat) -> Seq<u8>
    decreases width,
{
    if width == 0 {
        Seq::empty()
    } else {
        be_bytes(n / 256, (width - 1) as nat).push((n % 256) as u8)
    }
}

/// The number that bytes stand for, the most significant first.
pub open spec fn be_value(bytes: Seq<u8>) -> nat
    decreases bytes.len(),
{
    if bytes.len() == 0 {
        0
    } else {
        256 * be_value(bytes.drop_last()) + bytes.last() as nat
    }
}

pub proof fn lemma_be_bytes_len(n: nat, width: nat)
    ensures
        be_bytes(n, width).len() == width,
    decreases width,
{
    if width > 0 {
        lemma_be_bytes_len(n / 256, (width - 1) as nat);
    }
}

/// Four bytes hold every number below 2^32.
pub proof fn lemma_be_value_of_bytes(n: nat)
    requires
        n < 0x1_0000_0000,
    ensures
        be_bytes(n, 4).len() == 4,
        be_value(be_bytes(n, 4)) == n,
{
    reveal_with_fuel(be_bytes, 5);
    reveal_with_fuel(be_value, 5);
    let b = be_bytes(n, 4);
    let d1 = n % 256;
    let d2 = n / 256 % 256;
    let d3 = n / 256 / 256 % 256;
    let d4 = n / 256 / 256 / 256 % 256;
    assert(b =~= seq![d4 as u8, d3 as u8, d2 as u8, d1 as u8]);
    assert(b.drop_last() =~= seq![d4 as u8, d3 as u8, d2 as u8]);
    assert(b.drop_last().drop_last() =~= seq![d4 as u8, d3 as u8]);
    assert(b.drop_last().drop_last().drop_last() =~= seq![d4 as u8]);
    assert(b.drop_last().drop_last().drop_last().drop_last() =~= Seq::<u8>::empty());
    assert(n / 256 / 256 / 256 < 256);
}

/// Four bytes are the bytes of the number that they stand for.
pub proof fn lemma_be_bytes_of_value(b: Seq<u8>)
    requires
        b.len() == 4,
    ensures
        be_bytes(be_value(b), 4) == b,
{
    reveal_with_fuel(be_bytes, 5);
    reveal_with_fuel(be_value, 5);
    assert(b.drop_last() =~= seq![b[0], b[1], b[2]]);
    assert(b.drop_last().drop_last() =~= seq![b[0], b[1]]);
    assert(b.drop_last().drop_last().drop_last() =~= seq![b[0]]);
    assert(b.drop_last().drop_last().drop_last().drop_last() =~= Seq::<u8>::empty());
    let n = be_value(b);
    assert(n / 256 == be_value(b.drop_last()));
    assert(n / 256 / 256 == be_value(b.drop_last().drop_last()));
    assert(n / 256 / 256 / 256 == b[0]);
    assert(be_bytes(n, 4) =~= b);
}

/// What is left of a number above its `width` low bytes.
spec fn above(n: nat, width: nat) -> nat
    decreases width,
{
    if width == 0 {
        n
    } else {
        above(n / 256, (width - 1) as nat)
    }
}

proof fn lemma_be_bytes_differ(a: nat, b: nat, width: nat)
    requires
        be_bytes(a, width) == be_bytes(b, width),
        above(a, width) == above(b, width),
    ensures
        a == b,
    decreases width,
{
    if width > 0 {
        let below = (width - 1) as nat;
        let left = be_bytes(a / 256, below);
        let right = be_bytes(b / 256, below);
        lemma_be_bytes_len(a / 256, below);
        lemma_be_bytes_len(b / 256, below);
        let last_a = (a % 256) as u8;
        let last_b = (b % 256) as u8;
        assert(left.push(last_a).last() == last_a);
        assert(right.push(last_b).last() == last_b);
        assert(left.push(last_a).drop_last() =~= left);
        assert(right.push(last_b).drop_last() =~= right);
        lemma_be_bytes_differ(a / 256, b / 256, below);
    }
}

/// Eight bytes tell 64-bit numbers apart.
pub proof fn lemma_be_bytes_of_u64(a: u64, b: u64)
    requires
        be_bytes(a as nat, 8) == be_bytes(b as nat, 8),
    ensures
        a == b,
{
    reveal_with_fuel(above, 9);
    assert(above(a as nat, 8) == 0);
    assert(above(b as nat, 8) == 0);
    lemma_be_bytes_differ(a as nat, b as nat, 8);
}

/// Appends the `width` low bytes of `n`, the most significant first.
pub fn push_be(out: &mut Vec<u8>, n: u64, width: usize)
    ensures
        final(out)@ == old(out)@ + be_bytes(n as nat, width as nat),
    decreases width,
{
    if width > 0 {
        push_be(out, n / 256, width - 1);
        out.push((n % 256) as u8);
    }
    assert(out@ =~= old(out)@ + be_bytes(n as nat, width as nat));
}

/// The number that four bytes stand for.
pub fn read_be32(bytes: &[u8]) -> (r: u32)
    requires
        bytes@.len() >= 4,
    ensures
        r == be_value(bytes@.take(4)),
{
    proof {
        reveal_with_fuel(be_value, 5);
        let b = bytes@.take(4);
        assert(b.drop_last() =~= seq![b[0], b[1], b[2]]);
        assert(b.drop_last().drop_last() =~= seq![b[0], b[1]]);
        assert(b.drop_last().drop_last().drop_last() =~= seq![b[0]]);
        assert(b.drop_last().drop_last().drop_last().drop_last() =~= Seq::<u8>::empty());
    }
    ((bytes[0] as u32 * 256 + bytes[1] as u32) * 256 + bytes[2] as u32) * 256 + bytes[3] as u32
}

/// The bytes as an array of 32, if they are 32.
pub fn array32(bytes: &[u8]) -> (r: Option<[u8; 32]>)
    ensures
        r is Some <==> bytes@.len() == 32,
        r matches Some(a) ==> a@ == bytes@,
{
    if bytes.len() != 32 {
        return None;
    }
    let mut out: [u8; 32] = [0u8;32];
    let mut i: usize = 0;
    while i < 32
        invariant
            bytes@.len() == 32,
            i <= 32,
            forall|k: int| 0 <= k < i ==> out@[k] == bytes@[k],
        decreases 32 - i,
    {
        out[i] = bytes[i];
        i = i + 1;
    }
    assert(out@ =~= bytes@);
    Some(out)
}

/// The bytes as an array of 64, if they are 64.
pub fn array64(bytes: &[u8]) -> (r: Option<[u8; 64]>)
    ensures
        r is Some <==> bytes@.len() == 64,
        r matches Some(a) ==> a@ == bytes@,
{
    if bytes.len() != 64 {
        return None;
    }
    let mut out: [u8; 64] = [0u8;64];
    let mut i: usize = 0;
    while i < 64
        invariant
            bytes@.len() == 64,
            i <= 64,
            forall|k: int| 0 <= k < i ==> out@[k] == bytes@[k],
        decreases 64 - i,
    {
        out[i] = bytes[i];
        i = i + 1;
    }
    assert(out@ =~= bytes@);
    Some(out)
}

/// Overwrites bytes that are no longer needed.
pub fn wipe(bytes: &mut Vec<u8>)
    ensures
        final(bytes)@ == Seq::new(old(bytes)@.len(), |i: int| 0u8),
{
    let ghost given = bytes@.len();
    let mut i: usize = 0;
    while i < bytes.len()
        invariant
            bytes@.len() == given,
            i <= given,
            forall|k: int| 0 <= k < i ==> bytes@[k] == 0,
        decreases given - i,
    {
        bytes[i] = 0;
        i = i + 1;
    }
    assert(bytes@ =~= Seq::new(given, |i: int| 0u8));
}

/// Overwrites an array that is no longer needed.
pub fn wipe32(bytes: &mut [u8; 32])
    ensures
        final(bytes)@ == Seq::new(32, |i: int| 0u8),
{
    let mut i: usize = 0;
    while i < 32
        invariant
            i <= 32,
            forall|k: int| 0 <= k < i ==> bytes@[k] == 0,
        decreases 32 - i,
    {
        bytes[i] = 0;
        i = i + 1;
    }
    assert(bytes@ =~= Seq::new(32, |i: int| 0u8));
}

} // verus!
