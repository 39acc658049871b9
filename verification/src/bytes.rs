//! Byte strings as little-endian numbers, and the byte-level helpers that the
//! encodings are built from.

use vstd::prelude::*;
use zeroize::Zeroize;

verus! {

/// The number that a byte string denotes, least significant byte first.
pub open spec fn le_value(bytes: Seq<u8>) -> nat
    decreases bytes.len(),
{
    if bytes.len() == 0 {
        0
    } else {
        bytes[0] as nat + 256 * le_value(bytes.drop_first())
    }
}

/// The low `len` bytes of `value`, least significant byte first.
pub open spec fn le_bytes(value: nat, len: nat) -> Seq<u8>
    decreases len,
{
    if len == 0 {
        Seq::empty()
    } else {
        seq![(value % 256) as u8] + le_bytes(value / 256, (len - 1) as nat)
    }
}

/// 256 to the power `len`: how many byte strings of that length there are.
pub open spec fn radix_pow(len: nat) -> nat
    decreases len,
{
    if len == 0 {
        1
    } else {
        256 * radix_pow((len - 1) as nat)
    }
}

/// `len` zero bytes.
pub open spec fn zeros(len: nat) -> Seq<u8> {
    Seq::new(len, |i: int| 0u8)
}

/// A byte string of length `n` denotes a number below `256^n`.
pub proof fn lemma_le_value_bound(bytes: Seq<u8>)
    ensures
        le_value(bytes) < radix_pow(bytes.len()),
    decreases bytes.len(),
{
    if bytes.len() > 0 {
        lemma_le_value_bound(bytes.drop_first());
    }
}

/// Two byte strings of one length that denote the same number are equal.
pub proof fn lemma_le_value_injective(a: Seq<u8>, b: Seq<u8>)
    requires
        a.len() == b.len(),
        le_value(a) == le_value(b),
    ensures
        a == b,
    decreases a.len(),
{
    if a.len() > 0 {
        lemma_le_value_injective(a.drop_first(), b.drop_first());
        assert(a =~= seq![a[0]] + a.drop_first());
        assert(b =~= seq![b[0]] + b.drop_first());
    } else {
        assert(a =~= b);
    }
}

/// `le_bytes` has the length asked for.
pub proof fn lemma_le_bytes_len(value: nat, len: nat)
    ensures
        le_bytes(value, len).len() == len,
    decreases len,
{
    if len > 0 {
        lemma_le_bytes_len(value / 256, (len - 1) as nat);
    }
}

/// Reading back the `len` bytes written for a number below `256^len` gives the number.
pub proof fn lemma_le_value_of_bytes(value: nat, len: nat)
    requires
        value < radix_pow(len),
    ensures
        le_value(le_bytes(value, len)) == value,
    decreases len,
{
    if len > 0 {
        let rest = le_bytes(value / 256, (len - 1) as nat);
        lemma_le_value_of_bytes(value / 256, (len - 1) as nat);
        lemma_le_bytes_len(value / 256, (len - 1) as nat);
        let whole = seq![(value % 256) as u8] + rest;
        assert(whole.drop_first() =~= rest);
    }
}

/// Writing the number that a byte string denotes, at the string's length, gives the string.
pub proof fn lemma_le_bytes_of_value(bytes: Seq<u8>)
    ensures
        le_bytes(le_value(bytes), bytes.len()) == bytes,
    decreases bytes.len(),
{
    if bytes.len() > 0 {
        let rest = bytes.drop_first();
        lemma_le_bytes_of_value(rest);
        let v = le_value(bytes);
        assert(v % 256 == bytes[0] as nat);
        assert(v / 256 == le_value(rest));
        assert(bytes =~= seq![bytes[0]] + rest);
    } else {
        assert(bytes =~= Seq::<u8>::empty());
    }
}

/// Zero bytes denote zero.
pub proof fn lemma_le_value_zeros(len: nat)
    ensures
        le_value(zeros(len)) == 0,
    decreases len,
{
    if len > 0 {
        lemma_le_value_zeros((len - 1) as nat);
        assert(zeros(len).drop_first() =~= zeros((len - 1) as nat));
    }
}

/// Zero bytes appended at the high end leave the number unchanged.
pub proof fn lemma_le_value_zero_extended(bytes: Seq<u8>, pad: nat)
    ensures
        le_value(bytes + zeros(pad)) == le_value(bytes),
    decreases bytes.len(),
{
    if bytes.len() > 0 {
        lemma_le_value_zero_extended(bytes.drop_first(), pad);
        assert((bytes + zeros(pad)).drop_first() =~= bytes.drop_first() + zeros(pad));
    } else {
        lemma_le_value_zeros(pad);
        assert(bytes + zeros(pad) =~= zeros(pad));
    }
}

/// Of two byte strings of one length, the one with the smaller top byte denotes the smaller number.
pub proof fn lemma_le_value_top_byte(a: Seq<u8>, b: Seq<u8>)
    requires
        a.len() == b.len(),
        a.len() > 0,
        a.last() < b.last(),
    ensures
        le_value(a) < le_value(b),
    decreases a.len(),
{
    let ra = a.drop_first();
    let rb = b.drop_first();
    if a.len() > 1 {
        assert(ra.last() == a.last());
        assert(rb.last() == b.last());
        lemma_le_value_top_byte(ra, rb);
    } else {
        assert(le_value(ra) == 0);
        assert(le_value(rb) == 0);
    }
}

/// Whether `a` denotes a smaller number than `b`.
pub fn less_than(a: &[u8; 32], b: &[u8; 32]) -> (smaller: bool)
    ensures
        smaller == (le_value(a@) < le_value(b@)),
{
    let mut smaller = false;
    let mut same = true;
    let mut i: usize = 32;
    assert(a@.subrange(32, 32).len() == 0);
    assert(b@.subrange(32, 32).len() == 0);
    while i > 0
        invariant
            i <= 32,
            smaller == (le_value(a@.subrange(i as int, 32)) < le_value(b@.subrange(i as int, 32))),
            same == (le_value(a@.subrange(i as int, 32)) == le_value(b@.subrange(i as int, 32))),
        decreases i,
    {
        i = i - 1;
        proof {
            assert(a@.subrange(i as int, 32).drop_first() =~= a@.subrange(i + 1, 32));
            assert(b@.subrange(i as int, 32).drop_first() =~= b@.subrange(i + 1, 32));
        }
        let x: u8 = a[i];
        let y: u8 = b[i];
        smaller = smaller || (same && x < y);
        same = same && x == y;
    }
    assert(a@.subrange(0, 32) =~= a@);
    assert(b@.subrange(0, 32) =~= b@);
    smaller
}

/// Whether two byte strings are equal.
pub fn bytes_equal(a: &[u8], b: &[u8]) -> (equal: bool)
    ensures
        equal == (a@ == b@),
{
    if a.len() != b.len() {
        return false;
    }
    let mut equal = true;
    let mut i: usize = 0;
    assert(a@.subrange(0, 0) =~= b@.subrange(0, 0));
    while i < a.len()
        invariant
            i <= a.len(),
            a.len() == b.len(),
            equal == (a@.subrange(0, i as int) == b@.subrange(0, i as int)),
        decreases a.len() - i,
    {
        let x: u8 = a[i];
        let y: u8 = b[i];
        proof {
            let pa = a@.subrange(0, i as int);
            let pb = b@.subrange(0, i as int);
            let qa = a@.subrange(0, i + 1);
            let qb = b@.subrange(0, i + 1);
            assert(qa =~= pa.push(x));
            assert(qb =~= pb.push(y));
            assert(qa.drop_last() =~= pa);
            assert(qb.drop_last() =~= pb);
            assert(qa.last() == x);
            assert(qb.last() == y);
        }
        equal = equal && x == y;
        i = i + 1;
    }
    assert(a@.subrange(0, a.len() as int) =~= a@);
    assert(b@.subrange(0, b.len() as int) =~= b@);
    equal
}

/// Appends `src` to `buf`.
pub fn append(buf: &mut Vec<u8>, src: &[u8])
    ensures
        final(buf)@ == old(buf)@ + src@,
{
    let mut i: usize = 0;
    while i < src.len()
        invariant
            i <= src.len(),
            buf@ == old(buf)@ + src@.subrange(0, i as int),
        decreases src.len() - i,
    {
        buf.push(src[i]);
        proof {
            assert(src@.subrange(0, i + 1) =~= src@.subrange(0, i as int).push(src@[i as int]));
        }
        i = i + 1;
    }
    assert(src@.subrange(0, src.len() as int) =~= src@);
}

/// The `N` bytes of `src` that start at `start`.
pub fn take<const N: usize>(src: &[u8], start: usize) -> (out: [u8; N])
    requires
        start + N <= src.len(),
    ensures
        out@ == src@.subrange(start as int, start + N),
{
    let mut out = [0u8; N];
    let mut i: usize = 0;
    while i < N
        invariant
            i <= N,
            start + N <= src.len(),
            forall|j: int| 0 <= j < i ==> out@[j] == src@[start + j],
        decreases N - i,
    {
        out[i] = src[start + i];
        i = i + 1;
    }
    assert(out@ =~= src@.subrange(start as int, start + N));
    out
}

/// `low` followed by sixteen zero bytes: the same number at twice the width.
pub fn widen(low: &[u8; 16]) -> (out: [u8; 32])
    ensures
        out@ == low@ + zeros(16),
        le_value(out@) == le_value(low@),
{
    let mut out = [0u8; 32];
    let mut i: usize = 0;
    while i < 16
        invariant
            i <= 16,
            forall|j: int| 0 <= j < i ==> out@[j] == low@[j],
            forall|j: int| i <= j < 32 ==> out@[j] == 0u8,
        decreases 16 - i,
    {
        out[i] = low[i];
        i = i + 1;
    }
    assert(out@ =~= low@ + zeros(16));
    proof {
        lemma_le_value_zero_extended(low@, 16);
    }
    out
}

/// `Zeroize::zeroize` on an array: every byte is overwritten with zero, by
/// writes that the compiler does not remove.
#[verifier::external_body]
pub(crate) fn scrub<const N: usize>(bytes: &mut [u8; N])
    ensures
        final(bytes)@ == zeros(N as nat),
    no_unwind
{
    bytes.zeroize();
}

} // verus!
