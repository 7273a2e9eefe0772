//! Big-endian integer encoding and small byte-sequence helpers shared by the wire codecs.

use vstd::prelude::*;
use vstd::string::StringSliceAdditionalSpecFns;

verus! {

/// `n` big-endian bytes holding `x` modulo 256^n.
pub open spec fn be_bytes(x: int, n: nat) -> Seq<u8>
    decreases n,
{
    if n == 0 {
        Seq::empty()
    } else {
        be_bytes(x / 256, (n - 1) as nat).push((x % 256) as u8)
    }
}

/// The unsigned integer that a big-endian byte sequence denotes.
pub open spec fn be_value(s: Seq<u8>) -> int
    decreases s.len(),
{
    if s.len() == 0 {
        0
    } else {
        be_value(s.drop_last()) * 256 + s.last() as int
    }
}

/// 256 to the power `n`.
pub open spec fn pow256(n: nat) -> int
    decreases n,
{
    if n == 0 {
        1
    } else {
        256 * pow256((n - 1) as nat)
    }
}

pub proof fn lemma_be_bytes_len(x: int, n: nat)
    ensures
        be_bytes(x, n).len() == n,
    decreases n,
{
    if n > 0 {
        lemma_be_bytes_len(x / 256, (n - 1) as nat);
    }
}

pub proof fn lemma_pow256_pos(n: nat)
    ensures
        pow256(n) >= 1,
    decreases n,
{
    if n > 0 {
        lemma_pow256_pos((n - 1) as nat);
    }
}

/// Reading back `n` big-endian bytes of a value that fits gives the value.
pub proof fn lemma_be_roundtrip(x: int, n: nat)
    requires
        0 <= x < pow256(n),
    ensures
        be_value(be_bytes(x, n)) == x,
    decreases n,
{
    if n > 0 {
        let q = x / 256;
        assert(0 <= q < pow256((n - 1) as nat)) by {
            assert(x < 256 * pow256((n - 1) as nat));
        }
        lemma_be_roundtrip(q, (n - 1) as nat);
        let s = be_bytes(x, n);
        assert(s.drop_last() =~= be_bytes(q, (n - 1) as nat));
    }
}

/// Appends the `n` big-endian bytes of `x` to `v`.
pub fn push_be(v: &mut Vec<u8>, x: u128, n: usize)
    ensures
        final(v)@ == old(v)@ + be_bytes(x as int, n as nat),
    decreases n,
{
    if n == 0 {
        assert(old(v)@ + be_bytes(x as int, 0) =~= old(v)@);
    } else {
        push_be(v, x / 256, n - 1);
        v.push((x % 256) as u8);
        assert(final(v)@ =~= old(v)@ + be_bytes(x as int, n as nat));
    }
}

/// Appends the bytes of `src` to `dst`.
pub fn extend_bytes(dst: &mut Vec<u8>, src: &[u8])
    ensures
        final(dst)@ == old(dst)@ + src@,
{
    let ghost start = dst@;
    let mut i: usize = 0;
    while i < src.len()
        invariant
            0 <= i <= src@.len(),
            dst@ == start + src@.subrange(0, i as int),
        decreases src@.len() - i,
    {
        dst.push(src[i]);
        i = i + 1;
        assert(dst@ =~= start + src@.subrange(0, i as int));
    }
    assert(src@.subrange(0, src@.len() as int) =~= src@);
}

/// Whether two byte slices hold the same bytes.
pub fn bytes_equal(a: &[u8], b: &[u8]) -> (r: bool)
    ensures
        r == (a@ == b@),
{
    if a.len() != b.len() {
        return false;
    }
    let mut i: usize = 0;
    while i < a.len()
        invariant
            a@.len() == b@.len(),
            0 <= i <= a@.len(),
            forall|j: int| 0 <= j < i ==> a@[j] == b@[j],
        decreases a@.len() - i,
    {
        if a[i] != b[i] {
            return false;
        }
        i = i + 1;
    }
    assert(a@ =~= b@);
    true
}

/// Whether two string slices hold the same characters.
pub fn str_equal(a: &str, b: &str) -> (r: bool)
    ensures
        r == (a@ == b@),
{
    broadcast use vstd::utf8::encode_utf8_decode_utf8;
    let r = bytes_equal(a.as_bytes(), b.as_bytes());
    proof {
        if a.spec_bytes() == b.spec_bytes() {
            assert(vstd::utf8::decode_utf8(vstd::utf8::encode_utf8(a@)) == a@);
            assert(vstd::utf8::decode_utf8(vstd::utf8::encode_utf8(b@)) == b@);
        }
    }
    r
}

} // verus!
