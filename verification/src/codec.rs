//! Fixed-width big-endian encoding of 64-bit words, the byte form of scalars
//! and group elements.

use vstd::prelude::*;

verus! {

/// Number of bytes of an encoded word.
pub const WORD_BYTES_LEN: usize = 8;

/// The byte of `v` that stands at position `i` of its big-endian encoding.
pub open spec fn be_byte(v: u64, i: int) -> u8 {
    ((v >> (((7 - i) * 8) as u64)) & 0xff) as u8
}

/// Big-endian encoding of `v`, most significant byte first.
pub open spec fn be_bytes(v: u64) -> Seq<u8> {
    Seq::new(8, |i: int| be_byte(v, i))
}

/// The word that eight bytes encode, most significant byte first.
pub open spec fn be_value(s: Seq<u8>) -> u64
    recommends
        s.len() == 8,
{
    ((s[0] as u64) << 56) | ((s[1] as u64) << 48) | ((s[2] as u64) << 40) | ((s[3] as u64) << 32)
        | ((s[4] as u64) << 24) | ((s[5] as u64) << 16) | ((s[6] as u64) << 8) | (s[7] as u64)
}

/// Decoding an encoding gives the word back.
pub proof fn lemma_be_value_of_bytes(v: u64)
    ensures
        be_bytes(v).len() == 8,
        be_value(be_bytes(v)) == v,
{
    let s = be_bytes(v);
    let b0 = s[0];
    let b1 = s[1];
    let b2 = s[2];
    let b3 = s[3];
    let b4 = s[4];
    let b5 = s[5];
    let b6 = s[6];
    let b7 = s[7];
    assert(((b0 as u64) << 56) | ((b1 as u64) << 48) | ((b2 as u64) << 40) | ((b3 as u64) << 32)
        | ((b4 as u64) << 24) | ((b5 as u64) << 16) | ((b6 as u64) << 8) | (b7 as u64) == v)
        by (bit_vector)
        requires
            b0 == ((v >> 56) & 0xff) as u8,
            b1 == ((v >> 48) & 0xff) as u8,
            b2 == ((v >> 40) & 0xff) as u8,
            b3 == ((v >> 32) & 0xff) as u8,
            b4 == ((v >> 24) & 0xff) as u8,
            b5 == ((v >> 16) & 0xff) as u8,
            b6 == ((v >> 8) & 0xff) as u8,
            b7 == ((v >> 0) & 0xff) as u8,
    ;
}

/// Encoding a decoded word gives the eight bytes back.
pub proof fn lemma_be_bytes_of_value(s: Seq<u8>)
    requires
        s.len() == 8,
    ensures
        be_bytes(be_value(s)) == s,
{
    let v = be_value(s);
    let b0 = s[0];
    let b1 = s[1];
    let b2 = s[2];
    let b3 = s[3];
    let b4 = s[4];
    let b5 = s[5];
    let b6 = s[6];
    let b7 = s[7];
    assert(b0 == ((v >> 56) & 0xff) as u8 && b1 == ((v >> 48) & 0xff) as u8 && b2 == ((v >> 40)
        & 0xff) as u8 && b3 == ((v >> 32) & 0xff) as u8 && b4 == ((v >> 24) & 0xff) as u8 && b5
        == ((v >> 16) & 0xff) as u8 && b6 == ((v >> 8) & 0xff) as u8 && b7 == ((v >> 0) & 0xff) as u8)
        by (bit_vector)
        requires
            v == ((b0 as u64) << 56) | ((b1 as u64) << 48) | ((b2 as u64) << 40) | ((b3 as u64)
                << 32) | ((b4 as u64) << 24) | ((b5 as u64) << 16) | ((b6 as u64) << 8) | (
            b7 as u64),
    ;
    assert(be_bytes(v) =~= s);
}

/// Two words with the same encoding are the same word.
pub proof fn lemma_be_bytes_injective(a: u64, b: u64)
    requires
        be_bytes(a) == be_bytes(b),
    ensures
        a == b,
{
    lemma_be_value_of_bytes(a);
    lemma_be_value_of_bytes(b);
}

/// Appends the big-endian encoding of `v` to `out`.
pub fn push_be_bytes(out: &mut Vec<u8>, v: u64)
    ensures
        final(out)@ == old(out)@ + be_bytes(v),
{
    let ghost before = out@;
    let mut i: usize = 0;
    while i < 8
        invariant
            i <= 8,
            out@ == before + be_bytes(v).subrange(0, i as int),
        decreases 8 - i,
    {
        let shift: u64 = ((7 - i) * 8) as u64;
        let b: u64 = (v >> shift) & 0xff;
        proof {
            assert(b < 256) by (bit_vector)
                requires
                    b == (v >> shift) & 0xff,
            ;
            assert(be_bytes(v).subrange(0, i + 1) =~= be_bytes(v).subrange(0, i as int).push(
                be_byte(v, i as int),
            ));
        }
        out.push(b as u8);
        i = i + 1;
    }
    proof {
        assert(be_bytes(v).subrange(0, 8) =~= be_bytes(v));
    }
}

/// The big-endian encoding of `v`.
pub fn to_be_bytes(v: u64) -> (out: Vec<u8>)
    ensures
        out@ == be_bytes(v),
{
    let mut out: Vec<u8> = Vec::new();
    push_be_bytes(&mut out, v);
    proof {
        assert(out@ =~= be_bytes(v));
    }
    out
}

/// The word encoded by the eight bytes of `bytes` that start at `at`.
pub fn read_be_value(bytes: &[u8], at: usize) -> (v: u64)
    requires
        at + 8 <= bytes@.len(),
    ensures
        v == be_value(bytes@.subrange(at as int, at + 8)),
{
    let ghost s = bytes@.subrange(at as int, at + 8);
    let b0: u64 = bytes[at] as u64;
    let b1: u64 = bytes[at + 1] as u64;
    let b2: u64 = bytes[at + 2] as u64;
    let b3: u64 = bytes[at + 3] as u64;
    let b4: u64 = bytes[at + 4] as u64;
    let b5: u64 = bytes[at + 5] as u64;
    let b6: u64 = bytes[at + 6] as u64;
    let b7: u64 = bytes[at + 7] as u64;
    proof {
        assert(s[0] == bytes@[at as int]);
        assert(s[1] == bytes@[at + 1]);
        assert(s[2] == bytes@[at + 2]);
        assert(s[3] == bytes@[at + 3]);
        assert(s[4] == bytes@[at + 4]);
        assert(s[5] == bytes@[at + 5]);
        assert(s[6] == bytes@[at + 6]);
        assert(s[7] == bytes@[at + 7]);
    }
    (b0 << 56) | (b1 << 48) | (b2 << 40) | (b3 << 32) | (b4 << 24) | (b5 << 16) | (b6 << 8) | b7
}

} // verus!
