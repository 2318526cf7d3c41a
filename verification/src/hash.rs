//! The digest used for identifiers and for the challenges of proofs.

use crate::codec::{
    be_bytes, be_value, lemma_be_bytes_injective, lemma_be_bytes_of_value, push_be_bytes,
    read_be_value,
};
use cryptoxide::blake2b::Blake2b;
use vstd::prelude::*;

verus! {

/// Number of bytes of a digest.
pub const DIGEST_BYTES_LEN: usize = 32;

/// The BLAKE2b digest of 32 bytes of `input`, without a key.
pub uninterp spec fn blake2b_256(input: Seq<u8>) -> Seq<u8>;

/// Computes the unkeyed 32-byte BLAKE2b digest of `input` by
/// `cryptoxide::blake2b::Blake2b::blake2b`. The contract names the digest and
/// states its length, which is the output length asked for.
#[verifier::external_body]
pub(crate) fn blake2b_256_digest(input: &[u8]) -> (out: Vec<u8>)
    ensures
        out@ == blake2b_256(input@),
        out@.len() == DIGEST_BYTES_LEN,
{
    let mut out = vec![0u8; 32];
    Blake2b::blake2b(&mut out, input, &[]);
    out
}

/// The digest of `input`.
pub fn digest(input: &[u8]) -> (out: Vec<u8>)
    ensures
        out@ == blake2b_256(input@),
        out@.len() == DIGEST_BYTES_LEN,
{
    blake2b_256_digest(input)
}

/// Whether two byte strings are the same.
pub fn bytes_equal(a: &[u8], b: &[u8]) -> (r: bool)
    ensures
        r == (a@ == b@),
{
    if a.len() != b.len() {
        return false;
    }
    let mut i: usize = 0;
    while i < a.len()
        invariant
            i <= a.len(),
            a@.len() == b@.len(),
            forall|k: int| 0 <= k < i ==> a@[k] == b@[k],
        decreases a.len() - i,
    {
        if a[i] != b[i] {
            return false;
        }
        i = i + 1;
    }
    proof {
        assert(a@ =~= b@);
    }
    true
}

/// A copy of a byte string.
pub fn copy_bytes(a: &[u8]) -> (r: Vec<u8>)
    ensures
        r@ == a@,
{
    let mut out: Vec<u8> = Vec::new();
    let mut i: usize = 0;
    while i < a.len()
        invariant
            i <= a.len(),
            out@ == a@.subrange(0, i as int),
        decreases a.len() - i,
    {
        out.push(a[i]);
        proof {
            assert(a@.subrange(0, i + 1) =~= a@.subrange(0, i as int).push(a@[i as int]));
        }
        i = i + 1;
    }
    proof {
        assert(a@.subrange(0, a.len() as int) =~= a@);
    }
    out
}

/// The character of the hexadecimal digit `d`.
pub open spec fn hex_char(d: u8) -> char {
    if d == 0 {
        '0'
    } else if d == 1 {
        '1'
    } else if d == 2 {
        '2'
    } else if d == 3 {
        '3'
    } else if d == 4 {
        '4'
    } else if d == 5 {
        '5'
    } else if d == 6 {
        '6'
    } else if d == 7 {
        '7'
    } else if d == 8 {
        '8'
    } else if d == 9 {
        '9'
    } else if d == 10 {
        'a'
    } else if d == 11 {
        'b'
    } else if d == 12 {
        'c'
    } else if d == 13 {
        'd'
    } else if d == 14 {
        'e'
    } else {
        'f'
    }
}

/// Lower-case hexadecimal form of a byte string, two characters per byte.
pub open spec fn hex_chars(bytes: Seq<u8>) -> Seq<char> {
    Seq::new(
        2 * bytes.len(),
        |i: int|
            if i % 2 == 0 {
                hex_char(bytes[i / 2] / 16)
            } else {
                hex_char(bytes[i / 2] % 16)
            },
    )
}

fn hex_digit(d: u8) -> (c: char)
    requires
        d < 16,
    ensures
        c == hex_char(d),
{
    if d == 0 {
        '0'
    } else if d == 1 {
        '1'
    } else if d == 2 {
        '2'
    } else if d == 3 {
        '3'
    } else if d == 4 {
        '4'
    } else if d == 5 {
        '5'
    } else if d == 6 {
        '6'
    } else if d == 7 {
        '7'
    } else if d == 8 {
        '8'
    } else if d == 9 {
        '9'
    } else if d == 10 {
        'a'
    } else if d == 11 {
        'b'
    } else if d == 12 {
        'c'
    } else if d == 13 {
        'd'
    } else if d == 14 {
        'e'
    } else {
        'f'
    }
}

/// `String::push` of std appends the character to the end of the string.
pub assume_specification[ String::push ](s: &mut String, c: char)
    ensures
        final(s)@ == old(s)@.push(c),
;

/// A digest of 32 bytes, used as an identifier. It is kept as four words, so
/// that it is compared and copied as a value.
#[derive(Clone, Copy, Debug, PartialEq, Eq, Hash, Structural)]
pub struct Digest {
    w0: u64,
    w1: u64,
    w2: u64,
    w3: u64,
}

impl View for Digest {
    type V = Seq<u8>;

    closed spec fn view(&self) -> Seq<u8> {
        be_bytes(self.w0) + be_bytes(self.w1) + be_bytes(self.w2) + be_bytes(self.w3)
    }
}

impl Digest {
    /// A digest has 32 bytes.
    pub proof fn lemma_len(self)
        ensures
            self@.len() == DIGEST_BYTES_LEN,
    {
    }

    /// Digests with the same bytes are the same digest.
    pub proof fn lemma_view_injective(self, other: Digest)
        requires
            self@ == other@,
        ensures
            self == other,
    {
        assert(self@.subrange(0, 8) =~= be_bytes(self.w0));
        assert(self@.subrange(8, 16) =~= be_bytes(self.w1));
        assert(self@.subrange(16, 24) =~= be_bytes(self.w2));
        assert(self@.subrange(24, 32) =~= be_bytes(self.w3));
        assert(other@.subrange(0, 8) =~= be_bytes(other.w0));
        assert(other@.subrange(8, 16) =~= be_bytes(other.w1));
        assert(other@.subrange(16, 24) =~= be_bytes(other.w2));
        assert(other@.subrange(24, 32) =~= be_bytes(other.w3));
        lemma_be_bytes_injective(self.w0, other.w0);
        lemma_be_bytes_injective(self.w1, other.w1);
        lemma_be_bytes_injective(self.w2, other.w2);
        lemma_be_bytes_injective(self.w3, other.w3);
    }

    /// Bit `d` of the digest, counted from the lowest bit of its first word;
    /// the first 64 bits are counted.
    pub closed spec fn key_bit(self, d: nat) -> bool {
        (self.w0 >> (d as u64)) & 1 == 1
    }

    /// Bit `d` of the digest.
    pub fn bit(&self, d: usize) -> (r: bool)
        requires
            d < 64,
        ensures
            r == self.key_bit(d as nat),
    {
        (self.w0 >> (d as u64)) & 1 == 1
    }

    /// The digest whose bytes are the given 32 bytes.
    pub closed spec fn of_bytes(bytes: Seq<u8>) -> Digest {
        Digest {
            w0: be_value(bytes.subrange(0, 8)),
            w1: be_value(bytes.subrange(8, 16)),
            w2: be_value(bytes.subrange(16, 24)),
            w3: be_value(bytes.subrange(24, 32)),
        }
    }

    /// The digest made of 32 bytes has those bytes.
    pub proof fn lemma_of_bytes(bytes: Seq<u8>)
        requires
            bytes.len() == 32,
        ensures
            Digest::of_bytes(bytes)@ == bytes,
    {
        lemma_be_bytes_of_value(bytes.subrange(0, 8));
        lemma_be_bytes_of_value(bytes.subrange(8, 16));
        lemma_be_bytes_of_value(bytes.subrange(16, 24));
        lemma_be_bytes_of_value(bytes.subrange(24, 32));
        assert(Digest::of_bytes(bytes)@ =~= bytes);
    }

    /// A digest is the digest made of its bytes.
    pub proof fn lemma_of_view(self)
        ensures
            Digest::of_bytes(self@) == self,
    {
        self.lemma_len();
        Digest::lemma_of_bytes(self@);
        Digest::of_bytes(self@).lemma_view_injective(self);
    }

    /// The digest of `input`.
    pub fn digest_byteslice(input: &[u8]) -> (r: Digest)
        ensures
            r@ == blake2b_256(input@),
    {
        let d = digest(input);
        match Digest::from_bytes(d.as_slice()) {
            Some(r) => r,
            None => vstd::pervasive::unreached(),
        }
    }

    /// The identifier that the given 32 bytes are; `None` for another
    /// length.
    pub fn from_bytes(bytes: &[u8]) -> (r: Option<Digest>)
        ensures
            match r {
                Some(d) => d@ == bytes@ && bytes@.len() == DIGEST_BYTES_LEN && d == Digest::of_bytes(
                    bytes@,
                ),
                None => bytes@.len() != DIGEST_BYTES_LEN,
            },
    {
        if bytes.len() != 32 {
            return None;
        }
        let w0 = read_be_value(bytes, 0);
        let w1 = read_be_value(bytes, 8);
        let w2 = read_be_value(bytes, 16);
        let w3 = read_be_value(bytes, 24);
        let r = Digest { w0, w1, w2, w3 };
        proof {
            lemma_be_bytes_of_value(bytes@.subrange(0, 8));
            lemma_be_bytes_of_value(bytes@.subrange(8, 16));
            lemma_be_bytes_of_value(bytes@.subrange(16, 24));
            lemma_be_bytes_of_value(bytes@.subrange(24, 32));
            assert(r@ =~= bytes@);
        }
        Some(r)
    }

    /// The bytes of the digest.
    pub fn to_bytes(&self) -> (r: Vec<u8>)
        ensures
            r@ == self@,
    {
        let mut out: Vec<u8> = Vec::new();
        push_be_bytes(&mut out, self.w0);
        push_be_bytes(&mut out, self.w1);
        push_be_bytes(&mut out, self.w2);
        push_be_bytes(&mut out, self.w3);
        proof {
            assert(out@ =~= self@);
        }
        out
    }

    /// Whether two digests are the same.
    pub fn equals(&self, other: &Digest) -> (r: bool)
        ensures
            r == (self@ == other@),
            r == (*self == *other),
    {
        let r = self.w0 == other.w0 && self.w1 == other.w1 && self.w2 == other.w2 && self.w3
            == other.w3;
        proof {
            if self@ == other@ {
                self.lemma_view_injective(*other);
            }
        }
        r
    }

    /// Lower-case hexadecimal form of the digest.
    pub fn to_hex(&self) -> (r: String)
        ensures
            r@ == hex_chars(self@),
    {
        let bytes = self.to_bytes();
        let mut out = String::new();
        let mut i: usize = 0;
        while i < bytes.len()
            invariant
                i <= bytes.len(),
                out@ == hex_chars(bytes@).subrange(0, 2 * i),
            decreases bytes.len() - i,
        {
            let b = bytes[i];
            let ghost before = out@;
            out.push(hex_digit(b / 16));
            out.push(hex_digit(b % 16));
            proof {
                let all = hex_chars(bytes@);
                assert(all.subrange(0, 2 * i + 2) =~= before.push(all[2 * i]).push(all[2 * i + 1]));
            }
            i = i + 1;
        }
        proof {
            let all = hex_chars(bytes@);
            assert(all.subrange(0, 2 * bytes.len()) =~= all);
        }
        out
    }
}

/// A copy of a vector of plain values.
pub fn copy_vec<T: Copy>(v: &Vec<T>) -> (r: Vec<T>)
    ensures
        r@ == v@,
{
    let mut out: Vec<T> = Vec::new();
    let mut i: usize = 0;
    while i < v.len()
        invariant
            i <= v.len(),
            out@ == v@.subrange(0, i as int),
        decreases v.len() - i,
    {
        out.push(v[i]);
        proof {
            assert(v@.subrange(0, i + 1) =~= v@.subrange(0, i as int).push(v@[i as int]));
        }
        i = i + 1;
    }
    proof {
        assert(v@.subrange(0, v.len() as int) =~= v@);
    }
    out
}

} // verus!
