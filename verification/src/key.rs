//! Signing keys of accounts and committee members.

use crate::hash::Digest;
use cryptoxide::ed25519;
use vstd::prelude::*;

verus! {

/// The key pair and the public key that Ed25519 derives from a seed of 32
/// bytes: 64 and 32 bytes.
pub uninterp spec fn ed25519_keypair(seed: Seq<u8>) -> (Seq<u8>, Seq<u8>);

/// The Ed25519 signature of a message under a key pair: 64 bytes.
pub uninterp spec fn ed25519_signature(message: Seq<u8>, keypair: Seq<u8>) -> Seq<u8>;

/// Whether Ed25519 accepts a signature of a message under a public key.
pub uninterp spec fn ed25519_valid(message: Seq<u8>, public_key: Seq<u8>, signature: Seq<u8>) -> bool;

/// Derives a key pair from a seed by `cryptoxide::ed25519::keypair`. The
/// contract names the result and states the two lengths, which are those of
/// the arrays returned.
#[verifier::external_body]
pub(crate) fn keypair_from_seed(seed: &[u8]) -> (r: (Vec<u8>, Vec<u8>))
    requires
        seed@.len() == 32,
    ensures
        (r.0@, r.1@) == ed25519_keypair(seed@),
        r.0@.len() == 64,
        r.1@.len() == 32,
{
    let seed: &[u8; 32] = seed.try_into().unwrap();
    let (keypair, public_key) = ed25519::keypair(seed);
    (keypair.to_vec(), public_key.to_vec())
}

/// Signs a message by `cryptoxide::ed25519::signature`. The contract names
/// the signature and states its length, which is that of the array
/// returned.
#[verifier::external_body]
pub(crate) fn sign_with_keypair(message: &[u8], keypair: &[u8]) -> (r: Vec<u8>)
    requires
        keypair@.len() == 64,
    ensures
        r@ == ed25519_signature(message@, keypair@),
        r@.len() == 64,
{
    let keypair: &[u8; 64] = keypair.try_into().unwrap();
    ed25519::signature(message, keypair).to_vec()
}

/// Checks a signature by `cryptoxide::ed25519::verify`. The contract names
/// the verdict.
#[verifier::external_body]
pub(crate) fn verify_signature(message: &[u8], public_key: &[u8], signature: &[u8]) -> (ok: bool)
    requires
        public_key@.len() == 32,
        signature@.len() == 64,
    ensures
        ok == ed25519_valid(message@, public_key@, signature@),
{
    let public_key: &[u8; 32] = public_key.try_into().unwrap();
    let signature: &[u8; 64] = signature.try_into().unwrap();
    ed25519::verify(message, public_key, signature)
}

/// A public signing key.
#[derive(Clone, Copy, Debug, PartialEq, Eq, Hash, Structural)]
pub struct PublicKey(pub Digest);

/// A signature: 64 bytes, kept as two halves.
#[derive(Clone, Copy, Debug, PartialEq, Eq, Hash, Structural)]
pub struct Signature {
    pub r: Digest,
    pub s: Digest,
}

/// A secret signing key, with its public key.
#[derive(Clone, Copy, Debug, PartialEq, Eq, Structural)]
pub struct EitherEd25519SecretKey {
    seed: Digest,
    public: Digest,
}

impl View for PublicKey {
    type V = Seq<u8>;

    open spec fn view(&self) -> Seq<u8> {
        self.0@
    }
}

impl View for Signature {
    type V = Seq<u8>;

    open spec fn view(&self) -> Seq<u8> {
        self.r@ + self.s@
    }
}

impl Signature {
    /// The 64 bytes of the signature.
    pub fn to_bytes(&self) -> (out: Vec<u8>)
        ensures
            out@ == self@,
            out@.len() == 64,
    {
        let mut out = self.r.to_bytes();
        let mut tail = self.s.to_bytes();
        out.append(&mut tail);
        proof {
            self.r.lemma_len();
            self.s.lemma_len();
        }
        out
    }

    /// The signature that 64 bytes are; `None` for another length.
    pub fn from_bytes(bytes: &[u8]) -> (r: Option<Signature>)
        ensures
            match r {
                Some(s) => s@ == bytes@,
                None => bytes@.len() != 64,
            },
    {
        if bytes.len() != 64 {
            return None;
        }
        let r = Digest::from_bytes(vstd::slice::slice_subrange(bytes, 0, 32));
        let s = Digest::from_bytes(vstd::slice::slice_subrange(bytes, 32, 64));
        match (r, s) {
            (Some(r), Some(s)) => {
                proof {
                    assert(bytes@.subrange(0, 32) + bytes@.subrange(32, 64) =~= bytes@);
                }
                Some(Signature { r, s })
            },
            _ => None,
        }
    }
}

impl PublicKey {
    /// Whether `signature` is a valid signature of `message` under this
    /// key.
    pub fn verify(&self, message: &[u8], signature: &Signature) -> (ok: bool)
        ensures
            ok == ed25519_valid(message@, self@, signature@),
    {
        let pk = self.0.to_bytes();
        let sig = signature.to_bytes();
        proof {
            self.0.lemma_len();
        }
        verify_signature(message, pk.as_slice(), sig.as_slice())
    }
}

/// The secret key pair bytes of a seed.
pub open spec fn keypair_of(seed: Seq<u8>) -> Seq<u8> {
    ed25519_keypair(seed).0
}

/// The public key bytes of a seed.
pub open spec fn public_of(seed: Seq<u8>) -> Seq<u8> {
    ed25519_keypair(seed).1
}

impl EitherEd25519SecretKey {
    /// The secret key of a seed.
    pub fn from_seed(seed: Digest) -> (r: EitherEd25519SecretKey)
        ensures
            r.seed_bytes() == seed@,
            r.public_bytes() == public_of(seed@),
    {
        let bytes = seed.to_bytes();
        proof {
            seed.lemma_len();
        }
        let (_keypair, public) = keypair_from_seed(bytes.as_slice());
        let public = match Digest::from_bytes(public.as_slice()) {
            Some(d) => d,
            None => vstd::pervasive::unreached(),
        };
        EitherEd25519SecretKey { seed, public }
    }

    /// The seed of the key.
    pub closed spec fn seed_bytes(&self) -> Seq<u8> {
        self.seed@
    }

    /// The bytes of the public key.
    pub closed spec fn public_bytes(&self) -> Seq<u8> {
        self.public@
    }

    /// The public key.
    pub fn to_public(&self) -> (r: PublicKey)
        ensures
            r@ == self.public_bytes(),
    {
        PublicKey(self.public)
    }

    /// Signs a message: the signature of the message under the key pair of
    /// the seed.
    pub fn sign_slice(&self, message: &[u8]) -> (r: Signature)
        ensures
            r@ == ed25519_signature(message@, keypair_of(self.seed_bytes())),
    {
        let seed = self.seed.to_bytes();
        proof {
            self.seed.lemma_len();
        }
        let (keypair, _public) = keypair_from_seed(seed.as_slice());
        let sig = sign_with_keypair(message, keypair.as_slice());
        match Signature::from_bytes(sig.as_slice()) {
            Some(s) => s,
            None => vstd::pervasive::unreached(),
        }
    }
}

} // verus!
