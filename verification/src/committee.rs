//! Keys of the committee that opens a tally, and the election key that
//! voters encrypt to.

use crate::gang::{
    element_bytes, element_from_bytes, ge_sum, is_member, GroupElement, Scalar,
    GROUP_ELEMENT_BYTES_LEN,
};
use crate::codec::be_value;
use crate::gargamel::{PublicKey, SecretKey};
use crate::generator::{gen_pow, generator_value};
use crate::hash::{blake2b_256, digest};
use crate::modarith::{modulus, mul_mod, order};
use rand_chacha::ChaCha20Rng;
use vstd::prelude::*;

verus! {

/// Number of bytes of an encoded member public key.
pub const MEMBER_PUBLIC_KEY_BYTES_LEN: usize = 8;

/// Secret share of a committee member.
#[derive(Clone, Copy, Debug, PartialEq, Eq, Structural)]
pub struct MemberSecretKey(pub SecretKey);

/// Public share of a committee member.
#[derive(Clone, Copy, Debug, PartialEq, Eq, Hash, Structural)]
pub struct MemberPublicKey(pub PublicKey);

/// The key that ballots are encrypted to: the sum of the members' public
/// shares.
#[derive(Clone, Copy, Debug, PartialEq, Eq, Hash, Structural)]
pub struct ElectionPublicKey(pub PublicKey);

impl View for MemberSecretKey {
    type V = nat;

    open spec fn view(&self) -> nat {
        self.0@
    }
}

impl View for MemberPublicKey {
    type V = nat;

    open spec fn view(&self) -> nat {
        self.0@
    }
}

impl View for ElectionPublicKey {
    type V = nat;

    open spec fn view(&self) -> nat {
        self.0@
    }
}

/// The values of a sequence of member public keys.
pub open spec fn member_key_values(s: Seq<MemberPublicKey>) -> Seq<nat> {
    s.map_values(|k: MemberPublicKey| k@)
}

impl MemberSecretKey {
    /// The member secret that the scalar `sk` is.
    pub fn from_scalar(sk: Scalar) -> (r: MemberSecretKey)
        ensures
            r@ == sk@,
    {
        MemberSecretKey(SecretKey::from_scalar(sk))
    }

    /// The public share of this secret: the generator taken `sk` times.
    pub fn to_public(&self) -> (r: MemberPublicKey)
        ensures
            r@ == gen_pow(self@),
    {
        MemberPublicKey(self.0.to_public())
    }
}

impl MemberPublicKey {
    /// Fixed-width encoding of the key.
    pub fn to_bytes(&self) -> (out: Vec<u8>)
        ensures
            out@ == element_bytes(self@),
            out@.len() == MEMBER_PUBLIC_KEY_BYTES_LEN,
    {
        self.0.to_bytes()
    }

    /// Decodes a key; `None` unless `bytes` encodes a group element.
    pub fn from_bytes(bytes: &[u8]) -> (r: Option<MemberPublicKey>)
        ensures
            match r {
                Some(k) => element_from_bytes(bytes@) == Some(k@),
                None => element_from_bytes(bytes@) is None,
            },
    {
        match PublicKey::from_bytes(bytes) {
            Some(pk) => Some(MemberPublicKey(pk)),
            None => None,
        }
    }
}

impl ElectionPublicKey {
    /// The election key of a committee: the sum of the public shares of all
    /// its members.
    pub fn from_participants(pks: &[MemberPublicKey]) -> (r: ElectionPublicKey)
        ensures
            r@ == ge_sum(member_key_values(pks@)),
    {
        let ghost vals = member_key_values(pks@);
        let mut acc = GroupElement::zero();
        let mut i: usize = 0;
        while i < pks.len()
            invariant
                i <= pks.len(),
                vals == member_key_values(pks@),
                acc@ == ge_sum(vals.subrange(0, i as int)),
            decreases pks.len() - i,
        {
            proof {
                let next = vals.subrange(0, i + 1);
                assert(next.drop_last() =~= vals.subrange(0, i as int));
                assert(next.last() == pks@[i as int]@);
            }
            acc = acc.add(&pks[i].0.pk);
            i = i + 1;
        }
        proof {
            assert(vals.subrange(0, pks.len() as int) =~= vals);
        }
        ElectionPublicKey(PublicKey { pk: acc })
    }

    /// Fixed-width encoding of the key.
    pub fn to_bytes(&self) -> (out: Vec<u8>)
        ensures
            out@ == element_bytes(self@),
            out@.len() == GROUP_ELEMENT_BYTES_LEN,
    {
        self.0.to_bytes()
    }
}

/// First byte of what is hashed to derive a common reference string.
pub const TAG_CRS: u8 = 3;

/// The group element that a digest is mapped to: the square of the digest's
/// first word modulo the group modulus, or the generator where that square
/// is no group element.
pub open spec fn digest_to_element(d: Seq<u8>) -> nat {
    let e = (be_value(d.subrange(0, 8)) as nat) % modulus();
    let c = mul_mod(e, e, modulus());
    if d.len() >= 8 && is_member(c) {
        c
    } else {
        generator_value()
    }
}

/// The common reference string that the seed `bytes` gives.
pub open spec fn crs_from_hash(bytes: Seq<u8>) -> nat {
    digest_to_element(blake2b_256(seq![TAG_CRS] + bytes))
}

/// The common reference string: a group element that binds proofs to their
/// context, and that nobody knows as a multiple of the generator.
#[derive(Clone, Copy, Debug, PartialEq, Eq, Hash, Structural)]
pub struct Crs(GroupElement);

/// Same type, spelled as an acronym.
pub type CRS = Crs;

impl View for Crs {
    type V = nat;

    closed spec fn view(&self) -> nat {
        self.0@
    }
}

impl Crs {
    /// The reference string is a group element.
    pub proof fn lemma_is_member(self)
        ensures
            is_member(self@),
    {
        self.0.lemma_is_member();
    }

    /// The reference string derived from a seed, such as the identifier of a
    /// vote plan.
    pub fn from_hash(bytes: &[u8]) -> (r: Crs)
        ensures
            r@ == crs_from_hash(bytes@),
    {
        let mut input: Vec<u8> = Vec::new();
        input.push(TAG_CRS);
        let mut i: usize = 0;
        while i < bytes.len()
            invariant
                i <= bytes.len(),
                input@ == seq![TAG_CRS] + bytes@.subrange(0, i as int),
            decreases bytes.len() - i,
        {
            input.push(bytes[i]);
            proof {
                assert(input@ =~= seq![TAG_CRS] + bytes@.subrange(0, i + 1));
            }
            i = i + 1;
        }
        proof {
            assert(bytes@.subrange(0, bytes.len() as int) =~= bytes@);
        }
        let d = digest(input.as_slice());
        Crs(GroupElement::from_digest(d.as_slice()))
    }

    /// A reference string drawn at random: the square map applied to fresh
    /// random bytes.
    pub fn random(rng: &mut ChaCha20Rng) -> (r: Crs)
        ensures
            is_member(r@),
    {
        let word = crate::rng::next_word(rng);
        let seed = crate::codec::to_be_bytes(word);
        let r = Crs::from_hash(seed.as_slice());
        proof {
            r.lemma_is_member();
        }
        r
    }

    /// The group element of the reference string.
    pub fn element(&self) -> (e: GroupElement)
        ensures
            e@ == self@,
    {
        self.0
    }
}

/// Secret key with which a member receives messages of other members.
#[derive(Clone, Copy, Debug, PartialEq, Eq, Structural)]
pub struct MemberCommunicationKey(SecretKey);

/// Public key with which messages to a member are encrypted.
#[derive(Clone, Copy, Debug, PartialEq, Eq, Hash, Structural)]
pub struct MemberCommunicationPublicKey(PublicKey);

impl View for MemberCommunicationKey {
    type V = nat;

    closed spec fn view(&self) -> nat {
        self.0@
    }
}

impl View for MemberCommunicationPublicKey {
    type V = nat;

    closed spec fn view(&self) -> nat {
        self.0@
    }
}

impl MemberCommunicationKey {
    /// A communication key drawn from `rng`.
    pub fn new(rng: &mut ChaCha20Rng) -> (r: MemberCommunicationKey)
        ensures
            r@ < order(),
    {
        let sk = crate::rng::random_scalar(rng);
        MemberCommunicationKey(SecretKey::from_scalar(sk))
    }

    /// The public key of this communication key.
    pub fn to_public(&self) -> (r: MemberCommunicationPublicKey)
        ensures
            r@ == gen_pow(self@),
    {
        MemberCommunicationPublicKey(self.0.to_public())
    }
}

/// What a committee member holds after the key set-up: its secret share,
/// and the commitments to the coefficients of its two sharing polynomials.
#[derive(Debug)]
pub struct MemberState {
    sk: MemberSecretKey,
    threshold: usize,
    owner_index: usize,
    apubs: Vec<GroupElement>,
    es: Vec<GroupElement>,
}

/// The abstract state of a member.
pub struct MemberStateView {
    pub secret: nat,
    pub threshold: nat,
    pub owner_index: nat,
    pub apubs: Seq<nat>,
    pub es: Seq<nat>,
}

impl View for MemberState {
    type V = MemberStateView;

    closed spec fn view(&self) -> MemberStateView {
        MemberStateView {
            secret: self.sk@,
            threshold: self.threshold as nat,
            owner_index: self.owner_index as nat,
            apubs: crate::gang::element_values(self.apubs@),
            es: crate::gang::element_values(self.es@),
        }
    }
}

/// The state that a member derives from the coefficients `shek` of its
/// secret-sharing polynomial and `comm` of its blinding polynomial: the
/// secret is the constant coefficient, each coefficient of `shek` is
/// published as a multiple of the generator, and blinded by the matching
/// coefficient of `comm` under the reference string `h`.
pub open spec fn member_state(
    threshold: nat,
    h: nat,
    my: nat,
    shek: Seq<nat>,
    comm: Seq<nat>,
) -> MemberStateView {
    MemberStateView {
        secret: shek[0],
        threshold,
        owner_index: my,
        apubs: Seq::new(shek.len(), |l: int| gen_pow(shek[l])),
        es: Seq::new(
            shek.len(),
            |l: int| crate::gang::ge_add(gen_pow(shek[l]), crate::gang::ge_scale(h, comm[l])),
        ),
    }
}

impl MemberState {
    /// Sets up a member of a committee of `committee_pks.len()` members with
    /// the given threshold, with coefficients drawn from `rng`.
    pub fn new(
        rng: &mut ChaCha20Rng,
        t: usize,
        h: &Crs,
        committee_pks: &[MemberCommunicationPublicKey],
        my: usize,
    ) -> (r: MemberState)
        requires
            0 < t <= committee_pks@.len(),
            t < usize::MAX,
            my < committee_pks@.len(),
        ensures
            exists|shek: Seq<nat>, comm: Seq<nat>|
                shek.len() == t + 1 && comm.len() == t + 1 && r@ == #[trigger] member_state(
                    t as nat,
                    h@,
                    my as nat,
                    shek,
                    comm,
                ),
    {
        let comm = crate::rng::random_scalars(rng, t + 1);
        let shek = crate::rng::random_scalars(rng, t + 1);
        let r = MemberState::from_coefficients(t, h, committee_pks.len(), my, &shek, &comm);
        proof {
            let a = crate::gang::scalar_values(shek@);
            let b = crate::gang::scalar_values(comm@);
            assert(a.len() == t + 1 && b.len() == t + 1 && r@ == member_state(
                t as nat,
                h@,
                my as nat,
                a,
                b,
            ));
        }
        r
    }

    /// Sets up a member of a committee of `members` members from the
    /// coefficients of its two polynomials, `t + 1` each.
    pub fn from_coefficients(
        t: usize,
        h: &Crs,
        members: usize,
        my: usize,
        shek: &Vec<Scalar>,
        comm: &Vec<Scalar>,
    ) -> (r: MemberState)
        requires
            0 < t <= members,
            my < members,
            shek@.len() == t + 1,
            comm@.len() == t + 1,
        ensures
            r@ == member_state(
                t as nat,
                h@,
                my as nat,
                crate::gang::scalar_values(shek@),
                crate::gang::scalar_values(comm@),
            ),
    {
        let gen = GroupElement::generator();
        let mut apubs: Vec<GroupElement> = Vec::new();
        let mut es: Vec<GroupElement> = Vec::new();
        let mut l: usize = 0;
        while l < shek.len()
            invariant
                l <= shek@.len(),
                shek@.len() == comm@.len(),
                gen@ == generator_value(),
                apubs@.len() == l,
                es@.len() == l,
                forall|k: int| 0 <= k < l ==> (#[trigger] apubs@[k])@ == gen_pow(shek@[k]@),
                forall|k: int|
                    0 <= k < l ==> (#[trigger] es@[k])@ == crate::gang::ge_add(
                        gen_pow(shek@[k]@),
                        crate::gang::ge_scale(h@, comm@[k]@),
                    ),
            decreases shek@.len() - l,
        {
            let apub = gen.scalar_mul(&shek[l]);
            let e = apub.add(&h.element().scalar_mul(&comm[l]));
            apubs.push(apub);
            es.push(e);
            l = l + 1;
        }
        let r = MemberState {
            sk: MemberSecretKey::from_scalar(shek[0]),
            threshold: t,
            owner_index: my,
            apubs,
            es,
        };
        proof {
            let v = member_state(
                t as nat,
                h@,
                my as nat,
                crate::gang::scalar_values(shek@),
                crate::gang::scalar_values(comm@),
            );
            assert(r@.apubs =~= v.apubs);
            assert(r@.es =~= v.es);
        }
        r
    }

    /// The member's secret share.
    pub fn secret_key(&self) -> (r: &MemberSecretKey)
        ensures
            r@ == self@.secret,
    {
        &self.sk
    }

    /// The member's public share: the generator taken secret times.
    pub fn public_key(&self) -> (r: MemberPublicKey)
        ensures
            r@ == gen_pow(self@.secret),
    {
        self.sk.to_public()
    }

    /// The threshold the committee was set up with.
    pub fn threshold(&self) -> (r: usize)
        ensures
            r == self@.threshold,
    {
        self.threshold
    }

    /// The member's index in the committee.
    pub fn owner_index(&self) -> (r: usize)
        ensures
            r == self@.owner_index,
    {
        self.owner_index
    }
}

} // verus!
