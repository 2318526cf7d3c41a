//! Proof that a ballot encrypts a unit vector, without opening it.
//!
//! The prover commits to each bit of the position of the one, answers two
//! challenges derived from a hash of the transcript, and the verifier checks
//! linear relations in the group. The proof has a number of entries
//! logarithmic in the number of options.

use crate::codec::{be_value, read_be_value};
use crate::committee::Crs;
use crate::encrypted::{EncryptingVote, EncryptingVoteView};
use crate::gang::{
    element_bytes, element_from_bytes, ge_add, ge_scale, sc_add, sc_mul, sc_neg, sc_pow, sc_sub,
    scalar_bytes, scalar_from_bytes, scalar_values, GroupElement, Scalar,
};
use crate::gargamel::{
    ciphertext_values, ct_add, ct_encrypt, ct_from_bytes, ct_scale, ct_zero, Ciphertext,
    PublicKey,
};
use crate::generator::gen_pow;
use crate::hash::{blake2b_256, digest};
use crate::modarith::order;
use crate::rng::random_scalars;
use rand_chacha::ChaCha20Rng;
use crate::tally::{ciphertexts_to_bytes, tally_bytes};
use crate::unit_vector::{binrep, bit_of, bits_for, bits_needed, two_pow, MAX_OPTIONS};
use vstd::prelude::*;

verus! {

/// First byte of what is hashed for the first challenge.
pub const TAG_FIRST_CHALLENGE: u8 = 1;

/// First byte of what is hashed for the second challenge.
pub const TAG_SECOND_CHALLENGE: u8 = 2;

/// Commitment to the message `m` with the coin `r` under the key `h`.
pub open spec fn commit(h: nat, m: nat, r: nat) -> nat {
    ge_add(ge_scale(h, m), gen_pow(r))
}

/// The ciphertexts padded with zero ciphertexts to `total` entries.
pub open spec fn pad_ciphertexts(cts: Seq<(nat, nat)>, total: nat) -> Seq<(nat, nat)> {
    Seq::new(
        total,
        |j: int|
            if j < cts.len() {
                cts[j]
            } else {
                ct_zero()
            },
    )
}

/// The coins padded with zeros to `total` entries.
pub open spec fn pad_coins(coins: Seq<nat>, total: nat) -> Seq<nat> {
    Seq::new(
        total,
        |j: int|
            if j < coins.len() {
                coins[j]
            } else {
                0
            },
    )
}

/// Encoding of the announcements, level by level.
pub open spec fn announcements_bytes(ibas: Seq<(nat, nat, nat)>) -> Seq<u8>
    decreases ibas.len(),
{
    if ibas.len() == 0 {
        Seq::empty()
    } else {
        announcements_bytes(ibas.drop_last()) + element_bytes(ibas.last().0) + element_bytes(
            ibas.last().1,
        ) + element_bytes(ibas.last().2)
    }
}

/// The scalar that a digest gives: its first sixteen bytes as a big-endian
/// integer, modulo the group order.
pub open spec fn challenge_scalar(d: Seq<u8>) -> nat {
    if d.len() >= 16 {
        (((be_value(d.subrange(0, 8)) as nat) * 0x1_0000_0000_0000_0000 + (be_value(
            d.subrange(8, 16),
        ) as nat)) % order()) as nat
    } else {
        0
    }
}

/// Digest of the statement and the announcements: the tag of the first
/// challenge, the commitment key, the election key, the padded ciphertexts
/// and the announcements.
pub open spec fn first_digest(
    h: nat,
    pk: nat,
    cts: Seq<(nat, nat)>,
    ibas: Seq<(nat, nat, nat)>,
) -> Seq<u8> {
    blake2b_256(
        seq![TAG_FIRST_CHALLENGE] + element_bytes(h) + element_bytes(pk) + tally_bytes(cts)
            + announcements_bytes(ibas),
    )
}

/// Digest for the second challenge: its tag, the first digest and the
/// ciphertexts of the second message.
pub open spec fn second_digest(first: Seq<u8>, ds: Seq<(nat, nat)>) -> Seq<u8> {
    blake2b_256(seq![TAG_SECOND_CHALLENGE] + first + tally_bytes(ds))
}

/// One level of the first message: commitments to a bit of the position, to
/// its blinding, and to their product.
#[derive(Clone, Copy, Debug, PartialEq, Eq, Structural)]
pub struct Announcement {
    pub i: GroupElement,
    pub b: GroupElement,
    pub a: GroupElement,
}

/// One level of the answer to the second challenge.
#[derive(Clone, Copy, Debug, PartialEq, Eq, Structural)]
pub struct Response {
    pub z: Scalar,
    pub w: Scalar,
    pub v: Scalar,
}

impl View for Announcement {
    type V = (nat, nat, nat);

    open spec fn view(&self) -> (nat, nat, nat) {
        (self.i@, self.b@, self.a@)
    }
}

impl View for Response {
    type V = (nat, nat, nat);

    open spec fn view(&self) -> (nat, nat, nat) {
        (self.z@, self.w@, self.v@)
    }
}

/// The values of a sequence of announcements.
pub open spec fn announcement_values(s: Seq<Announcement>) -> Seq<(nat, nat, nat)> {
    s.map_values(|x: Announcement| x@)
}

/// The values of a sequence of responses.
pub open spec fn response_values(s: Seq<Response>) -> Seq<(nat, nat, nat)> {
    s.map_values(|x: Response| x@)
}

/// A proof that a ballot encrypts a unit vector.
#[derive(Clone, Debug, PartialEq, Eq)]
pub struct Proof {
    ibas: Vec<Announcement>,
    ds: Vec<Ciphertext>,
    zwvs: Vec<Response>,
    r: Scalar,
}

/// The abstract proof.
pub struct ProofView {
    pub ibas: Seq<(nat, nat, nat)>,
    pub ds: Seq<(nat, nat)>,
    pub zwvs: Seq<(nat, nat, nat)>,
    pub r: nat,
}

impl View for Proof {
    type V = ProofView;

    closed spec fn view(&self) -> ProofView {
        ProofView {
            ibas: announcement_values(self.ibas@),
            ds: ciphertext_values(self.ds@),
            zwvs: response_values(self.zwvs@),
            r: self.r@,
        }
    }
}

/// Whether level `l` of a proof answers the challenge `cx` consistently
/// with its announcement: the committed bit is zero or one.
pub open spec fn level_holds(h: nat, cx: nat, iba: (nat, nat, nat), zwv: (nat, nat, nat)) -> bool {
    &&& ge_add(ge_scale(iba.0, cx), iba.1) == commit(h, zwv.0, zwv.1)
    &&& ge_add(ge_scale(iba.0, sc_sub(cx, zwv.0)), iba.2) == commit(h, 0, zwv.2)
}

/// The answer that level `l` contributes for entry `j`: `z` where bit `l` of
/// `j` is set, else the challenge less `z`.
pub open spec fn selector(zwvs: Seq<(nat, nat, nat)>, cx: nat, j: nat, l: int) -> nat {
    if bit_of(j, l as nat) {
        zwvs[l].0
    } else {
        sc_sub(cx, zwvs[l].0)
    }
}

/// Product of the selectors of entry `j` over the first `upto` levels.
pub open spec fn selector_product(zwvs: Seq<(nat, nat, nat)>, cx: nat, j: nat, upto: nat) -> nat
    decreases upto,
{
    if upto == 0 {
        1
    } else {
        sc_mul(
            selector_product(zwvs, cx, j, (upto - 1) as nat),
            selector(zwvs, cx, j, upto - 1),
        )
    }
}

/// What entry `j` contributes to the product check.
pub open spec fn slot_term(
    pk: nat,
    c: (nat, nat),
    zwvs: Seq<(nat, nat, nat)>,
    cx: nat,
    cy: nat,
    j: nat,
) -> (nat, nat) {
    ct_scale(
        ct_add(
            ct_scale(c, sc_pow(cx, zwvs.len())),
            ct_encrypt(pk, sc_neg(selector_product(zwvs, cx, j, zwvs.len())), 0),
        ),
        sc_pow(cy, j),
    )
}

/// Sum of the contributions of the first `upto` entries.
pub open spec fn slots_sum(
    pk: nat,
    cts: Seq<(nat, nat)>,
    zwvs: Seq<(nat, nat, nat)>,
    cx: nat,
    cy: nat,
    upto: nat,
) -> (nat, nat)
    decreases upto,
{
    if upto == 0 {
        ct_zero()
    } else {
        ct_add(
            slots_sum(pk, cts, zwvs, cx, cy, (upto - 1) as nat),
            slot_term(pk, cts[upto - 1], zwvs, cx, cy, (upto - 1) as nat),
        )
    }
}

/// Sum of the first `upto` ciphertexts of the second message, the `k`-th
/// taken `cx^k` times.
pub open spec fn ds_sum(ds: Seq<(nat, nat)>, cx: nat, upto: nat) -> (nat, nat)
    decreases upto,
{
    if upto == 0 {
        ct_zero()
    } else {
        ct_add(
            ds_sum(ds, cx, (upto - 1) as nat),
            ct_scale(ds[upto - 1], sc_pow(cx, (upto - 1) as nat)),
        )
    }
}

/// Whether every level of the proof holds.
pub open spec fn levels_hold(h: nat, cx: nat, proof: ProofView) -> bool {
    forall|l: int| 0 <= l < proof.ibas.len() ==> level_holds(h, cx, proof.ibas[l], proof.zwvs[l])
}

/// Whether `proof` shows that `cts` encrypts a unit vector under `pk`, in
/// the context of the commitment key `h`.
pub open spec fn verify_spec(h: nat, pk: nat, cts: Seq<(nat, nat)>, proof: ProofView) -> bool {
    let bits = bits_for(cts.len());
    let padded = pad_ciphertexts(cts, two_pow(bits));
    let first = first_digest(h, pk, padded, proof.ibas);
    let cy = challenge_scalar(first);
    let cx = challenge_scalar(second_digest(first, proof.ds));
    &&& 1 <= cts.len() <= MAX_OPTIONS
    &&& proof.ibas.len() == bits
    &&& proof.zwvs.len() == bits
    &&& proof.ds.len() == bits
    &&& levels_hold(h, cx, proof)
    &&& ct_add(slots_sum(pk, padded, proof.zwvs, cx, cy, two_pow(bits)), ds_sum(proof.ds, cx, bits))
        == ct_encrypt(pk, 0, proof.r)
}

/// The scalar that a digest gives.
pub fn challenge_from_digest(d: &[u8]) -> (r: Scalar)
    requires
        d@.len() >= 16,
    ensures
        r@ == challenge_scalar(d@),
{
    let hi: u64 = read_be_value(d, 0);
    let lo: u64 = read_be_value(d, 8);
    let wide: u128 = (hi as u128) * 0x1_0000_0000_0000_0000u128 + (lo as u128);
    Scalar::from_u128(wide)
}

fn append_element(out: &mut Vec<u8>, e: &GroupElement)
    ensures
        final(out)@ == old(out)@ + element_bytes(e@),
{
    let mut piece = e.to_bytes();
    out.append(&mut piece);
}

fn announcements_to_bytes(ibas: &Vec<Announcement>) -> (out: Vec<u8>)
    ensures
        out@ == announcements_bytes(announcement_values(ibas@)),
{
    let ghost vals = announcement_values(ibas@);
    let mut out: Vec<u8> = Vec::new();
    let mut l: usize = 0;
    while l < ibas.len()
        invariant
            l <= ibas.len(),
            vals == announcement_values(ibas@),
            out@ == announcements_bytes(vals.subrange(0, l as int)),
        decreases ibas.len() - l,
    {
        proof {
            let next = vals.subrange(0, l + 1);
            assert(next.drop_last() =~= vals.subrange(0, l as int));
            assert(next.last() == ibas@[l as int]@);
        }
        append_element(&mut out, &ibas[l].i);
        append_element(&mut out, &ibas[l].b);
        append_element(&mut out, &ibas[l].a);
        l = l + 1;
    }
    proof {
        assert(vals.subrange(0, ibas.len() as int) =~= vals);
    }
    out
}

/// The second challenge: from the first digest and the second message.
pub fn second_challenge(first: &Vec<u8>, ds: &Vec<Ciphertext>) -> (cx: Scalar)
    ensures
        cx@ == challenge_scalar(second_digest(first@, ciphertext_values(ds@))),
{
    let mut input: Vec<u8> = Vec::new();
    input.push(TAG_SECOND_CHALLENGE);
    let mut i: usize = 0;
    while i < first.len()
        invariant
            i <= first.len(),
            input@ == seq![TAG_SECOND_CHALLENGE] + first@.subrange(0, i as int),
        decreases first.len() - i,
    {
        input.push(first[i]);
        proof {
            assert(input@ =~= seq![TAG_SECOND_CHALLENGE] + first@.subrange(0, i + 1));
        }
        i = i + 1;
    }
    proof {
        assert(first@.subrange(0, first.len() as int) =~= first@);
    }
    let mut body = ciphertexts_to_bytes(ds.as_slice());
    input.append(&mut body);
    let second = digest(input.as_slice());
    challenge_from_digest(second.as_slice())
}

/// The digest of the statement and the announcements, from which the first
/// challenge is taken.
pub fn first_transcript_digest(
    crs: &Crs,
    public_key: &PublicKey,
    padded: &Vec<Ciphertext>,
    ibas: &Vec<Announcement>,
) -> (d: Vec<u8>)
    ensures
        d@ == first_digest(
            crs@,
            public_key@,
            ciphertext_values(padded@),
            announcement_values(ibas@),
        ),
        d@.len() == 32,
{
    let mut input: Vec<u8> = Vec::new();
    input.push(TAG_FIRST_CHALLENGE);
    append_element(&mut input, &crs.element());
    append_element(&mut input, &public_key.pk);
    let mut body = ciphertexts_to_bytes(padded.as_slice());
    input.append(&mut body);
    let mut tail = announcements_to_bytes(ibas);
    input.append(&mut tail);
    proof {
        assert(input@ =~= seq![TAG_FIRST_CHALLENGE] + element_bytes(crs@) + element_bytes(
            public_key@,
        ) + tally_bytes(ciphertext_values(padded@)) + announcements_bytes(
            announcement_values(ibas@),
        ));
    }
    digest(input.as_slice())
}

/// The ciphertexts followed by zero ciphertexts, `total` entries in all.
pub fn padded_ciphertexts(ciphertexts: &Vec<Ciphertext>, total: usize) -> (r: Vec<Ciphertext>)
    requires
        ciphertexts@.len() <= total,
    ensures
        ciphertext_values(r@) == pad_ciphertexts(ciphertext_values(ciphertexts@), total as nat),
{
    let mut out: Vec<Ciphertext> = Vec::new();
    let mut j: usize = 0;
    while j < total
        invariant
            j <= total,
            out@.len() == j,
            forall|k: int|
                0 <= k < j ==> (#[trigger] out@[k])@ == (if k < ciphertexts@.len() {
                    ciphertexts@[k]@
                } else {
                    ct_zero()
                }),
        decreases total - j,
    {
        if j < ciphertexts.len() {
            out.push(ciphertexts[j]);
        } else {
            out.push(Ciphertext::zero());
        }
        j = j + 1;
    }
    proof {
        assert(ciphertext_values(out@) =~= pad_ciphertexts(
            ciphertext_values(ciphertexts@),
            total as nat,
        ));
    }
    out
}

/// Two to the power `bits`, for up to eight bits.
pub fn power_of_two(bits: usize) -> (r: usize)
    requires
        bits <= 8,
    ensures
        r == two_pow(bits as nat),
        r <= 256,
{
    let mut r: usize = 1;
    let mut i: usize = 0;
    proof {
        reveal_with_fuel(two_pow, 10);
    }
    while i < bits
        invariant
            i <= bits,
            bits <= 8,
            r == two_pow(i as nat),
            r <= two_pow(8),
            two_pow(8) == 256,
            forall|a: nat| a < 8 ==> two_pow(a) < #[trigger] two_pow(a + 1) <= 256,
        decreases bits - i,
    {
        assert(two_pow(i as nat) < two_pow((i as nat) + 1));
        r = r * 2;
        i = i + 1;
    }
    r
}

fn commit_exec(crs: &Crs, m: &Scalar, r: &Scalar) -> (c: GroupElement)
    ensures
        c@ == commit(crs@, m@, r@),
{
    let left = crs.element().scalar_mul(m);
    let right = GroupElement::generator().scalar_mul(r);
    left.add(&right)
}

fn level_check(crs: &Crs, cx: &Scalar, iba: &Announcement, zwv: &Response) -> (ok: bool)
    ensures
        ok == level_holds(crs@, cx@, iba@, zwv@),
{
    let com1 = commit_exec(crs, &zwv.z, &zwv.w);
    let lhs1 = iba.i.scalar_mul(cx).add(&iba.b);
    if !lhs1.equals(&com1) {
        return false;
    }
    let com2 = commit_exec(crs, &Scalar::zero(), &zwv.v);
    let lhs2 = iba.i.scalar_mul(&cx.sub(&zwv.z)).add(&iba.a);
    lhs2.equals(&com2)
}

fn selector_product_exec(zwvs: &Vec<Response>, cx: &Scalar, j: usize) -> (r: Scalar)
    requires
        zwvs@.len() <= 8,
    ensures
        r@ == selector_product(response_values(zwvs@), cx@, j as nat, zwvs@.len()),
{
    let bits = binrep(j, zwvs.len() as u32);
    let mut acc = Scalar::one();
    let mut l: usize = 0;
    while l < zwvs.len()
        invariant
            l <= zwvs.len(),
            bits@.len() == zwvs@.len(),
            forall|k: int| 0 <= k < bits@.len() ==> bits@[k] == bit_of(j as nat, k as nat),
            acc@ == selector_product(response_values(zwvs@), cx@, j as nat, l as nat),
        decreases zwvs.len() - l,
    {
        let m = if bits[l] {
            zwvs[l].z
        } else {
            cx.sub(&zwvs[l].z)
        };
        acc = acc.mul(&m);
        l = l + 1;
    }
    acc
}

fn slots_sum_exec(
    public_key: &PublicKey,
    padded: &Vec<Ciphertext>,
    zwvs: &Vec<Response>,
    cx: &Scalar,
    cy: &Scalar,
) -> (r: Ciphertext)
    requires
        zwvs@.len() <= 8,
    ensures
        r@ == slots_sum(
            public_key@,
            ciphertext_values(padded@),
            response_values(zwvs@),
            cx@,
            cy@,
            padded@.len(),
        ),
{
    let cx_pow = cx.power(zwvs.len());
    let zero = Scalar::zero();
    let mut acc = Ciphertext::zero();
    let mut j: usize = 0;
    while j < padded.len()
        invariant
            j <= padded.len(),
            zwvs@.len() <= 8,
            zero@ == 0,
            cx_pow@ == sc_pow(cx@, zwvs@.len()),
            acc@ == slots_sum(
                public_key@,
                ciphertext_values(padded@),
                response_values(zwvs@),
                cx@,
                cy@,
                j as nat,
            ),
        decreases padded.len() - j,
    {
        let multz = selector_product_exec(zwvs, cx, j);
        let enc = public_key.encrypt_with_r(&multz.negate(), &zero);
        let mult_c = padded[j].scale(&cx_pow);
        let t = mult_c.add(&enc).scale(&cy.power(j));
        acc = acc.add(&t);
        j = j + 1;
    }
    acc
}

fn ds_sum_exec(ds: &Vec<Ciphertext>, cx: &Scalar) -> (r: Ciphertext)
    ensures
        r@ == ds_sum(ciphertext_values(ds@), cx@, ds@.len()),
{
    let mut acc = Ciphertext::zero();
    let mut k: usize = 0;
    while k < ds.len()
        invariant
            k <= ds.len(),
            acc@ == ds_sum(ciphertext_values(ds@), cx@, k as nat),
        decreases ds.len() - k,
    {
        let t = ds[k].scale(&cx.power(k));
        acc = acc.add(&t);
        k = k + 1;
    }
    acc
}

/// Checks a proof against a ballot, an election key and a reference
/// string.
pub fn verify(crs: &Crs, public_key: &PublicKey, ciphertexts: &Vec<Ciphertext>, proof: &Proof) -> (ok:
    bool)
    ensures
        ok == verify_spec(crs@, public_key@, ciphertext_values(ciphertexts@), proof@),
{
    let n = ciphertexts.len();
    if n == 0 || n > MAX_OPTIONS {
        return false;
    }
    let bits = bits_needed(n);
    if proof.ibas.len() != bits || proof.zwvs.len() != bits || proof.ds.len() != bits {
        return false;
    }
    proof {
        crate::unit_vector::lemma_bits_for_covers(n as nat);
    }
    let total = power_of_two(bits);
    let padded = padded_ciphertexts(ciphertexts, total);
    let first = first_transcript_digest(crs, public_key, &padded, &proof.ibas);
    let cy = challenge_from_digest(first.as_slice());
    let cx = second_challenge(&first, &proof.ds);
    let mut l: usize = 0;
    while l < bits
        invariant
            l <= bits,
            bits == proof.ibas@.len(),
            bits == proof.zwvs@.len(),
            bits == proof.ds@.len(),
            bits == bits_for(n as nat),
            n == ciphertexts@.len(),
            cx@ == challenge_scalar(
                second_digest(
                    first_digest(
                        crs@,
                        public_key@,
                        pad_ciphertexts(ciphertext_values(ciphertexts@), two_pow(bits as nat)),
                        proof@.ibas,
                    ),
                    proof@.ds,
                ),
            ),
            forall|k: int|
                0 <= k < l ==> level_holds(crs@, cx@, proof@.ibas[k], proof@.zwvs[k]),
        decreases bits - l,
    {
        if !level_check(crs, &cx, &proof.ibas[l], &proof.zwvs[l]) {
            proof {
                assert(!level_holds(crs@, cx@, proof@.ibas[l as int], proof@.zwvs[l as int]));
            }
            return false;
        }
        l = l + 1;
    }
    let entries = slots_sum_exec(public_key, &padded, &proof.zwvs, &cx, &cy);
    let dsum = ds_sum_exec(&proof.ds, &cx);
    let zero = public_key.encrypt_with_r(&Scalar::zero(), &proof.r);
    entries.add(&dsum).equals(&zero)
}

/// Number of coins that a proof over `bits` levels consumes.
pub open spec fn coins_needed(bits: nat) -> nat {
    5 * bits
}

/// Bit `l` of the position `ith`, as a scalar.
pub open spec fn bit_scalar(ith: nat, l: nat) -> nat {
    if bit_of(ith, l) {
        1
    } else {
        0
    }
}

/// The announcement of level `l`: commitments to the bit with coin
/// `coins[5l]`, to the blinding `coins[5l + 1]` with coin `coins[5l + 2]`,
/// and to the product of bit and blinding with coin `coins[5l + 3]`.
pub open spec fn announcement(h: nat, ith: nat, coins: Seq<nat>, l: int) -> (nat, nat, nat) {
    (
        commit(h, bit_scalar(ith, l as nat), coins[5 * l]),
        commit(h, coins[5 * l + 1], coins[5 * l + 2]),
        commit(h, sc_mul(bit_scalar(ith, l as nat), coins[5 * l + 1]), coins[5 * l + 3]),
    )
}

/// The linear factor `a * x + b` that level `l` contributes to the
/// polynomial of entry `j`, as the pair `(a, b)`.
pub open spec fn factor(ith: nat, coins: Seq<nat>, j: nat, l: int) -> (nat, nat) {
    if bit_of(j, l as nat) {
        (bit_scalar(ith, l as nat), coins[5 * l + 1])
    } else {
        (sc_sub(1, bit_scalar(ith, l as nat)), sc_neg(coins[5 * l + 1]))
    }
}

/// Coefficients of `p(x) * (a * x + b)`, lowest first.
pub open spec fn poly_mul_linear(p: Seq<nat>, a: nat, b: nat) -> Seq<nat> {
    Seq::new(
        p.len() + 1,
        |k: int|
            sc_add(
                if k < p.len() {
                    sc_mul(b, p[k])
                } else {
                    0
                },
                if k > 0 {
                    sc_mul(a, p[k - 1])
                } else {
                    0
                },
            ),
    )
}

/// Coefficients of the polynomial of entry `j`: the product of its linear
/// factors over the first `upto` levels.
pub open spec fn slot_poly(ith: nat, coins: Seq<nat>, j: nat, upto: nat) -> Seq<nat>
    decreases upto,
{
    if upto == 0 {
        seq![1nat]
    } else {
        poly_mul_linear(
            slot_poly(ith, coins, j, (upto - 1) as nat),
            factor(ith, coins, j, upto - 1).0,
            factor(ith, coins, j, upto - 1).1,
        )
    }
}

/// The message of the `k`-th ciphertext of the second message, summed over
/// the first `upto` entries: entry `j` contributes coefficient `k` of its
/// polynomial times `cy^j`.
pub open spec fn d_message(
    ith: nat,
    coins: Seq<nat>,
    bits: nat,
    cy: nat,
    k: int,
    upto: nat,
) -> nat
    decreases upto,
{
    if upto == 0 {
        0
    } else {
        sc_add(
            d_message(ith, coins, bits, cy, k, (upto - 1) as nat),
            sc_mul(sc_pow(cy, (upto - 1) as nat), slot_poly(ith, coins, (upto - 1) as nat, bits)[k]),
        )
    }
}

/// The answer of level `l` to the challenge `cx`.
pub open spec fn response(ith: nat, coins: Seq<nat>, cx: nat, l: int) -> (nat, nat, nat) {
    let z = sc_add(sc_mul(bit_scalar(ith, l as nat), cx), coins[5 * l + 1]);
    (
        z,
        sc_add(sc_mul(coins[5 * l], cx), coins[5 * l + 2]),
        sc_add(sc_mul(coins[5 * l], sc_sub(cx, z)), coins[5 * l + 3]),
    )
}

/// Sum over the first `upto` entries of the entry's coin times `scale`
/// times `cy^j`.
pub open spec fn coin_sum(padded_coins: Seq<nat>, scale: nat, cy: nat, upto: nat) -> nat
    decreases upto,
{
    if upto == 0 {
        0
    } else {
        sc_add(
            coin_sum(padded_coins, scale, cy, (upto - 1) as nat),
            sc_mul(sc_mul(padded_coins[upto - 1], scale), sc_pow(cy, (upto - 1) as nat)),
        )
    }
}

/// Sum over the first `upto` levels of the coin of the level's ciphertext
/// times `cx^k`.
pub open spec fn rho_sum(coins: Seq<nat>, cx: nat, upto: nat) -> nat
    decreases upto,
{
    if upto == 0 {
        0
    } else {
        sc_add(
            rho_sum(coins, cx, (upto - 1) as nat),
            sc_mul(coins[5 * (upto - 1) + 4], sc_pow(cx, (upto - 1) as nat)),
        )
    }
}

/// The announcements of all levels.
pub open spec fn prove_announcements(h: nat, ith: nat, coins: Seq<nat>, bits: nat) -> Seq<
    (nat, nat, nat),
> {
    Seq::new(bits, |l: int| announcement(h, ith, coins, l))
}

/// The second message: for each level a ciphertext of the level's message
/// with the level's coin `coins[5k + 4]`.
pub open spec fn prove_ds(pk: nat, ith: nat, coins: Seq<nat>, bits: nat, cy: nat) -> Seq<
    (nat, nat),
> {
    Seq::new(
        bits,
        |k: int|
            ct_encrypt(pk, d_message(ith, coins, bits, cy, k, two_pow(bits)), coins[5 * k + 4]),
    )
}

/// The proof that the prover makes for a ballot with the coins `coins`.
pub open spec fn prove_spec(h: nat, pk: nat, ev: EncryptingVoteView, coins: Seq<nat>) -> ProofView {
    let bits = bits_for(ev.vote.size);
    let total = two_pow(bits);
    let padded = pad_ciphertexts(ev.ciphertexts, total);
    let ibas = prove_announcements(h, ev.vote.ith, coins, bits);
    let first = first_digest(h, pk, padded, ibas);
    let cy = challenge_scalar(first);
    let ds = prove_ds(pk, ev.vote.ith, coins, bits, cy);
    let cx = challenge_scalar(second_digest(first, ds));
    ProofView {
        ibas,
        ds,
        zwvs: Seq::new(bits, |l: int| response(ev.vote.ith, coins, cx, l)),
        r: sc_add(
            coin_sum(pad_coins(ev.coins, total), sc_pow(cx, bits), cy, total),
            rho_sum(coins, cx, bits),
        ),
    }
}

fn bit_as_scalar(bit: bool) -> (r: Scalar)
    ensures
        r@ == (if bit {
            1nat
        } else {
            0nat
        }),
{
    if bit {
        Scalar::one()
    } else {
        Scalar::zero()
    }
}

fn poly_mul_linear_exec(p: &Vec<Scalar>, a: &Scalar, b: &Scalar) -> (r: Vec<Scalar>)
    requires
        p@.len() < 16,
    ensures
        scalar_values(r@) == poly_mul_linear(scalar_values(p@), a@, b@),
{
    let mut out: Vec<Scalar> = Vec::new();
    let n = p.len();
    let mut k: usize = 0;
    while k <= n
        invariant
            k <= n + 1,
            n == p@.len(),
            n < 16,
            out@.len() == k,
            forall|i: int|
                0 <= i < k ==> (#[trigger] out@[i])@ == poly_mul_linear(
                    scalar_values(p@),
                    a@,
                    b@,
                )[i],
        decreases n + 1 - k,
    {
        let low = if k < n {
            b.mul(&p[k])
        } else {
            Scalar::zero()
        };
        let high = if k > 0 {
            a.mul(&p[k - 1])
        } else {
            Scalar::zero()
        };
        out.push(low.add(&high));
        k = k + 1;
    }
    proof {
        assert(scalar_values(out@) =~= poly_mul_linear(scalar_values(p@), a@, b@));
    }
    out
}

fn slot_poly_exec(ith: usize, coins: &Vec<Scalar>, j: usize, bits: usize) -> (r: Vec<Scalar>)
    requires
        bits <= 8,
        coins@.len() == 5 * bits,
    ensures
        scalar_values(r@) == slot_poly(ith as nat, scalar_values(coins@), j as nat, bits as nat),
        r@.len() == bits + 1,
{
    let idx = binrep(ith, bits as u32);
    let jbits = binrep(j, bits as u32);
    let mut poly: Vec<Scalar> = Vec::new();
    poly.push(Scalar::one());
    proof {
        assert(scalar_values(poly@) =~= seq![1nat]);
    }
    let mut l: usize = 0;
    while l < bits
        invariant
            l <= bits,
            bits <= 8,
            coins@.len() == 5 * bits,
            idx@.len() == bits,
            jbits@.len() == bits,
            forall|k: int| 0 <= k < bits ==> idx@[k] == bit_of(ith as nat, k as nat),
            forall|k: int| 0 <= k < bits ==> jbits@[k] == bit_of(j as nat, k as nat),
            poly@.len() == l + 1,
            scalar_values(poly@) == slot_poly(
                ith as nat,
                scalar_values(coins@),
                j as nat,
                l as nat,
            ),
        decreases bits - l,
    {
        let i_l = bit_as_scalar(idx[l]);
        let beta = coins[5 * l + 1];
        let (a, b) = if jbits[l] {
            (i_l, beta)
        } else {
            (Scalar::one().sub(&i_l), beta.negate())
        };
        proof {
            assert(scalar_values(coins@)[5 * l + 1] == beta@);
            assert((a@, b@) == factor(ith as nat, scalar_values(coins@), j as nat, l as int));
        }
        let next = poly_mul_linear_exec(&poly, &a, &b);
        proof {
            assert(next@.len() == scalar_values(next@).len());
        }
        poly = next;
        l = l + 1;
    }
    poly
}

fn announcements_exec(crs: &Crs, ith: usize, coins: &Vec<Scalar>, bits: usize) -> (r: Vec<
    Announcement,
>)
    requires
        bits <= 8,
        coins@.len() == 5 * bits,
    ensures
        announcement_values(r@) == prove_announcements(
            crs@,
            ith as nat,
            scalar_values(coins@),
            bits as nat,
        ),
{
    let idx = binrep(ith, bits as u32);
    let mut ibas: Vec<Announcement> = Vec::new();
    let mut l: usize = 0;
    while l < bits
        invariant
            l <= bits,
            bits <= 8,
            coins@.len() == 5 * bits,
            idx@.len() == bits,
            forall|k: int| 0 <= k < bits ==> idx@[k] == bit_of(ith as nat, k as nat),
            ibas@.len() == l,
            forall|k: int|
                0 <= k < l ==> (#[trigger] ibas@[k])@ == announcement(
                    crs@,
                    ith as nat,
                    scalar_values(coins@),
                    k,
                ),
        decreases bits - l,
    {
        let i_l = bit_as_scalar(idx[l]);
        let alpha = coins[5 * l];
        let beta = coins[5 * l + 1];
        let gamma = coins[5 * l + 2];
        let delta = coins[5 * l + 3];
        proof {
            let cv = scalar_values(coins@);
            assert(cv[5 * l] == alpha@ && cv[5 * l + 1] == beta@ && cv[5 * l + 2] == gamma@ && cv[5
                * l + 3] == delta@);
        }
        let iba = Announcement {
            i: commit_exec(crs, &i_l, &alpha),
            b: commit_exec(crs, &beta, &gamma),
            a: commit_exec(crs, &i_l.mul(&beta), &delta),
        };
        ibas.push(iba);
        l = l + 1;
    }
    proof {
        assert(announcement_values(ibas@) =~= prove_announcements(
            crs@,
            ith as nat,
            scalar_values(coins@),
            bits as nat,
        ));
    }
    ibas
}

fn d_message_exec(polys: &Vec<Vec<Scalar>>, cy: &Scalar, k: usize, Ghost(ith): Ghost<nat>, Ghost(
    coins,
): Ghost<Seq<nat>>, Ghost(bits): Ghost<nat>) -> (r: Scalar)
    requires
        k < bits,
        forall|j: int|
            0 <= j < polys@.len() ==> scalar_values((#[trigger] polys@[j])@) == slot_poly(
                ith,
                coins,
                j as nat,
                bits,
            ) && polys@[j]@.len() == bits + 1,
    ensures
        r@ == d_message(ith, coins, bits, cy@, k as int, polys@.len()),
{
    let mut acc = Scalar::zero();
    let mut j: usize = 0;
    while j < polys.len()
        invariant
            j <= polys.len(),
            k < bits,
            forall|i: int|
                0 <= i < polys@.len() ==> scalar_values((#[trigger] polys@[i])@) == slot_poly(
                    ith,
                    coins,
                    i as nat,
                    bits,
                ) && polys@[i]@.len() == bits + 1,
            acc@ == d_message(ith, coins, bits, cy@, k as int, j as nat),
        decreases polys.len() - j,
    {
        let coeff = polys[j][k];
        proof {
            assert(scalar_values(polys@[j as int]@)[k as int] == coeff@);
        }
        let term = cy.power(j).mul(&coeff);
        acc = acc.add(&term);
        j = j + 1;
    }
    acc
}

fn ds_exec(public_key: &PublicKey, ith: usize, coins: &Vec<Scalar>, bits: usize, cy: &Scalar) -> (r:
    Vec<Ciphertext>)
    requires
        bits <= 8,
        coins@.len() == 5 * bits,
    ensures
        ciphertext_values(r@) == prove_ds(
            public_key@,
            ith as nat,
            scalar_values(coins@),
            bits as nat,
            cy@,
        ),
{
    let total = power_of_two(bits);
    let mut polys: Vec<Vec<Scalar>> = Vec::new();
    let mut j: usize = 0;
    while j < total
        invariant
            j <= total,
            bits <= 8,
            coins@.len() == 5 * bits,
            polys@.len() == j,
            forall|i: int|
                0 <= i < j ==> scalar_values((#[trigger] polys@[i])@) == slot_poly(
                    ith as nat,
                    scalar_values(coins@),
                    i as nat,
                    bits as nat,
                ) && polys@[i]@.len() == bits + 1,
        decreases total - j,
    {
        let p = slot_poly_exec(ith, coins, j, bits);
        polys.push(p);
        j = j + 1;
    }
    let mut ds: Vec<Ciphertext> = Vec::new();
    let mut k: usize = 0;
    while k < bits
        invariant
            k <= bits,
            bits <= 8,
            coins@.len() == 5 * bits,
            polys@.len() == total,
            total == two_pow(bits as nat),
            forall|i: int|
                0 <= i < total ==> scalar_values((#[trigger] polys@[i])@) == slot_poly(
                    ith as nat,
                    scalar_values(coins@),
                    i as nat,
                    bits as nat,
                ) && polys@[i]@.len() == bits + 1,
            ds@.len() == k,
            forall|i: int|
                0 <= i < k ==> (#[trigger] ds@[i])@ == ct_encrypt(
                    public_key@,
                    d_message(
                        ith as nat,
                        scalar_values(coins@),
                        bits as nat,
                        cy@,
                        i,
                        two_pow(bits as nat),
                    ),
                    scalar_values(coins@)[5 * i + 4],
                ),
        decreases bits - k,
    {
        let msg = d_message_exec(
            &polys,
            cy,
            k,
            Ghost(ith as nat),
            Ghost(scalar_values(coins@)),
            Ghost(bits as nat),
        );
        let rho = coins[5 * k + 4];
        proof {
            assert(scalar_values(coins@)[5 * k + 4] == rho@);
        }
        ds.push(public_key.encrypt_with_r(&msg, &rho));
        k = k + 1;
    }
    proof {
        assert(ciphertext_values(ds@) =~= prove_ds(
            public_key@,
            ith as nat,
            scalar_values(coins@),
            bits as nat,
            cy@,
        ));
    }
    ds
}

fn responses_exec(ith: usize, coins: &Vec<Scalar>, bits: usize, cx: &Scalar) -> (r: Vec<Response>)
    requires
        bits <= 8,
        coins@.len() == 5 * bits,
    ensures
        response_values(r@) == Seq::new(
            bits as nat,
            |l: int| response(ith as nat, scalar_values(coins@), cx@, l),
        ),
{
    let idx = binrep(ith, bits as u32);
    let mut zwvs: Vec<Response> = Vec::new();
    let mut l: usize = 0;
    while l < bits
        invariant
            l <= bits,
            bits <= 8,
            coins@.len() == 5 * bits,
            idx@.len() == bits,
            forall|k: int| 0 <= k < bits ==> idx@[k] == bit_of(ith as nat, k as nat),
            zwvs@.len() == l,
            forall|k: int|
                0 <= k < l ==> (#[trigger] zwvs@[k])@ == response(
                    ith as nat,
                    scalar_values(coins@),
                    cx@,
                    k,
                ),
        decreases bits - l,
    {
        let i_l = bit_as_scalar(idx[l]);
        let alpha = coins[5 * l];
        let beta = coins[5 * l + 1];
        let gamma = coins[5 * l + 2];
        let delta = coins[5 * l + 3];
        proof {
            let cv = scalar_values(coins@);
            assert(cv[5 * l] == alpha@ && cv[5 * l + 1] == beta@ && cv[5 * l + 2] == gamma@ && cv[5
                * l + 3] == delta@);
        }
        let z = i_l.mul(cx).add(&beta);
        let w = alpha.mul(cx).add(&gamma);
        let v = alpha.mul(&cx.sub(&z)).add(&delta);
        zwvs.push(Response { z, w, v });
        l = l + 1;
    }
    proof {
        assert(response_values(zwvs@) =~= Seq::new(
            bits as nat,
            |l: int| response(ith as nat, scalar_values(coins@), cx@, l),
        ));
    }
    zwvs
}

fn coin_sum_exec(random_elements: &Vec<Scalar>, scale: &Scalar, cy: &Scalar, total: usize) -> (r:
    Scalar)
    ensures
        r@ == coin_sum(
            pad_coins(scalar_values(random_elements@), total as nat),
            scale@,
            cy@,
            total as nat,
        ),
{
    let ghost padded = pad_coins(scalar_values(random_elements@), total as nat);
    let mut acc = Scalar::zero();
    let mut j: usize = 0;
    while j < total
        invariant
            j <= total,
            padded == pad_coins(scalar_values(random_elements@), total as nat),
            acc@ == coin_sum(padded, scale@, cy@, j as nat),
        decreases total - j,
    {
        let r_j = if j < random_elements.len() {
            random_elements[j]
        } else {
            Scalar::zero()
        };
        proof {
            assert(padded[j as int] == r_j@);
        }
        let term = r_j.mul(scale).mul(&cy.power(j));
        acc = acc.add(&term);
        j = j + 1;
    }
    acc
}

fn rho_sum_exec(coins: &Vec<Scalar>, cx: &Scalar, bits: usize) -> (r: Scalar)
    requires
        bits <= 8,
        coins@.len() == 5 * bits,
    ensures
        r@ == rho_sum(scalar_values(coins@), cx@, bits as nat),
{
    let mut acc = Scalar::zero();
    let mut k: usize = 0;
    while k < bits
        invariant
            k <= bits,
            bits <= 8,
            coins@.len() == 5 * bits,
            acc@ == rho_sum(scalar_values(coins@), cx@, k as nat),
        decreases bits - k,
    {
        let rho = coins[5 * k + 4];
        proof {
            assert(scalar_values(coins@)[5 * k + 4] == rho@);
        }
        let term = rho.mul(&cx.power(k));
        acc = acc.add(&term);
        k = k + 1;
    }
    acc
}

/// Number of coins that `prove_with` consumes for a ballot of `options`
/// entries.
pub fn coins_for(options: usize) -> (count: usize)
    requires
        options <= MAX_OPTIONS,
    ensures
        count == coins_needed(bits_for(options as nat)),
{
    5 * bits_needed(options)
}

/// Makes the proof for a ballot with the given coins, five per level.
pub fn prove_with(
    crs: &Crs,
    public_key: &PublicKey,
    encrypting_vote: &EncryptingVote,
    coins: &Vec<Scalar>,
) -> (proof: Proof)
    requires
        coins@.len() == coins_needed(bits_for(encrypting_vote@.vote.size)),
    ensures
        proof@ == prove_spec(crs@, public_key@, encrypting_vote@, scalar_values(coins@)),
{
    let n = encrypting_vote.unit_vector().len();
    let ith = encrypting_vote.unit_vector().ith();
    let bits = bits_needed(n);
    let total = power_of_two(bits);
    proof {
        crate::unit_vector::lemma_bits_for_covers(n as nat);
    }
    let ibas = announcements_exec(crs, ith, coins, bits);
    let padded = padded_ciphertexts(encrypting_vote.ciphertexts(), total);
    let first = first_transcript_digest(crs, public_key, &padded, &ibas);
    let cy = challenge_from_digest(first.as_slice());
    let ds = ds_exec(public_key, ith, coins, bits, &cy);
    let cx = second_challenge(&first, &ds);
    let zwvs = responses_exec(ith, coins, bits, &cx);
    let ballot_part = coin_sum_exec(encrypting_vote.random_elements(), &cx.power(bits), &cy, total);
    let second_part = rho_sum_exec(coins, &cx, bits);
    Proof { ibas, ds, zwvs, r: ballot_part.add(&second_part) }
}

/// Makes the proof for a ballot, with coins drawn from `rng`.
pub fn prove(
    rng: &mut ChaCha20Rng,
    crs: &Crs,
    public_key: &PublicKey,
    encrypting_vote: &EncryptingVote,
) -> (r: Proof)
    ensures
        is_proof_of(r@, crs@, public_key@, encrypting_vote@),
{
    let n = encrypting_vote.unit_vector().len();
    let coins = random_scalars(rng, coins_for(n));
    let proof = prove_with(crs, public_key, encrypting_vote, &coins);
    proof {
        let witness = scalar_values(coins@);
        assert(witness.len() == coins_needed(bits_for(encrypting_vote@.vote.size))
            && in_scalar_range(witness) && proof@ == prove_spec(
            crs@,
            public_key@,
            encrypting_vote@,
            witness,
        )) by {
            assert forall|i: int| 0 <= i < witness.len() implies #[trigger] witness[i] < order() by {
                coins@[i].lemma_in_range();
            }
        }
    }
    proof
}

/// Whether every entry is below the group order.
pub open spec fn in_scalar_range(s: Seq<nat>) -> bool {
    forall|i: int| 0 <= i < s.len() ==> #[trigger] s[i] < order()
}

/// Whether `proof` is what the prover makes for the ballot with some coins.
pub open spec fn is_proof_of(proof: ProofView, h: nat, pk: nat, ev: EncryptingVoteView) -> bool {
    exists|coins: Seq<nat>|
        coins.len() == coins_needed(bits_for(ev.vote.size)) && in_scalar_range(coins)
            && proof == #[trigger] prove_spec(h, pk, ev, coins)
}

/// Encoding of the responses, level by level.
pub open spec fn responses_bytes(zwvs: Seq<(nat, nat, nat)>) -> Seq<u8>
    decreases zwvs.len(),
{
    if zwvs.len() == 0 {
        Seq::empty()
    } else {
        responses_bytes(zwvs.drop_last()) + scalar_bytes(zwvs.last().0) + scalar_bytes(
            zwvs.last().1,
        ) + scalar_bytes(zwvs.last().2)
    }
}

/// Encoding of a proof: the number of levels as one byte, the
/// announcements, the ciphertexts of the second message, the responses and
/// the final response.
pub open spec fn proof_bytes(p: ProofView) -> Seq<u8> {
    seq![(p.ibas.len() % 256) as u8] + announcements_bytes(p.ibas) + tally_bytes(p.ds) + responses_bytes(
        p.zwvs,
    ) + scalar_bytes(p.r)
}

fn responses_to_bytes(zwvs: &Vec<Response>) -> (out: Vec<u8>)
    ensures
        out@ == responses_bytes(response_values(zwvs@)),
{
    let ghost vals = response_values(zwvs@);
    let mut out: Vec<u8> = Vec::new();
    let mut l: usize = 0;
    while l < zwvs.len()
        invariant
            l <= zwvs.len(),
            vals == response_values(zwvs@),
            out@ == responses_bytes(vals.subrange(0, l as int)),
        decreases zwvs.len() - l,
    {
        proof {
            let next = vals.subrange(0, l + 1);
            assert(next.drop_last() =~= vals.subrange(0, l as int));
            assert(next.last() == zwvs@[l as int]@);
        }
        let mut z = zwvs[l].z.to_bytes();
        let mut w = zwvs[l].w.to_bytes();
        let mut v = zwvs[l].v.to_bytes();
        out.append(&mut z);
        out.append(&mut w);
        out.append(&mut v);
        l = l + 1;
    }
    proof {
        assert(vals.subrange(0, zwvs.len() as int) =~= vals);
    }
    out
}

/// Whether every response of a proof is below the group order.
pub open spec fn responses_in_range(p: ProofView) -> bool {
    &&& p.r < order()
    &&& forall|l: int|
        0 <= l < p.zwvs.len() ==> (#[trigger] p.zwvs[l]).0 < order() && p.zwvs[l].1 < order()
            && p.zwvs[l].2 < order()
}

impl Proof {
    /// The responses of a proof are below the group order.
    pub proof fn lemma_responses_in_range(self)
        ensures
            responses_in_range(self@),
    {
        self.r.lemma_in_range();
        assert forall|l: int| 0 <= l < self@.zwvs.len() implies (#[trigger] self@.zwvs[l]).0
            < order() && self@.zwvs[l].1 < order() && self@.zwvs[l].2 < order() by {
            self.zwvs@[l].z.lemma_in_range();
            self.zwvs@[l].w.lemma_in_range();
            self.zwvs@[l].v.lemma_in_range();
        }
    }

    /// Number of levels of the proof.
    pub fn levels(&self) -> (r: usize)
        ensures
            r == self@.ibas.len(),
    {
        self.ibas.len()
    }

    /// A copy of the proof.
    pub fn duplicate(&self) -> (r: Proof)
        ensures
            r@ == self@,
    {
        Proof {
            ibas: crate::hash::copy_vec(&self.ibas),
            ds: crate::hash::copy_vec(&self.ds),
            zwvs: crate::hash::copy_vec(&self.zwvs),
            r: self.r,
        }
    }

    /// The encoding of the proof.
    pub fn to_bytes(&self) -> (out: Vec<u8>)
        ensures
            out@ == proof_bytes(self@),
    {
        let mut out: Vec<u8> = Vec::new();
        out.push((self.ibas.len() % 256) as u8);
        let mut ibas = announcements_to_bytes(&self.ibas);
        out.append(&mut ibas);
        let mut ds = ciphertexts_to_bytes(self.ds.as_slice());
        out.append(&mut ds);
        let mut zwvs = responses_to_bytes(&self.zwvs);
        out.append(&mut zwvs);
        let mut r = self.r.to_bytes();
        out.append(&mut r);
        proof {
            assert(out@ =~= proof_bytes(self@));
        }
        out
    }
}

/// The announcement that level `l` of an encoded proof holds, if its three
/// pieces are encodings of group elements. The announcements start after
/// the first byte, 24 bytes each.
pub open spec fn announcement_at(b: Seq<u8>, l: int) -> Option<(nat, nat, nat)> {
    let at = 1 + 24 * l;
    match (
        element_from_bytes(b.subrange(at, at + 8)),
        element_from_bytes(b.subrange(at + 8, at + 16)),
        element_from_bytes(b.subrange(at + 16, at + 24)),
    ) {
        (Some(i), Some(bb), Some(a)) => Some((i, bb, a)),
        _ => None,
    }
}

/// The ciphertext of the second message that level `l` of an encoded proof
/// of `levels` levels holds, if it is the encoding of one. The ciphertexts
/// follow the announcements, 16 bytes each.
pub open spec fn second_message_at(b: Seq<u8>, levels: int, l: int) -> Option<(nat, nat)> {
    let at = 1 + 24 * levels + 16 * l;
    ct_from_bytes(b.subrange(at, at + 16))
}

/// The response that level `l` of an encoded proof of `levels` levels
/// holds, if its three pieces are encodings of scalars. The responses follow
/// the ciphertexts, 24 bytes each.
pub open spec fn response_at(b: Seq<u8>, levels: int, l: int) -> Option<(nat, nat, nat)> {
    let at = 1 + 40 * levels + 24 * l;
    match (
        scalar_from_bytes(b.subrange(at, at + 8)),
        scalar_from_bytes(b.subrange(at + 8, at + 16)),
        scalar_from_bytes(b.subrange(at + 16, at + 24)),
    ) {
        (Some(z), Some(w), Some(v)) => Some((z, w, v)),
        _ => None,
    }
}

/// Whether every level of an encoded proof of `levels` levels reads.
pub open spec fn levels_read(b: Seq<u8>, levels: int) -> bool {
    forall|l: int|
        0 <= l < levels ==> (#[trigger] announcement_at(b, l)) is Some && second_message_at(
            b,
            levels,
            l,
        ) is Some && response_at(b, levels, l) is Some
}

/// The proof that `bytes` encodes, if it encodes one: its first byte is the
/// number of levels, it has 64 bytes for every level and eight for the final
/// response, and every piece reads.
pub open spec fn proof_from_bytes(b: Seq<u8>) -> Option<ProofView> {
    if b.len() < 9 {
        None
    } else {
        let levels = b[0] as int;
        if b.len() != 9 + 64 * levels || !levels_read(b, levels) {
            None
        } else {
            match scalar_from_bytes(b.subrange(1 + 64 * levels, 9 + 64 * levels)) {
                None => None,
                Some(r) => Some(
                    ProofView {
                        ibas: Seq::new(levels as nat, |l: int| announcement_at(b, l).unwrap()),
                        ds: Seq::new(
                            levels as nat,
                            |l: int| second_message_at(b, levels, l).unwrap(),
                        ),
                        zwvs: Seq::new(levels as nat, |l: int| response_at(b, levels, l).unwrap()),
                        r,
                    },
                ),
            }
        }
    }
}

fn announcement_parse(bytes: &[u8], l: usize) -> (r: Option<Announcement>)
    requires
        l <= 255,
        1 + 24 * l + 24 <= bytes@.len(),
    ensures
        match r {
            Some(a) => announcement_at(bytes@, l as int) == Some(a@),
            None => announcement_at(bytes@, l as int) is None,
        },
{
    let at: usize = 1 + 24 * l;
    let i = GroupElement::from_bytes(vstd::slice::slice_subrange(bytes, at, at + 8));
    let b = GroupElement::from_bytes(vstd::slice::slice_subrange(bytes, at + 8, at + 16));
    let a = GroupElement::from_bytes(vstd::slice::slice_subrange(bytes, at + 16, at + 24));
    match (i, b, a) {
        (Some(i), Some(b), Some(a)) => Some(Announcement { i, b, a }),
        _ => None,
    }
}

fn response_parse(bytes: &[u8], levels: usize, l: usize) -> (r: Option<Response>)
    requires
        l < levels <= 255,
        1 + 40 * levels + 24 * l + 24 <= bytes@.len(),
    ensures
        match r {
            Some(a) => response_at(bytes@, levels as int, l as int) == Some(a@),
            None => response_at(bytes@, levels as int, l as int) is None,
        },
{
    let at: usize = 1 + 40 * levels + 24 * l;
    let z = Scalar::from_bytes(vstd::slice::slice_subrange(bytes, at, at + 8));
    let w = Scalar::from_bytes(vstd::slice::slice_subrange(bytes, at + 8, at + 16));
    let v = Scalar::from_bytes(vstd::slice::slice_subrange(bytes, at + 16, at + 24));
    match (z, w, v) {
        (Some(z), Some(w), Some(v)) => Some(Response { z, w, v }),
        _ => None,
    }
}

impl Proof {
    /// Reads a proof from its encoding; `None` unless `bytes` is exactly the
    /// encoding of a proof.
    pub fn from_bytes(bytes: &[u8]) -> (r: Option<Proof>)
        ensures
            match r {
                Some(p) => proof_from_bytes(bytes@) == Some(p@),
                None => proof_from_bytes(bytes@) is None,
            },
    {
        if bytes.len() < 9 {
            return None;
        }
        let levels = bytes[0] as usize;
        if bytes.len() != 9 + 64 * levels {
            return None;
        }
        let mut ibas: Vec<Announcement> = Vec::new();
        let mut ds: Vec<Ciphertext> = Vec::new();
        let mut zwvs: Vec<Response> = Vec::new();
        let mut l: usize = 0;
        while l < levels
            invariant
                l <= levels,
                levels == bytes@[0] as int,
                levels <= 255,
                bytes@.len() == 9 + 64 * levels,
                ibas@.len() == l,
                ds@.len() == l,
                zwvs@.len() == l,
                forall|k: int|
                    0 <= k < l ==> announcement_at(bytes@, k) == Some((#[trigger] ibas@[k])@),
                forall|k: int|
                    0 <= k < l ==> second_message_at(bytes@, levels as int, k) == Some(
                        (#[trigger] ds@[k])@,
                    ),
                forall|k: int|
                    0 <= k < l ==> response_at(bytes@, levels as int, k) == Some(
                        (#[trigger] zwvs@[k])@,
                    ),
            decreases levels - l,
        {
            let iba = announcement_parse(bytes, l);
            let at: usize = 1 + 24 * levels + 16 * l;
            let d = Ciphertext::from_bytes(vstd::slice::slice_subrange(bytes, at, at + 16));
            let zwv = response_parse(bytes, levels, l);
            match (iba, d, zwv) {
                (Some(iba), Some(d), Some(zwv)) => {
                    ibas.push(iba);
                    ds.push(d);
                    zwvs.push(zwv);
                },
                _ => {
                    proof {
                        assert(!levels_read(bytes@, levels as int)) by {
                            if levels_read(bytes@, levels as int) {
                                assert(announcement_at(bytes@, l as int) is Some);
                            }
                        }
                    }
                    return None;
                },
            }
            l = l + 1;
        }
        let r = match Scalar::from_bytes(
            vstd::slice::slice_subrange(bytes, 1 + 64 * levels, 9 + 64 * levels),
        ) {
            Some(r) => r,
            None => {
                return None;
            },
        };
        let proof = Proof { ibas, ds, zwvs, r };
        proof {
            assert(levels_read(bytes@, levels as int)) by {
                assert forall|k: int| 0 <= k < levels implies (#[trigger] announcement_at(
                    bytes@,
                    k,
                )) is Some && second_message_at(bytes@, levels as int, k) is Some && response_at(
                    bytes@,
                    levels as int,
                    k,
                ) is Some by {
                    assert(announcement_at(bytes@, k) == Some(ibas@[k]@));
                    assert(second_message_at(bytes@, levels as int, k) == Some(ds@[k]@));
                    assert(response_at(bytes@, levels as int, k) == Some(zwvs@[k]@));
                }
            }
            let want = proof_from_bytes(bytes@).unwrap();
            assert(proof@.ibas =~= want.ibas);
            assert(proof@.ds =~= want.ds);
            assert(proof@.zwvs =~= want.zwvs);
        }
        Some(proof)
    }
}

} // verus!
