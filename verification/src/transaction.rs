//! Transactions: value moved between accounts, with a certificate and the
//! signatures that authorize both.

use crate::certificate::payload::{certificate_bytes, Certificate, CertificateView};
use crate::certificate::pool::{PoolSignature};
use crate::certificate::vote_plan::date_word;
use crate::certificate::vote_tally::{EncryptedVoteTallyProof, TallyProof, VotePlanProof};
use crate::codec::{be_bytes, push_be_bytes};
use crate::date::BlockDate;
use crate::hash::{blake2b_256, Digest};
use crate::key::{ed25519_signature, keypair_of, EitherEd25519SecretKey, Signature};
use crate::stake::UnspecifiedAccountIdentifier;
use crate::value::Value;
use vstd::prelude::*;

verus! {

/// Value taken from an account.
#[derive(Clone, Copy, Debug, PartialEq, Eq, Structural)]
pub struct Input {
    pub account: UnspecifiedAccountIdentifier,
    pub value: Value,
}

/// Value given to an account.
#[derive(Clone, Copy, Debug, PartialEq, Eq, Structural)]
pub struct OutputAddress {
    pub address: UnspecifiedAccountIdentifier,
    pub value: Value,
}

/// The signature of the account that an input takes from.
#[derive(Clone, Copy, Debug, PartialEq, Eq, Structural)]
pub struct Witness {
    pub signature: Signature,
}

/// What authorizes the certificate of a transaction.
#[derive(Debug)]
pub enum PayloadAuth {
    /// The certificate needs no signature of its own.
    NoAuth,
    /// The signature of one account.
    Single(Signature),
    /// The signature of the operator or of owners of a pool.
    Pool(PoolSignature),
    /// The signature of a committee member under a vote plan.
    VotePlan(VotePlanProof),
    /// The signature of a committee member under a tally.
    Tally(TallyProof),
    /// The signature of a committee member under the start of an encrypted
    /// tally.
    EncryptedTally(EncryptedVoteTallyProof),
}

/// Encoding of the inputs, one after the other.
pub open spec fn inputs_bytes(inputs: Seq<Input>) -> Seq<u8>
    decreases inputs.len(),
{
    if inputs.len() == 0 {
        Seq::empty()
    } else {
        inputs_bytes(inputs.drop_last()) + inputs.last().account@ + be_bytes(inputs.last().value.0)
    }
}

/// Encoding of the outputs, one after the other.
pub open spec fn outputs_bytes(outputs: Seq<OutputAddress>) -> Seq<u8>
    decreases outputs.len(),
{
    if outputs.len() == 0 {
        Seq::empty()
    } else {
        outputs_bytes(outputs.drop_last()) + outputs.last().address@ + be_bytes(
            outputs.last().value.0,
        )
    }
}

/// Encoding of the witnesses, one after the other.
pub open spec fn witnesses_bytes(witnesses: Seq<Witness>) -> Seq<u8>
    decreases witnesses.len(),
{
    if witnesses.len() == 0 {
        Seq::empty()
    } else {
        witnesses_bytes(witnesses.drop_last()) + witnesses.last().signature@
    }
}

/// What the witnesses of a transaction sign: the certificate, the date up to
/// which the transaction is valid, the inputs and the outputs.
pub open spec fn sign_data(
    payload: CertificateView,
    valid_until: BlockDate,
    inputs: Seq<Input>,
    outputs: Seq<OutputAddress>,
) -> Seq<u8> {
    certificate_bytes(payload) + be_bytes(date_word(valid_until)) + be_bytes(inputs.len() as u64)
        + inputs_bytes(inputs) + be_bytes(outputs.len() as u64) + outputs_bytes(outputs)
}

/// What the signature that authorizes the certificate covers: what the
/// witnesses sign, and the witnesses.
pub open spec fn binding_auth_data(
    payload: CertificateView,
    valid_until: BlockDate,
    inputs: Seq<Input>,
    outputs: Seq<OutputAddress>,
    witnesses: Seq<Witness>,
) -> Seq<u8> {
    sign_data(payload, valid_until, inputs, outputs) + witnesses_bytes(witnesses)
}

/// The message that the witness of an account signs: the identifier of the
/// first block, the digest of what is signed, and how often the account has
/// spent.
pub open spec fn witness_message(block0: Digest, sign_data_hash: Seq<u8>, counter: u32) -> Seq<u8> {
    block0@ + sign_data_hash + be_bytes(counter as u64)
}

/// A transaction.
#[derive(Debug)]
pub struct Transaction {
    pub payload: Certificate,
    pub valid_until: BlockDate,
    pub inputs: Vec<Input>,
    pub outputs: Vec<OutputAddress>,
    pub witnesses: Vec<Witness>,
    pub auth: PayloadAuth,
}

/// Start of the construction of a transaction.
pub struct TxBuilder;

/// A transaction under construction that waits for its date of expiry.
#[derive(Debug)]
pub struct TxBuilderSetTtl {
    pub payload: Certificate,
}

/// A transaction under construction that waits for its inputs and outputs.
#[derive(Debug)]
pub struct TxBuilderSetIOs {
    pub payload: Certificate,
    pub valid_until: BlockDate,
}

/// A transaction under construction that waits for its witnesses.
#[derive(Debug)]
pub struct TxBuilderSetWitnesses {
    pub payload: Certificate,
    pub valid_until: BlockDate,
    pub inputs: Vec<Input>,
    pub outputs: Vec<OutputAddress>,
}

/// A transaction under construction that waits for the signature that
/// authorizes its certificate.
#[derive(Debug)]
pub struct TxBuilderSetAuthData {
    pub payload: Certificate,
    pub valid_until: BlockDate,
    pub inputs: Vec<Input>,
    pub outputs: Vec<OutputAddress>,
    pub witnesses: Vec<Witness>,
}

fn push_digest(out: &mut Vec<u8>, d: &Digest)
    ensures
        final(out)@ == old(out)@ + d@,
{
    let mut bytes = d.to_bytes();
    out.append(&mut bytes);
}

fn sign_data_exec(
    payload: &Certificate,
    valid_until: BlockDate,
    inputs: &Vec<Input>,
    outputs: &Vec<OutputAddress>,
) -> (out: Vec<u8>)
    ensures
        out@ == sign_data(payload@, valid_until, inputs@, outputs@),
{
    let mut out = payload.serialize();
    let word: u64 = (valid_until.epoch as u64) * 0x1_0000_0000 + (valid_until.slot_id as u64);
    push_be_bytes(&mut out, word);
    push_be_bytes(&mut out, inputs.len() as u64);
    let ghost head = out@;
    let mut i: usize = 0;
    proof {
        assert(out@ =~= head + inputs_bytes(inputs@.subrange(0, 0)));
    }
    while i < inputs.len()
        invariant
            i <= inputs.len(),
            out@ == head + inputs_bytes(inputs@.subrange(0, i as int)),
        decreases inputs.len() - i,
    {
        push_digest(&mut out, &inputs[i].account.0);
        push_be_bytes(&mut out, inputs[i].value.0);
        proof {
            let next = inputs@.subrange(0, i + 1);
            assert(next.drop_last() =~= inputs@.subrange(0, i as int));
            assert(out@ =~= head + inputs_bytes(next));
        }
        i = i + 1;
    }
    proof {
        assert(inputs@.subrange(0, inputs@.len() as int) =~= inputs@);
    }
    push_be_bytes(&mut out, outputs.len() as u64);
    let ghost head2 = out@;
    let mut j: usize = 0;
    proof {
        assert(out@ =~= head2 + outputs_bytes(outputs@.subrange(0, 0)));
    }
    while j < outputs.len()
        invariant
            j <= outputs.len(),
            out@ == head2 + outputs_bytes(outputs@.subrange(0, j as int)),
        decreases outputs.len() - j,
    {
        push_digest(&mut out, &outputs[j].address.0);
        push_be_bytes(&mut out, outputs[j].value.0);
        proof {
            let next = outputs@.subrange(0, j + 1);
            assert(next.drop_last() =~= outputs@.subrange(0, j as int));
            assert(out@ =~= head2 + outputs_bytes(next));
        }
        j = j + 1;
    }
    proof {
        assert(outputs@.subrange(0, outputs@.len() as int) =~= outputs@);
        assert(out@ =~= sign_data(payload@, valid_until, inputs@, outputs@));
    }
    out
}

fn binding_auth_data_exec(
    payload: &Certificate,
    valid_until: BlockDate,
    inputs: &Vec<Input>,
    outputs: &Vec<OutputAddress>,
    witnesses: &Vec<Witness>,
) -> (out: Vec<u8>)
    ensures
        out@ == binding_auth_data(payload@, valid_until, inputs@, outputs@, witnesses@),
{
    let mut out = sign_data_exec(payload, valid_until, inputs, outputs);
    let ghost head = out@;
    let mut i: usize = 0;
    proof {
        assert(out@ =~= head + witnesses_bytes(witnesses@.subrange(0, 0)));
    }
    while i < witnesses.len()
        invariant
            i <= witnesses.len(),
            out@ == head + witnesses_bytes(witnesses@.subrange(0, i as int)),
        decreases witnesses.len() - i,
    {
        let mut sig = witnesses[i].signature.to_bytes();
        out.append(&mut sig);
        proof {
            let next = witnesses@.subrange(0, i + 1);
            assert(next.drop_last() =~= witnesses@.subrange(0, i as int));
            assert(out@ =~= head + witnesses_bytes(next));
        }
        i = i + 1;
    }
    proof {
        assert(witnesses@.subrange(0, witnesses@.len() as int) =~= witnesses@);
    }
    out
}

impl TxBuilder {
    /// Starts the construction of a transaction.
    pub fn new() -> (r: TxBuilder) {
        TxBuilder
    }

    /// Sets the certificate.
    pub fn set_payload(self, payload: &Certificate) -> (r: TxBuilderSetTtl)
        ensures
            r.payload@ == payload@,
    {
        TxBuilderSetTtl { payload: payload.duplicate() }
    }
}

impl TxBuilderSetTtl {
    /// Sets the date up to which the transaction is valid.
    pub fn set_expiry_date(self, valid_until: BlockDate) -> (r: TxBuilderSetIOs)
        ensures
            r.payload@ == self.payload@,
            r.valid_until == valid_until,
    {
        TxBuilderSetIOs { payload: self.payload, valid_until }
    }
}

impl TxBuilderSetIOs {
    /// Sets the inputs and the outputs.
    pub fn set_ios(self, inputs: &[Input], outputs: &[OutputAddress]) -> (r: TxBuilderSetWitnesses)
        ensures
            r.payload@ == self.payload@,
            r.valid_until == self.valid_until,
            r.inputs@ == inputs@,
            r.outputs@ == outputs@,
    {
        TxBuilderSetWitnesses {
            payload: self.payload,
            valid_until: self.valid_until,
            inputs: copy_slice(inputs),
            outputs: copy_slice(outputs),
        }
    }
}

/// A copy of a slice of plain values.
pub fn copy_slice<T: Copy>(v: &[T]) -> (r: Vec<T>)
    ensures
        r@ == v@,
{
    let mut out: Vec<T> = Vec::new();
    let mut i: usize = 0;
    while i < v.len()
        invariant
            i <= v.len(),
            out@ == v@.subrange(0, i as int),
        decreases v.len() - i,
    {
        out.push(v[i]);
        proof {
            assert(v@.subrange(0, i + 1) =~= v@.subrange(0, i as int).push(v@[i as int]));
        }
        i = i + 1;
    }
    proof {
        assert(v@.subrange(0, v.len() as int) =~= v@);
    }
    out
}

impl TxBuilderSetWitnesses {
    /// The digest of what the witnesses sign.
    pub fn get_auth_data_for_witness_hash(&self) -> (r: Digest)
        ensures
            r@ == blake2b_256(
                sign_data(self.payload@, self.valid_until, self.inputs@, self.outputs@),
            ),
    {
        let data = sign_data_exec(&self.payload, self.valid_until, &self.inputs, &self.outputs);
        Digest::digest_byteslice(data.as_slice())
    }

    /// Sets the witnesses, without checking them.
    pub fn set_witnesses_unchecked(self, witnesses: &[Witness]) -> (r: TxBuilderSetAuthData)
        ensures
            r.payload@ == self.payload@,
            r.valid_until == self.valid_until,
            r.inputs@ == self.inputs@,
            r.outputs@ == self.outputs@,
            r.witnesses@ == witnesses@,
    {
        TxBuilderSetAuthData {
            payload: self.payload,
            valid_until: self.valid_until,
            inputs: self.inputs,
            outputs: self.outputs,
            witnesses: copy_slice(witnesses),
        }
    }
}

impl TxBuilderSetAuthData {
    /// What the signature that authorizes the certificate covers.
    pub open spec fn auth_data(&self) -> Seq<u8> {
        binding_auth_data(
            self.payload@,
            self.valid_until,
            self.inputs@,
            self.outputs@,
            self.witnesses@,
        )
    }

    /// What the signature that authorizes the certificate covers.
    pub fn get_auth_data(&self) -> (r: Vec<u8>)
        ensures
            r@ == self.auth_data(),
    {
        binding_auth_data_exec(
            &self.payload,
            self.valid_until,
            &self.inputs,
            &self.outputs,
            &self.witnesses,
        )
    }

    /// Sets what authorizes the certificate: the transaction is complete.
    pub fn set_payload_auth(self, auth: PayloadAuth) -> (r: Transaction)
        ensures
            r.payload@ == self.payload@,
            r.valid_until == self.valid_until,
            r.inputs@ == self.inputs@,
            r.outputs@ == self.outputs@,
            r.witnesses@ == self.witnesses@,
            r.auth == auth,
    {
        Transaction {
            payload: self.payload,
            valid_until: self.valid_until,
            inputs: self.inputs,
            outputs: self.outputs,
            witnesses: self.witnesses,
            auth,
        }
    }
}

impl Transaction {
    /// What the signature that authorizes the certificate covers.
    pub open spec fn auth_data(&self) -> Seq<u8> {
        binding_auth_data(
            self.payload@,
            self.valid_until,
            self.inputs@,
            self.outputs@,
            self.witnesses@,
        )
    }

    /// What the signature that authorizes the certificate covers.
    pub fn transaction_binding_auth_data(&self) -> (r: Vec<u8>)
        ensures
            r@ == self.auth_data(),
    {
        binding_auth_data_exec(
            &self.payload,
            self.valid_until,
            &self.inputs,
            &self.outputs,
            &self.witnesses,
        )
    }

    /// The digest of what the witnesses sign.
    pub fn sign_data_hash(&self) -> (r: Digest)
        ensures
            r@ == blake2b_256(
                sign_data(self.payload@, self.valid_until, self.inputs@, self.outputs@),
            ),
    {
        let data = sign_data_exec(&self.payload, self.valid_until, &self.inputs, &self.outputs);
        Digest::digest_byteslice(data.as_slice())
    }
}

/// The witness of an account for a transaction: the signature of the
/// witness message under the account's key.
pub fn make_witness(
    block0_hash: &Digest,
    secret_key: &EitherEd25519SecretKey,
    spending_counter: u32,
    sign_data_hash: &Digest,
) -> (r: Witness)
    ensures
        r.signature@ == ed25519_signature(
            witness_message(*block0_hash, sign_data_hash@, spending_counter),
            keypair_of(secret_key.seed_bytes()),
        ),
{
    let mut message = block0_hash.to_bytes();
    push_digest(&mut message, sign_data_hash);
    push_be_bytes(&mut message, spending_counter as u64);
    Witness { signature: secret_key.sign_slice(message.as_slice()) }
}

} // verus!
