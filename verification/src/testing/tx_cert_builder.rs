//! Builds the fragment that carries a certificate: the transaction with its
//! inputs, outputs and witness, and the signature that authorizes the
//! certificate.

use crate::certificate::payload::{kind_of, Certificate, CertificateKind, CertificateView};
use crate::certificate::pool::{OwnerSignature, PoolOwnersSigned, PoolSignature};
use crate::certificate::vote_tally::{
    EncryptedVoteTallyProof, TallyProof, VotePlanProof, VoteTally,
};
use crate::date::BlockDate;
use crate::fee::{linear_fee, LinearFee};
use crate::fragment::Fragment;
use crate::hash::{blake2b_256, Digest};
use crate::key::{ed25519_signature, keypair_of, EitherEd25519SecretKey};
use crate::testing::data::Wallet;
use crate::transaction::{
    make_witness, sign_data, witness_message, Input, OutputAddress, PayloadAuth, TxBuilder,
    TxBuilderSetAuthData, TxBuilderSetTtl, Witness,
};
use crate::value::Value;
use crate::vote::committee::CommitteeId;
use crate::vote::payload::PayloadType;
use vstd::prelude::*;

verus! {

/// Identifier of the first block of a chain.
pub type HeaderId = Digest;

/// The signature of `data` under the key `key`.
pub open spec fn signed(data: Seq<u8>, key: EitherEd25519SecretKey) -> Seq<u8> {
    ed25519_signature(data, keypair_of(key.seed_bytes()))
}

/// Whether the signatures are those of the keys under `data`, each with the
/// index of its key.
pub open spec fn owners_signed(
    keys: Seq<EitherEd25519SecretKey>,
    data: Seq<u8>,
    signatures: Seq<OwnerSignature>,
) -> bool {
    &&& signatures.len() == keys.len()
    &&& forall|i: int|
        0 <= i < signatures.len() ==> (#[trigger] signatures[i]).index == (i % 256) as u8
            && signatures[i].signature@ == signed(data, keys[i])
}

/// Whether the first key is needed to authorize a certificate of the kind.
pub open spec fn needs_first_key(kind: CertificateKind) -> bool {
    kind == CertificateKind::StakeDelegation || kind == CertificateKind::VotePlan || kind
        == CertificateKind::VoteTally || kind == CertificateKind::EncryptedVoteTally
}

/// How a tally certificate is cast.
pub open spec fn tally_type_of(c: CertificateView) -> PayloadType {
    match c {
        CertificateView::VoteTally { decrypted: Some(_), .. } => PayloadType::Private,
        _ => PayloadType::Public,
    }
}

/// Whether `proof` is that of the key under `data`, of the given type.
pub open spec fn tally_signed(
    key: EitherEd25519SecretKey,
    data: Seq<u8>,
    tally_type: PayloadType,
    proof: TallyProof,
) -> bool {
    match (tally_type, proof) {
        (PayloadType::Public, TallyProof::Public { id, signature }) => id@ == key.public_bytes()
            && signature@ == signed(data, key),
        (PayloadType::Private, TallyProof::Private { id, signature }) => id@ == key.public_bytes()
            && signature@ == signed(data, key),
        _ => false,
    }
}

/// Whether `auth` authorizes a certificate with the keys: a delegation of
/// stake is signed by the first key; a certificate of a pool by all keys as
/// owners; a plan, a tally or the start of an encrypted tally by the first
/// key as committee member; the others need no signature.
pub open spec fn authorized(
    c: CertificateView,
    keys: Seq<EitherEd25519SecretKey>,
    data: Seq<u8>,
    auth: PayloadAuth,
) -> bool {
    match kind_of(c) {
        CertificateKind::StakeDelegation => auth matches PayloadAuth::Single(s) && s@ == signed(
            data,
            keys[0],
        ),
        CertificateKind::PoolRegistration | CertificateKind::PoolRetirement
        | CertificateKind::PoolUpdate => auth matches PayloadAuth::Pool(PoolSignature::Owners(o))
            && owners_signed(keys, data, o.signatures@),
        CertificateKind::OwnerStakeDelegation | CertificateKind::VoteCast => auth
            matches PayloadAuth::NoAuth,
        CertificateKind::VotePlan => auth matches PayloadAuth::VotePlan(p) && p.id@
            == keys[0].public_bytes() && p.signature@ == signed(data, keys[0]),
        CertificateKind::VoteTally => auth matches PayloadAuth::Tally(t) && tally_signed(
            keys[0],
            data,
            tally_type_of(c),
            t,
        ),
        CertificateKind::EncryptedVoteTally => auth matches PayloadAuth::EncryptedTally(p) && p.id@
            == keys[0].public_bytes() && p.signature@ == signed(data, keys[0]),
    }
}

/// Whether the witnesses are those asked for: the witness of the funder, or
/// none.
pub open spec fn witnesses_made(
    block0: Digest,
    c: CertificateView,
    valid_until: BlockDate,
    inputs: Seq<Input>,
    outputs: Seq<OutputAddress>,
    should_make_witness: bool,
    funder: Wallet,
    witnesses: Seq<Witness>,
) -> bool {
    if should_make_witness {
        witnesses.len() == 1 && witnesses[0].signature@ == signed(
            witness_message(
                block0,
                blake2b_256(sign_data(c, valid_until, inputs, outputs)),
                funder.spending_counter(),
            ),
            funder.key(),
        )
    } else {
        witnesses.len() == 0
    }
}

/// Builds fragments with certificates.
pub struct TestTxCertBuilder {
    block0_hash: HeaderId,
    fee: LinearFee,
}

impl TestTxCertBuilder {
    /// The builder for a chain with the given first block and fee.
    pub fn new(block0_hash: HeaderId, fee: LinearFee) -> (r: TestTxCertBuilder)
        ensures
            r.block0() == block0_hash,
            r.linear_fee() == fee,
    {
        TestTxCertBuilder { block0_hash, fee }
    }

    /// The identifier of the first block.
    pub closed spec fn block0(&self) -> HeaderId {
        self.block0_hash
    }

    /// The fee of the chain.
    pub closed spec fn linear_fee(&self) -> LinearFee {
        self.fee
    }

    /// The identifier of the first block.
    pub fn block0_hash(&self) -> (r: &HeaderId)
        ensures
            *r == self.block0(),
    {
        &self.block0_hash
    }

    /// The fee of a transaction with the certificate, one input and no
    /// output.
    pub fn fee(&self, certificate: &Certificate) -> (r: Value)
        ensures
            r.0 == linear_fee(self.linear_fee(), true, 1, 0),
    {
        self.fee.calculate(true, 1, 0)
    }

    fn set_initial_ios(
        &self,
        valid_until: BlockDate,
        builder: TxBuilderSetTtl,
        funder: &Wallet,
        inputs: &[Input],
        outputs: &[OutputAddress],
        should_make_witness: bool,
    ) -> (r: TxBuilderSetAuthData)
        ensures
            r.payload@ == builder.payload@,
            r.valid_until == valid_until,
            r.inputs@ == inputs@,
            r.outputs@ == outputs@,
            witnesses_made(
                self.block0(),
                builder.payload@,
                valid_until,
                inputs@,
                outputs@,
                should_make_witness,
                *funder,
                r.witnesses@,
            ),
    {
        let builder = builder.set_expiry_date(valid_until).set_ios(inputs, outputs);
        let mut witnesses: Vec<Witness> = Vec::new();
        if should_make_witness {
            let account = funder.as_account_data();
            let witness = make_witness(
                self.block0_hash(),
                &account.secret_key,
                account.spending_counter,
                &builder.get_auth_data_for_witness_hash(),
            );
            witnesses.push(witness);
        }
        builder.set_witnesses_unchecked(witnesses.as_slice())
    }

    /// The fragment that carries the certificate, valid up to `valid_until`,
    /// with the given inputs and outputs, the witness of the funder if asked
    /// for, and the certificate authorized with the keys.
    pub fn fragment(
        &self,
        valid_until: BlockDate,
        cert: &Certificate,
        keys: Vec<EitherEd25519SecretKey>,
        inputs: &[Input],
        outputs: &[OutputAddress],
        make_witness: bool,
        funder: &Wallet,
    ) -> (r: Fragment)
        requires
            needs_first_key(kind_of(cert@)) ==> keys@.len() > 0,
        ensures
            r.kind_spec() == kind_of(cert@),
            r.tx().payload@ == cert@,
            r.tx().valid_until == valid_until,
            r.tx().inputs@ == inputs@,
            r.tx().outputs@ == outputs@,
            witnesses_made(
                self.block0(),
                cert@,
                valid_until,
                inputs@,
                outputs@,
                make_witness,
                *funder,
                r.tx().witnesses@,
            ),
            authorized(cert@, keys@, r.tx().auth_data(), r.tx().auth),
    {
        let builder = self.set_initial_ios(
            valid_until,
            TxBuilder::new().set_payload(cert),
            funder,
            inputs,
            outputs,
            make_witness,
        );
        match cert {
            Certificate::StakeDelegation(_) => {
                let data = builder.get_auth_data();
                let signature = keys[0].sign_slice(data.as_slice());
                let tx = builder.set_payload_auth(PayloadAuth::Single(signature));
                Fragment::StakeDelegation(tx)
            },
            Certificate::PoolRegistration(_) => {
                let signature = pool_owner_sign(keys.as_slice(), &builder);
                let tx = builder.set_payload_auth(PayloadAuth::Pool(signature));
                Fragment::PoolRegistration(tx)
            },
            Certificate::PoolRetirement(_) => {
                let signature = pool_owner_sign(keys.as_slice(), &builder);
                let tx = builder.set_payload_auth(PayloadAuth::Pool(signature));
                Fragment::PoolRetirement(tx)
            },
            Certificate::PoolUpdate(_) => {
                let signature = pool_owner_sign(keys.as_slice(), &builder);
                let tx = builder.set_payload_auth(PayloadAuth::Pool(signature));
                Fragment::PoolUpdate(tx)
            },
            Certificate::OwnerStakeDelegation(_) => {
                let tx = builder.set_payload_auth(PayloadAuth::NoAuth);
                Fragment::OwnerStakeDelegation(tx)
            },
            Certificate::VotePlan(_) => {
                let committee_signature = plan_sign(keys.as_slice(), &builder);
                let tx = builder.set_payload_auth(PayloadAuth::VotePlan(committee_signature));
                Fragment::VotePlan(tx)
            },
            Certificate::VoteCast(_) => {
                let tx = builder.set_payload_auth(PayloadAuth::NoAuth);
                Fragment::VoteCast(tx)
            },
            Certificate::VoteTally(vt) => {
                proof {
                    vt.lemma_tally_type();
                }
                let committee_signature = tally_sign(keys.as_slice(), vt, &builder);
                let tx = builder.set_payload_auth(PayloadAuth::Tally(committee_signature));
                Fragment::VoteTally(tx)
            },
            Certificate::EncryptedVoteTally(_) => {
                let committee_signature = encrypted_tally_sign(keys.as_slice(), &builder);
                let tx = builder.set_payload_auth(
                    PayloadAuth::EncryptedTally(committee_signature),
                );
                Fragment::EncryptedVoteTally(tx)
            },
        }
    }

    /// The fragment that carries the certificate, paid by the first signer
    /// and authorized by all signers.
    pub fn make_transaction(
        self,
        valid_until: BlockDate,
        signers: &[Wallet],
        certificate: &Certificate,
    ) -> (r: Fragment)
        requires
            signers@.len() > 0,
        ensures
            made_transaction(self, valid_until, signers@[0], signers@, certificate@, r),
    {
        let funder = signers[0];
        self.make_transaction_different_signers(valid_until, &funder, signers, certificate)
    }

    /// The fragment that carries the certificate, paid by the funder and
    /// authorized by the signers.
    pub fn make_transaction_different_signers(
        self,
        valid_until: BlockDate,
        funder: &Wallet,
        signers: &[Wallet],
        certificate: &Certificate,
    ) -> (r: Fragment)
        requires
            needs_first_key(kind_of(certificate@)) ==> signers@.len() > 0,
        ensures
            made_transaction(self, valid_until, *funder, signers@, certificate@, r),
    {
        let mut keys: Vec<EitherEd25519SecretKey> = Vec::new();
        let mut i: usize = 0;
        while i < signers.len()
            invariant
                i <= signers.len(),
                keys@.len() == i,
                forall|k: int| 0 <= k < i ==> keys@[k] == signers@[k].key(),
            decreases signers.len() - i,
        {
            keys.push(signers[i].private_key());
            i = i + 1;
        }
        proof {
            assert(keys@ =~= wallet_keys(signers@));
        }
        let input = funder.make_input_with_value(self.fee(certificate));
        let mut inputs: Vec<Input> = Vec::new();
        inputs.push(input);
        let outputs: Vec<OutputAddress> = Vec::new();
        let r = self.fragment(
            valid_until,
            certificate,
            keys,
            inputs.as_slice(),
            outputs.as_slice(),
            true,
            funder,
        );
        proof {
            assert(r.tx().outputs@ =~= Seq::<OutputAddress>::empty());
        }
        r
    }
}

/// The signing keys of the wallets.
pub open spec fn wallet_keys(wallets: Seq<Wallet>) -> Seq<EitherEd25519SecretKey> {
    Seq::new(wallets.len(), |i: int| wallets[i].key())
}

/// Whether `r` is the fragment that the builder makes for the certificate:
/// one input that takes the fee from the funder, no output, the witness of
/// the funder, and the certificate authorized by the signers.
pub open spec fn made_transaction(
    builder: TestTxCertBuilder,
    valid_until: BlockDate,
    funder: Wallet,
    signers: Seq<Wallet>,
    c: CertificateView,
    r: Fragment,
) -> bool {
    &&& r.kind_spec() == kind_of(c)
    &&& r.tx().payload@ == c
    &&& r.tx().valid_until == valid_until
    &&& r.tx().inputs@.len() == 1
    &&& r.tx().inputs@[0].account@ == funder.key().public_bytes()
    &&& r.tx().inputs@[0].value.0 == linear_fee(builder.linear_fee(), true, 1, 0)
    &&& r.tx().outputs@.len() == 0
    &&& witnesses_made(
        builder.block0(),
        c,
        valid_until,
        r.tx().inputs@,
        r.tx().outputs@,
        true,
        funder,
        r.tx().witnesses@,
    )
    &&& authorized(c, wallet_keys(signers), r.tx().auth_data(), r.tx().auth)
}

/// The proof of a tally: the first key signs what authorizes the
/// certificate, as a committee member.
pub fn tally_sign(keys: &[EitherEd25519SecretKey], vt: &VoteTally, builder: &TxBuilderSetAuthData) -> (r:
    TallyProof)
    requires
        keys@.len() > 0,
    ensures
        tally_signed(keys@[0], builder.auth_data(), vt.tally_type_spec(), r),
{
    let payload_type = vt.tally_type();
    let key = keys[0];
    let id = CommitteeId::from_public_key(key.to_public());
    let auth_data = builder.get_auth_data();
    let signature = key.sign_slice(auth_data.as_slice());
    match payload_type {
        PayloadType::Public => TallyProof::Public { id, signature },
        PayloadType::Private => TallyProof::Private { id, signature },
    }
}

/// The proof of the start of an encrypted tally: the first key signs what
/// authorizes the certificate, as a committee member.
pub fn encrypted_tally_sign(keys: &[EitherEd25519SecretKey], builder: &TxBuilderSetAuthData) -> (r:
    EncryptedVoteTallyProof)
    requires
        keys@.len() > 0,
    ensures
        r.id@ == keys@[0].public_bytes(),
        r.signature@ == signed(builder.auth_data(), keys@[0]),
{
    let key = keys[0];
    let id = CommitteeId::from_public_key(key.to_public());
    let auth_data = builder.get_auth_data();
    let signature = key.sign_slice(auth_data.as_slice());
    EncryptedVoteTallyProof { id, signature }
}

/// The proof of a vote plan: the first key signs what authorizes the
/// certificate, as a committee member.
pub fn plan_sign(keys: &[EitherEd25519SecretKey], builder: &TxBuilderSetAuthData) -> (r:
    VotePlanProof)
    requires
        keys@.len() > 0,
    ensures
        r.id@ == keys@[0].public_bytes(),
        r.signature@ == signed(builder.auth_data(), keys@[0]),
{
    let key = keys[0];
    let id = CommitteeId::from_public_key(key.to_public());
    let auth_data = builder.get_auth_data();
    let signature = key.sign_slice(auth_data.as_slice());
    VotePlanProof { id, signature }
}

/// The signature of a pool certificate by owners: every key signs.
pub fn pool_owner_sign(keys: &[EitherEd25519SecretKey], builder: &TxBuilderSetAuthData) -> (r:
    PoolSignature)
    ensures
        r matches PoolSignature::Owners(o) && owners_signed(
            keys@,
            builder.auth_data(),
            o.signatures@,
        ),
{
    let pool_owner = pool_owner_signed(keys, builder);
    PoolSignature::Owners(pool_owner)
}

/// The signatures of the owners of a pool: every key signs what authorizes
/// the certificate, and its signature stands with the index of the key.
pub fn pool_owner_signed(keys: &[EitherEd25519SecretKey], builder: &TxBuilderSetAuthData) -> (r:
    PoolOwnersSigned)
    ensures
        owners_signed(keys@, builder.auth_data(), r.signatures@),
{
    let auth_data = builder.get_auth_data();
    let mut sigs: Vec<OwnerSignature> = Vec::new();
    let mut i: usize = 0;
    while i < keys.len()
        invariant
            i <= keys.len(),
            auth_data@ == builder.auth_data(),
            sigs@.len() == i,
            forall|k: int|
                0 <= k < i ==> (#[trigger] sigs@[k]).index == (k % 256) as u8 && sigs@[k].signature@
                    == signed(auth_data@, keys@[k]),
        decreases keys.len() - i,
    {
        let sig = keys[i].sign_slice(auth_data.as_slice());
        sigs.push(OwnerSignature { index: (i % 256) as u8, signature: sig });
        i = i + 1;
    }
    PoolOwnersSigned { signatures: sigs }
}

/// Builds fragments of every kind for one certificate, also those that a
/// ledger has to refuse.
pub struct FaultTolerantTxCertBuilder {
    builder: TestTxCertBuilder,
    valid_until: BlockDate,
    cert: Certificate,
    funder: Wallet,
}

/// Whether `r` is the fragment for the certificate with the given inputs
/// and outputs, without a witness, authorized by the funder.
pub open spec fn faulty_transaction(
    b: FaultTolerantTxCertBuilder,
    inputs: Seq<Input>,
    outputs: Seq<OutputAddress>,
    r: Fragment,
) -> bool {
    &&& r.kind_spec() == kind_of(b.certificate())
    &&& r.tx().payload@ == b.certificate()
    &&& r.tx().valid_until == b.expiry()
    &&& r.tx().inputs@ == inputs
    &&& r.tx().outputs@ == outputs
    &&& r.tx().witnesses@.len() == 0
    &&& authorized(b.certificate(), seq![b.payer().key()], r.tx().auth_data(), r.tx().auth)
}

impl FaultTolerantTxCertBuilder {
    /// The builder for the certificate, paid by the funder.
    pub fn new(
        block0_hash: HeaderId,
        fee: LinearFee,
        cert: Certificate,
        valid_until: BlockDate,
        funder: Wallet,
    ) -> (r: FaultTolerantTxCertBuilder)
        ensures
            r.certificate() == cert@,
            r.expiry() == valid_until,
            r.payer() == funder,
            r.fee_spec() == linear_fee(fee, true, 1, 0),
    {
        FaultTolerantTxCertBuilder {
            builder: TestTxCertBuilder::new(block0_hash, fee),
            cert,
            funder,
            valid_until,
        }
    }

    /// The certificate.
    pub closed spec fn certificate(&self) -> CertificateView {
        self.cert@
    }

    /// The date up to which the transactions are valid.
    pub closed spec fn expiry(&self) -> BlockDate {
        self.valid_until
    }

    /// The wallet that pays.
    pub closed spec fn payer(&self) -> Wallet {
        self.funder
    }

    /// The fee of a transaction with the certificate.
    pub closed spec fn fee_spec(&self) -> u64 {
        linear_fee(self.builder.linear_fee(), true, 1, 0)
    }

    fn build(&self, inputs: Vec<Input>, outputs: Vec<OutputAddress>) -> (r: Fragment)
        ensures
            faulty_transaction(*self, inputs@, outputs@, r),
    {
        let mut keys: Vec<EitherEd25519SecretKey> = Vec::new();
        keys.push(self.funder.private_key());
        proof {
            assert(keys@ =~= seq![self.funder.key()]);
        }
        self.builder.fragment(
            self.valid_until,
            &self.cert,
            keys,
            inputs.as_slice(),
            outputs.as_slice(),
            false,
            &self.funder,
        )
    }

    /// The fee is taken from the funder, and no witness is given.
    pub fn transaction_no_witness(&self) -> (r: Fragment)
        ensures
            r.tx().inputs@.len() == 1 && r.tx().inputs@[0].value.0 == self.fee_spec()
                && r.tx().inputs@[0].account@ == self.payer().key().public_bytes(),
            faulty_transaction(*self, r.tx().inputs@, Seq::empty(), r),
    {
        let input = self.funder.make_input_with_value(self.builder.fee(&self.cert));
        let mut inputs: Vec<Input> = Vec::new();
        inputs.push(input);
        let r = self.build(inputs, Vec::new());
        proof {
            assert(r.tx().outputs@ =~= Seq::<OutputAddress>::empty());
        }
        r
    }

    /// One unit is taken from the funder and two are given back: the input
    /// is too low.
    pub fn transaction_input_to_low(&self) -> (r: Fragment)
        ensures
            r.tx().inputs@.len() == 1 && r.tx().inputs@[0].value.0 == 1
                && r.tx().inputs@[0].account@ == self.payer().key().public_bytes(),
            r.tx().outputs@.len() == 1 && r.tx().outputs@[0].value.0 == 2
                && r.tx().outputs@[0].address@ == self.payer().key().public_bytes(),
            faulty_transaction(*self, r.tx().inputs@, r.tx().outputs@, r),
    {
        let input = self.funder.make_input_with_value(Value(1));
        let output = self.funder.make_output_with_value(Value(2));
        let mut inputs: Vec<Input> = Vec::new();
        inputs.push(input);
        let mut outputs: Vec<OutputAddress> = Vec::new();
        outputs.push(output);
        self.build(inputs, outputs)
    }

    /// The fee and one unit are taken from the funder, and the unit is given
    /// back.
    pub fn transaction_with_input_output(&self) -> (r: Fragment)
        requires
            self.fee_spec() < u64::MAX,
        ensures
            r.tx().inputs@.len() == 1 && r.tx().inputs@[0].value.0 == self.fee_spec() + 1
                && r.tx().inputs@[0].account@ == self.payer().key().public_bytes(),
            r.tx().outputs@.len() == 1 && r.tx().outputs@[0].value.0 == 1
                && r.tx().outputs@[0].address@ == self.payer().key().public_bytes(),
            faulty_transaction(*self, r.tx().inputs@, r.tx().outputs@, r),
    {
        let input_value = Value(self.builder.fee(&self.cert).0 + 1);
        let input = self.funder.make_input_with_value(input_value);
        let output = self.funder.make_output_with_value(Value(1));
        let mut inputs: Vec<Input> = Vec::new();
        inputs.push(input);
        let mut outputs: Vec<OutputAddress> = Vec::new();
        outputs.push(output);
        self.build(inputs, outputs)
    }

    /// Nothing is taken, and the fee is given to the funder.
    pub fn transaction_with_output_only(&self) -> (r: Fragment)
        ensures
            r.tx().inputs@.len() == 0,
            r.tx().outputs@.len() == 1 && r.tx().outputs@[0].value.0 == self.fee_spec()
                && r.tx().outputs@[0].address@ == self.payer().key().public_bytes(),
            faulty_transaction(*self, r.tx().inputs@, r.tx().outputs@, r),
    {
        let output = self.funder.make_output_with_value(self.builder.fee(&self.cert));
        let mut outputs: Vec<OutputAddress> = Vec::new();
        outputs.push(output);
        let r = self.build(Vec::new(), outputs);
        proof {
            assert(r.tx().inputs@ =~= Seq::<Input>::empty());
        }
        r
    }

    /// The fee is taken from the funder, and nothing is given.
    pub fn transaction_with_input_only(&self) -> (r: Fragment)
        ensures
            r.tx().inputs@.len() == 1 && r.tx().inputs@[0].value.0 == self.fee_spec()
                && r.tx().inputs@[0].account@ == self.payer().key().public_bytes(),
            faulty_transaction(*self, r.tx().inputs@, Seq::empty(), r),
    {
        let input = self.funder.make_input_with_value(self.builder.fee(&self.cert));
        let mut inputs: Vec<Input> = Vec::new();
        inputs.push(input);
        let r = self.build(inputs, Vec::new());
        proof {
            assert(r.tx().outputs@ =~= Seq::<OutputAddress>::empty());
        }
        r
    }

    /// The fee is taken from the funder; the witness is left out all the
    /// same.
    pub fn transaction_with_witness(&self) -> (r: Fragment)
        ensures
            r.tx().inputs@.len() == 1 && r.tx().inputs@[0].value.0 == self.fee_spec()
                && r.tx().inputs@[0].account@ == self.payer().key().public_bytes(),
            faulty_transaction(*self, r.tx().inputs@, Seq::empty(), r),
    {
        let input = self.funder.make_input_with_value(self.builder.fee(&self.cert));
        let mut inputs: Vec<Input> = Vec::new();
        inputs.push(input);
        let r = self.build(inputs, Vec::new());
        proof {
            assert(r.tx().outputs@ =~= Seq::<OutputAddress>::empty());
        }
        r
    }
}

} // verus!
