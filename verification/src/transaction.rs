//! Transactions: signed state-mutation requests with gas accounting.
//!
//! A transaction's hash is a pure function of its canonically encoded
//! fields, and its signature covers the digest of the signed fields
//! alone, so mutating any signed field after signing invalidates the
//! signature.

use vstd::prelude::*;

use crate::codec::{
    push_len_prefixed, push_str_enc, push_u32_le, push_u64_le, spec_len_prefixed, spec_str_enc,
    spec_u32_le, spec_u64_le,
};
use crate::crypto::{
    blake3_hash, blake3_of, dilithium_sig_of, dilithium_signs, dilithium_verify, kyber_encapsulate,
    now_seconds, HashDigest, DILITHIUM_PK_LEN, DILITHIUM_SK_LEN, KYBER_PK_LEN,
};
use crate::crypto::dilithium_sign as dilithium_sign_bytes;

verus! {

/// The kind of state mutation a transaction requests.
#[derive(Clone, Copy, PartialEq, Eq, Structural, Debug)]
pub enum OperationType {
    Transfer,
    Stake,
    Unstake,
    BridgeAsset,
    SyncIdentity,
    DeployContract,
    CallContract,
    CreateValidator,
    RemoveValidator,
    UpdateConsensus,
}

/// The operation payload of a transaction.
pub struct TransactionData {
    pub operation_type: OperationType,
    pub parameters: Vec<(String, String)>,
    pub payload: Vec<u8>,
}

/// The optional post-quantum proof attached to a transaction: a Kyber
/// ciphertext and a second Dilithium signature over the signed fields.
pub struct QuantumProof {
    pub kyber_ciphertext: Vec<u8>,
    pub dilithium_signature: Vec<u8>,
    pub timestamp: u64,
}

/// An entry in a transaction receipt's log.
pub struct Log {
    pub address: String,
    pub topics: Vec<String>,
    pub data: Vec<u8>,
}

/// A typed event recorded while a transaction executes.
pub struct Event {
    pub event_type: String,
    pub parameters: Vec<(String, String)>,
    pub timestamp: u64,
}

/// Where a transaction stands in its life cycle.
pub enum TransactionStatus {
    Pending,
    Confirmed,
    Failed(String),
}

/// The outcome of executing or simulating one transaction.
pub struct TransactionReceipt {
    pub transaction_hash: HashDigest,
    pub block_height: u64,
    pub block_hash: HashDigest,
    pub gas_used: u64,
    pub status: TransactionStatus,
    pub logs: Vec<Log>,
    pub events: Vec<Event>,
    pub quantum_security_level: u8,
}

/// Everything that can be wrong with a transaction, one variant per
/// check.
#[derive(Clone, Copy, PartialEq, Eq, Structural, Debug)]
pub enum TransactionError {
    InvalidAmount,
    InvalidVersion,
    InvalidAddress,
    InvalidGasLimit,
    FutureTimestamp,
    MissingSignature,
    InsufficientFunds,
    OutOfGas,
}

/// A signed state-mutation request.
pub struct QuantumTransaction {
    pub hash: HashDigest,
    pub version: u32,
    pub nonce: u64,
    pub from: String,
    pub to: String,
    pub amount: u64,
    pub fee: u64,
    pub gas_limit: u64,
    pub gas_used: u64,
    pub data: TransactionData,
    pub timestamp: u64,
    pub signature: Option<Vec<u8>>,
    pub quantum_proof: Option<QuantumProof>,
}

/// The canonical one-byte tag of an operation kind.
pub open spec fn spec_op_tag(op: OperationType) -> u8 {
    match op {
        OperationType::Transfer => 0u8,
        OperationType::Stake => 1u8,
        OperationType::Unstake => 2u8,
        OperationType::BridgeAsset => 3u8,
        OperationType::SyncIdentity => 4u8,
        OperationType::DeployContract => 5u8,
        OperationType::CallContract => 6u8,
        OperationType::CreateValidator => 7u8,
        OperationType::RemoveValidator => 8u8,
        OperationType::UpdateConsensus => 9u8,
    }
}

/// The canonical encoding of a parameter list: each key and value in
/// order, length-prefixed.
pub open spec fn spec_params_enc(ps: Seq<(String, String)>) -> Seq<u8>
    decreases ps.len(),
{
    if ps.len() == 0 {
        Seq::<u8>::empty()
    } else {
        spec_params_enc(ps.drop_last()) + spec_str_enc(ps.last().0@) + spec_str_enc(ps.last().1@)
    }
}

/// The canonical encoding of a transaction's operation payload.
pub open spec fn spec_data_enc(d: TransactionData) -> Seq<u8> {
    seq![spec_op_tag(d.operation_type)] + spec_u64_le(d.parameters@.len() as u64) + spec_params_enc(
        d.parameters@,
    ) + spec_len_prefixed(d.payload@)
}

/// The canonical encoding of the fields a signature covers: everything
/// except the hash, the signature and the post-quantum proof.
pub open spec fn spec_signing_payload(tx: QuantumTransaction) -> Seq<u8> {
    spec_u32_le(tx.version) + spec_u64_le(tx.nonce) + spec_str_enc(tx.from@) + spec_str_enc(tx.to@)
        + spec_u64_le(tx.amount) + spec_u64_le(tx.fee) + spec_u64_le(tx.gas_limit) + spec_u64_le(
        tx.timestamp,
    ) + spec_data_enc(tx.data)
}

/// The digest a transaction signature is made over.
pub open spec fn spec_signing_digest(tx: QuantumTransaction) -> Seq<u8> {
    blake3_of(spec_signing_payload(tx))
}

/// The canonical encoding of a whole transaction, signature and proof
/// included.
pub open spec fn spec_full_enc(tx: QuantumTransaction) -> Seq<u8> {
    spec_signing_payload(tx) + (match tx.signature {
        Option::None => seq![0u8],
        Option::Some(sig) => seq![1u8] + spec_len_prefixed(sig@),
    }) + (match tx.quantum_proof {
        Option::None => seq![0u8],
        Option::Some(p) => seq![1u8] + spec_len_prefixed(p.kyber_ciphertext@) + spec_len_prefixed(
            p.dilithium_signature@,
        ) + spec_u64_le(p.timestamp),
    })
}

/// A transaction's identity: the digest of its full canonical encoding.
pub open spec fn spec_tx_hash(tx: QuantumTransaction) -> Seq<u8> {
    blake3_of(spec_full_enc(tx))
}

/// The structural checks every transaction must pass, in their fixed
/// order; the first failing check names the error.
pub open spec fn spec_validate_basics(tx: QuantumTransaction, now: u64) -> Result<
    (),
    TransactionError,
> {
    if tx.version == 0 {
        Result::Err(TransactionError::InvalidVersion)
    } else if tx.from@.len() == 0 || tx.to@.len() == 0 {
        Result::Err(TransactionError::InvalidAddress)
    } else if tx.gas_limit == 0 {
        Result::Err(TransactionError::InvalidGasLimit)
    } else if tx.timestamp > now {
        Result::Err(TransactionError::FutureTimestamp)
    } else {
        Result::Ok(())
    }
}

/// Whether the signature (and, when present, the post-quantum proof's
/// signature) on `tx` verifies under `pk`.
pub open spec fn spec_signature_ok(tx: QuantumTransaction, pk: Seq<u8>) -> bool {
    &&& tx.signature matches Option::Some(sig) && dilithium_signs(
        sig@,
        spec_signing_digest(tx),
        pk,
    )
    &&& match tx.quantum_proof {
        Option::None => true,
        Option::Some(p) => dilithium_signs(p.dilithium_signature@, spec_signing_digest(tx), pk),
    }
}

/// The gas each operation kind is estimated to use; deployment grows
/// with the code size, saturating at the integer limit.
pub open spec fn spec_gas_estimate(d: TransactionData) -> u64 {
    match d.operation_type {
        OperationType::Transfer => 21000u64,
        OperationType::Stake => 50000u64,
        OperationType::Unstake => 50000u64,
        OperationType::BridgeAsset => 100000u64,
        OperationType::SyncIdentity => 30000u64,
        OperationType::DeployContract => if 200000 + d.payload@.len() * 100 <= u64::MAX {
            (200000 + d.payload@.len() * 100) as u64
        } else {
            u64::MAX
        },
        OperationType::CallContract => 50000u64,
        OperationType::CreateValidator => 200000u64,
        OperationType::RemoveValidator => 50000u64,
        OperationType::UpdateConsensus => 100000u64,
    }
}

/// The canonical one-byte tag of an operation kind.
pub fn op_tag(op: OperationType) -> (r: u8)
    ensures
        r == spec_op_tag(op),
{
    match op {
        OperationType::Transfer => 0u8,
        OperationType::Stake => 1u8,
        OperationType::Unstake => 2u8,
        OperationType::BridgeAsset => 3u8,
        OperationType::SyncIdentity => 4u8,
        OperationType::DeployContract => 5u8,
        OperationType::CallContract => 6u8,
        OperationType::CreateValidator => 7u8,
        OperationType::RemoveValidator => 8u8,
        OperationType::UpdateConsensus => 9u8,
    }
}

/// Appends the canonical encoding of the parameter list to `out`.
fn push_params(out: &mut Vec<u8>, ps: &Vec<(String, String)>)
    ensures
        final(out)@ == old(out)@ + spec_params_enc(ps@),
{
    let mut i: usize = 0;
    while i < ps.len()
        invariant
            i <= ps@.len(),
            out@ == old(out)@ + spec_params_enc(ps@.subrange(0, i as int)),
        decreases ps@.len() - i,
    {
        let ghost prefix = ps@.subrange(0, i as int);
        push_str_enc(out, ps[i].0.as_str());
        push_str_enc(out, ps[i].1.as_str());
        i = i + 1;
        proof {
            assert(ps@.subrange(0, i as int).drop_last() =~= prefix);
            assert(ps@.subrange(0, i as int).last() == ps@[i - 1]);
        }
    }
    assert(ps@.subrange(0, ps@.len() as int) =~= ps@);
}

impl TransactionData {
    /// The canonical encoding of this operation payload.
    pub fn encode(&self) -> (r: Vec<u8>)
        ensures
            r@ == spec_data_enc(*self),
    {
        let mut out: Vec<u8> = Vec::new();
        out.push(op_tag(self.operation_type));
        assert(out@ =~= seq![spec_op_tag(self.operation_type)]);
        push_u64_le(&mut out, self.parameters.len() as u64);
        push_params(&mut out, &self.parameters);
        push_len_prefixed(&mut out, self.payload.as_slice());
        out
    }
}

impl QuantumTransaction {
    /// A transaction is well formed when its hash commits to all of its
    /// fields.
    pub open spec fn wf(&self) -> bool {
        self.hash@ == spec_tx_hash(*self)
    }

    /// Builds an unsigned transaction with the given fields at the given
    /// time, hash included.
    pub fn new_at(
        from: String,
        to: String,
        amount: u64,
        fee: u64,
        operation_type: OperationType,
        gas_limit: u64,
        timestamp: u64,
    ) -> (r: QuantumTransaction)
        ensures
            r.version == 1,
            r.nonce == 0,
            r.from == from,
            r.to == to,
            r.amount == amount,
            r.fee == fee,
            r.gas_limit == gas_limit,
            r.gas_used == 0,
            r.timestamp == timestamp,
            r.data.operation_type == operation_type,
            r.data.parameters@.len() == 0,
            r.data.payload@.len() == 0,
            r.signature is None,
            r.quantum_proof is None,
            r.wf(),
    {
        let data = TransactionData {
            operation_type,
            parameters: Vec::new(),
            payload: Vec::new(),
        };
        let mut tx = QuantumTransaction {
            hash: HashDigest::zero(),
            version: 1,
            nonce: 0,
            from,
            to,
            amount,
            fee,
            gas_limit,
            gas_used: 0,
            data,
            timestamp,
            signature: Option::None,
            quantum_proof: Option::None,
        };
        let h = tx.calculate_hash();
        tx.hash = h;
        tx
    }

    /// Builds an unsigned transaction stamped with the current wall
    /// clock. The amounts are unsigned, so the range checks of the
    /// construction always pass and the result is always `Ok`.
    pub fn new(
        from: String,
        to: String,
        amount: u64,
        fee: u64,
        operation_type: OperationType,
        gas_limit: u64,
    ) -> (r: Result<QuantumTransaction, TransactionError>)
        ensures
            r matches Result::Ok(tx) && tx.version == 1 && tx.nonce == 0 && tx.from == from
                && tx.to == to && tx.amount == amount && tx.fee == fee && tx.gas_limit
                == gas_limit && tx.gas_used == 0 && tx.data.operation_type == operation_type
                && tx.signature is None && tx.quantum_proof is None && tx.wf(),
    {
        let now = now_seconds();
        Result::Ok(QuantumTransaction::new_at(from, to, amount, fee, operation_type, gas_limit, now))
    }

    /// The canonical encoding of the fields a signature covers.
    pub fn signing_payload(&self) -> (r: Vec<u8>)
        ensures
            r@ == spec_signing_payload(*self),
    {
        let mut out: Vec<u8> = Vec::new();
        push_u32_le(&mut out, self.version);
        push_u64_le(&mut out, self.nonce);
        push_str_enc(&mut out, self.from.as_str());
        push_str_enc(&mut out, self.to.as_str());
        push_u64_le(&mut out, self.amount);
        push_u64_le(&mut out, self.fee);
        push_u64_le(&mut out, self.gas_limit);
        push_u64_le(&mut out, self.timestamp);
        let data_enc = self.data.encode();
        let mut j: usize = 0;
        while j < data_enc.len()
            invariant
                j <= data_enc@.len(),
                data_enc@ == spec_data_enc(self.data),
                out@ == spec_u32_le(self.version) + spec_u64_le(self.nonce) + spec_str_enc(
                    self.from@,
                ) + spec_str_enc(self.to@) + spec_u64_le(self.amount) + spec_u64_le(self.fee)
                    + spec_u64_le(self.gas_limit) + spec_u64_le(self.timestamp)
                    + data_enc@.subrange(0, j as int),
            decreases data_enc@.len() - j,
        {
            out.push(data_enc[j]);
            j = j + 1;
            assert(out@ =~= spec_u32_le(self.version) + spec_u64_le(self.nonce) + spec_str_enc(
                self.from@,
            ) + spec_str_enc(self.to@) + spec_u64_le(self.amount) + spec_u64_le(self.fee)
                + spec_u64_le(self.gas_limit) + spec_u64_le(self.timestamp) + data_enc@.subrange(
                0,
                j as int,
            ));
        }
        assert(data_enc@.subrange(0, data_enc@.len() as int) =~= data_enc@);
        out
    }

    /// The digest this transaction's signature is made over.
    pub fn signing_digest(&self) -> (r: Vec<u8>)
        ensures
            r@ == spec_signing_digest(*self),
    {
        let payload = self.signing_payload();
        blake3_hash(payload.as_slice())
    }

    /// The full canonical encoding of the transaction, signature and
    /// proof included.
    pub fn full_encode(&self) -> (r: Vec<u8>)
        ensures
            r@ == spec_full_enc(*self),
    {
        let mut out = self.signing_payload();
        match &self.signature {
            Option::None => {
                out.push(0u8);
            },
            Option::Some(sig) => {
                out.push(1u8);
                push_len_prefixed(&mut out, sig.as_slice());
            },
        }
        match &self.quantum_proof {
            Option::None => {
                out.push(0u8);
            },
            Option::Some(p) => {
                out.push(1u8);
                push_len_prefixed(&mut out, p.kyber_ciphertext.as_slice());
                push_len_prefixed(&mut out, p.dilithium_signature.as_slice());
                push_u64_le(&mut out, p.timestamp);
            },
        }
        assert(out@ =~= spec_full_enc(*self));
        out
    }

    /// The transaction's identity: the digest of its full canonical
    /// encoding, signature and proof included.
    pub fn calculate_hash(&self) -> (r: HashDigest)
        ensures
            r@ == spec_tx_hash(*self),
            r.wf(),
    {
        let enc = self.full_encode();
        HashDigest::compute(enc.as_slice())
    }

    /// Signs the transaction with `sk`: stores the signature over the
    /// signing digest and recomputes the hash. Only the signature and
    /// hash fields change.
    pub fn sign_with(&mut self, sk: &Vec<u8>)
        requires
            sk@.len() == DILITHIUM_SK_LEN,
        ensures
            final(self).signature matches Option::Some(sig) && sig@ == dilithium_sig_of(
                spec_signing_digest(*old(self)),
                sk@,
            ),
            final(self).version == old(self).version,
            final(self).nonce == old(self).nonce,
            final(self).from == old(self).from,
            final(self).to == old(self).to,
            final(self).amount == old(self).amount,
            final(self).fee == old(self).fee,
            final(self).gas_limit == old(self).gas_limit,
            final(self).gas_used == old(self).gas_used,
            final(self).data == old(self).data,
            final(self).timestamp == old(self).timestamp,
            final(self).quantum_proof == old(self).quantum_proof,
            spec_signing_payload(*final(self)) == spec_signing_payload(*old(self)),
            final(self).wf(),
    {
        let digest = self.signing_digest();
        let sig = dilithium_sign_bytes(digest.as_slice(), sk.as_slice());
        self.signature = Option::Some(sig);
        assert(spec_signing_payload(*self) == spec_signing_payload(*old(self)));
        let h = self.calculate_hash();
        self.hash = h;
        assert(spec_signing_payload(*self) == spec_signing_payload(*old(self)));
    }

    /// Attaches the post-quantum proof: a Kyber ciphertext for the
    /// signer and a copy of the present signature, stamped with the
    /// given time; the hash is recomputed. Fails exactly when the
    /// transaction is not signed yet.
    pub fn add_quantum_proof(&mut self, kyber_pk: &Vec<u8>, now: u64) -> (r: Result<
        (),
        TransactionError,
    >)
        requires
            kyber_pk@.len() == KYBER_PK_LEN,
        ensures
            old(self).signature is None ==> r == Result::<(), TransactionError>::Err(
                TransactionError::MissingSignature,
            ) && *final(self) == *old(self),
            old(self).signature matches Option::Some(sig) ==> (r is Ok && (final(self).quantum_proof matches Option::Some(p) && p.dilithium_signature@ == sig@
                && p.kyber_ciphertext@.len() == 768 && p.timestamp == now) && final(self).signature == old(self).signature && final(self).wf()
                && spec_signing_payload(*final(self)) == spec_signing_payload(*old(self))),
    {
        let sig_copy = match &self.signature {
            Option::None => {
                return Result::Err(TransactionError::MissingSignature);
            },
            Option::Some(sig) => crate::clone_u8(sig),
        };
        let ciphertext = kyber_encapsulate(kyber_pk.as_slice());
        self.quantum_proof = Option::Some(
            QuantumProof { kyber_ciphertext: ciphertext, dilithium_signature: sig_copy, timestamp: now },
        );
        assert(spec_signing_payload(*self) == spec_signing_payload(*old(self)));
        let h = self.calculate_hash();
        self.hash = h;
        assert(spec_signing_payload(*self) == spec_signing_payload(*old(self)));
        Result::Ok(())
    }

    /// The structural checks, against the given wall clock.
    pub fn validate_basics(&self, now: u64) -> (r: Result<(), TransactionError>)
        ensures
            r == spec_validate_basics(*self, now),
    {
        if self.version == 0 {
            return Result::Err(TransactionError::InvalidVersion);
        }
        if self.from.as_str().is_empty() || self.to.as_str().is_empty() {
            return Result::Err(TransactionError::InvalidAddress);
        }
        if self.gas_limit == 0 {
            return Result::Err(TransactionError::InvalidGasLimit);
        }
        if self.timestamp > now {
            return Result::Err(TransactionError::FutureTimestamp);
        }
        Result::Ok(())
    }

    /// Verifies the transaction against the signer's public key at the
    /// given time: structural checks first (their error is returned),
    /// then the signature and, when present, the post-quantum proof.
    /// `Ok(true)` exactly when the checks pass and every signature
    /// verifies; an unsigned transaction gives `Ok(false)`.
    pub fn verify_at(&self, pk: &Vec<u8>, now: u64) -> (r: Result<bool, TransactionError>)
        requires
            pk@.len() == DILITHIUM_PK_LEN,
        ensures
            r == match spec_validate_basics(*self, now) {
                Result::Err(e) => Result::<bool, TransactionError>::Err(e),
                Result::Ok(_) => Result::<bool, TransactionError>::Ok(
                    spec_signature_ok(*self, pk@),
                ),
            },
    {
        match self.validate_basics(now) {
            Result::Err(e) => Result::Err(e),
            Result::Ok(_) => {
                match &self.signature {
                    Option::None => Result::Ok(false),
                    Option::Some(sig) => {
                        let digest = self.signing_digest();
                        let sig_ok = dilithium_verify(
                            sig.as_slice(),
                            digest.as_slice(),
                            pk.as_slice(),
                        );
                        let proof_ok = match &self.quantum_proof {
                            Option::None => true,
                            Option::Some(p) => dilithium_verify(
                                p.dilithium_signature.as_slice(),
                                digest.as_slice(),
                                pk.as_slice(),
                            ),
                        };
                        Result::Ok(sig_ok && proof_ok)
                    },
                }
            },
        }
    }

    /// The gas this transaction is estimated to use.
    pub fn estimate_gas_usage(&self) -> (r: u64)
        ensures
            r == spec_gas_estimate(self.data),
    {
        match self.data.operation_type {
            OperationType::Transfer => 21000u64,
            OperationType::Stake => 50000u64,
            OperationType::Unstake => 50000u64,
            OperationType::BridgeAsset => 100000u64,
            OperationType::SyncIdentity => 30000u64,
            OperationType::DeployContract => {
                let len = self.data.payload.len();
                if len as u64 <= (u64::MAX - 200000) / 100 {
                    200000 + (len as u64) * 100
                } else {
                    u64::MAX
                }
            },
            OperationType::CallContract => 50000u64,
            OperationType::CreateValidator => 200000u64,
            OperationType::RemoveValidator => 50000u64,
            OperationType::UpdateConsensus => 100000u64,
        }
    }

    /// Simulates the transaction against the sender's balance: rejected
    /// when the balance cannot cover amount plus fee, or when the gas
    /// estimate exceeds the gas limit; otherwise a pending receipt with
    /// the estimated gas.
    pub fn simulate(&self, sender_balance: u64) -> (r: Result<TransactionReceipt, TransactionError>)
        ensures
            (sender_balance < self.amount + self.fee) ==> r == Result::<
                TransactionReceipt,
                TransactionError,
            >::Err(TransactionError::InsufficientFunds),
            (sender_balance >= self.amount + self.fee && spec_gas_estimate(self.data)
                > self.gas_limit) ==> r == Result::<TransactionReceipt, TransactionError>::Err(
                TransactionError::OutOfGas,
            ),
            (sender_balance >= self.amount + self.fee && spec_gas_estimate(self.data)
                <= self.gas_limit) ==> (r matches Result::Ok(rc) && rc.transaction_hash@
                == self.hash@ && rc.gas_used == spec_gas_estimate(self.data) && rc.block_height
                == 0 && (rc.status matches TransactionStatus::Pending)
                && rc.quantum_security_level == self.spec_security_level()),
    {
        if sender_balance < self.amount || sender_balance - self.amount < self.fee {
            return Result::Err(TransactionError::InsufficientFunds);
        }
        let gas_used = self.estimate_gas_usage();
        if gas_used > self.gas_limit {
            return Result::Err(TransactionError::OutOfGas);
        }
        Result::Ok(
            TransactionReceipt {
                transaction_hash: self.hash.clone(),
                block_height: 0,
                block_hash: HashDigest::zero(),
                gas_used,
                status: TransactionStatus::Pending,
                logs: Vec::new(),
                events: Vec::new(),
                quantum_security_level: self.get_security_level(),
            },
        )
    }

    /// The protection level the attached material grants: 3 with a
    /// post-quantum proof, 2 with a signature alone, 0 unsigned.
    pub open spec fn spec_security_level(&self) -> u8 {
        if self.quantum_proof is Some {
            3u8
        } else if self.signature is Some {
            2u8
        } else {
            0u8
        }
    }

    /// The protection level the attached material grants.
    pub fn get_security_level(&self) -> (r: u8)
        ensures
            r == self.spec_security_level(),
    {
        if self.quantum_proof.is_some() {
            3u8
        } else if self.signature.is_some() {
            2u8
        } else {
            0u8
        }
    }
}

} // verus!
