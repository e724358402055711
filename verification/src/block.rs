//! Blocks: ordered batches of transactions under a header that commits
//! to a transactions root, a state root, the validator set and a
//! 32-byte randomness beacon.
//!
//! Validation is fail-fast: the checks run in a fixed order and the
//! first failing check names the error. A block carrying signatures
//! passes only with at least `ceil(0.67 * validator_count)` valid ones.

use vstd::prelude::*;

use crate::codec::{
    push_len_prefixed, push_u32_le, push_u64_le, spec_len_prefixed, spec_str_enc, spec_u32_le,
    spec_u64_le, push_str_enc,
};
use crate::crypto::{
    blake3_hash, blake3_of, dilithium_sig_of, dilithium_signs, dilithium_verify, random_bytes,
    now_seconds, HashDigest, DILITHIUM_PK_LEN, DILITHIUM_SK_LEN,
};
use crate::crypto::dilithium_sign as dilithium_sign_bytes;
use crate::transaction::{spec_full_enc, spec_tx_hash, QuantumTransaction, TransactionReceipt,
    TransactionStatus, Log,
};

verus! {

/// The default gas ceiling a freshly built block carries.
pub const DEFAULT_BLOCK_GAS_LIMIT: u64 = 30000000;

/// Consensus-level fields of a block: the difficulty target, the gas
/// ceiling, and the proof-of-work nonce.
pub struct ConsensusData {
    pub difficulty: u64,
    pub gas_limit: u64,
    pub nonce: u64,
}

/// One validator identity with its weightings.
pub struct Validator {
    pub address: String,
    pub public_key: Vec<u8>,
    pub stake: u64,
    pub reputation: u64,
    pub rewards_earned: u64,
    pub renewable_certified: bool,
}

/// The ordered validator set a block commits to.
pub struct ValidatorSet {
    pub validators: Vec<Validator>,
}

/// One validator's signature over a block's signing digest, named by the
/// validator's position in the block's validator set.
pub struct BlockSignature {
    pub validator_index: usize,
    pub signature: Vec<u8>,
}

/// The header of a block.
pub struct BlockHeader {
    pub version: u32,
    pub height: u64,
    pub prev_hash: HashDigest,
    pub timestamp: u64,
    pub transactions_root: HashDigest,
    pub state_root: HashDigest,
    pub receipts_root: HashDigest,
    pub quantum_state_hash: HashDigest,
    pub validator_set_hash: HashDigest,
    pub beacon_randomness: HashDigest,
    pub extra_data: Vec<u8>,
}

/// A block: header, ordered transactions, consensus metadata, validator
/// set, randomness beacon and the validators' signatures.
pub struct QuantumBlock {
    pub header: BlockHeader,
    pub transactions: Vec<QuantumTransaction>,
    pub consensus_data: ConsensusData,
    pub validator_set: ValidatorSet,
    pub quantum_random_beacon: Vec<u8>,
    pub signatures: Vec<BlockSignature>,
}

/// Summary figures of one block.
pub struct BlockMetadata {
    pub gas_used: u64,
    pub gas_limit: u64,
    pub total_difficulty: u64,
    pub size: usize,
    pub transaction_count: usize,
    pub validator_count: usize,
    pub quantum_security_level: u8,
}

/// The receipts and logs produced by executing one block.
pub struct BlockExecutionResult {
    pub height: u64,
    pub receipts: Vec<TransactionReceipt>,
    pub state_root: Option<HashDigest>,
    pub logs: Vec<Log>,
}

/// Everything that can be wrong with a block, one variant per check.
#[derive(Clone, Copy, PartialEq, Eq, Structural, Debug)]
pub enum BlockError {
    EmptyTransactions,
    InvalidVersion,
    FutureTimestamp,
    InvalidRandomBeacon,
    InvalidTransactionsRoot,
    InvalidQuantumStateHash,
    InvalidValidatorSet,
    InvalidDifficulty,
    InvalidGasLimit,
    InvalidSignature,
    InsufficientSignatures,
}

/// The canonical encoding of one validator.
pub open spec fn spec_validator_enc(v: Validator) -> Seq<u8> {
    spec_str_enc(v.address@) + spec_len_prefixed(v.public_key@) + spec_u64_le(v.stake)
        + spec_u64_le(v.reputation) + spec_u64_le(v.rewards_earned) + seq![
        if v.renewable_certified {
            1u8
        } else {
            0u8
        },
    ]
}

/// The canonical encoding of a validator set, in order.
pub open spec fn spec_validators_enc(vs: Seq<Validator>) -> Seq<u8>
    decreases vs.len(),
{
    if vs.len() == 0 {
        Seq::<u8>::empty()
    } else {
        spec_validators_enc(vs.drop_last()) + spec_validator_enc(vs.last())
    }
}

/// A validator set is internally consistent when it carries public keys
/// of the right size and no address twice.
pub open spec fn spec_validator_set_valid(vs: ValidatorSet) -> bool {
    &&& forall|i: int|
        0 <= i < vs.validators@.len() ==> (#[trigger] vs.validators@[i]).public_key@.len()
            == DILITHIUM_PK_LEN
    &&& forall|i: int, j: int|
        0 <= i < j < vs.validators@.len() ==> (#[trigger] vs.validators@[i]).address@ != (
        #[trigger] vs.validators@[j]).address@
}

/// The commitment the transactions root is made over: the hash of each
/// transaction, in list order.
pub open spec fn spec_txs_commitment(txs: Seq<QuantumTransaction>) -> Seq<u8>
    decreases txs.len(),
{
    if txs.len() == 0 {
        Seq::<u8>::empty()
    } else {
        spec_txs_commitment(txs.drop_last()) + spec_tx_hash(txs.last())
    }
}

/// The concatenated full encodings of the transactions, in list order.
pub open spec fn spec_txs_payload(txs: Seq<QuantumTransaction>) -> Seq<u8>
    decreases txs.len(),
{
    if txs.len() == 0 {
        Seq::<u8>::empty()
    } else {
        spec_txs_payload(txs.drop_last()) + spec_full_enc(txs.last())
    }
}

/// The transactions root over a transaction list.
pub open spec fn spec_transactions_root(txs: Seq<QuantumTransaction>) -> Seq<u8> {
    blake3_of(spec_txs_commitment(txs))
}

/// The canonical encoding of a block header.
pub open spec fn spec_header_enc(h: BlockHeader) -> Seq<u8> {
    spec_u32_le(h.version) + spec_u64_le(h.height) + h.prev_hash@ + spec_u64_le(h.timestamp)
        + h.transactions_root@ + h.state_root@ + h.receipts_root@ + h.quantum_state_hash@
        + h.validator_set_hash@ + h.beacon_randomness@ + spec_len_prefixed(h.extra_data@)
}

/// A block's identity: the digest of its encoded header.
pub open spec fn spec_block_hash(b: QuantumBlock) -> Seq<u8> {
    blake3_of(spec_header_enc(b.header))
}

/// The digest a validator signs: header plus consensus fields.
pub open spec fn spec_block_signing_digest(b: QuantumBlock) -> Seq<u8> {
    blake3_of(
        spec_header_enc(b.header) + spec_u64_le(b.consensus_data.difficulty) + spec_u64_le(
            b.consensus_data.gas_limit,
        ) + spec_u64_le(b.consensus_data.nonce),
    )
}

/// The number of signatures a validator set of size `n` owes:
/// `ceil(0.67 * n)`.
pub open spec fn spec_multisig_threshold(n: int) -> int {
    (67 * n + 99) / 100
}

/// Whether one of the first `upto` entries already names position
/// `idx`.
pub open spec fn spec_index_seen(sigs: Seq<BlockSignature>, upto: int, idx: usize) -> bool {
    exists|k: int| 0 <= k < upto && (#[trigger] sigs[k]).validator_index == idx
}

/// How many validators vouch for the block: an entry counts when it
/// names a validator of the set, no earlier entry already named that
/// validator, and its signature verifies under that validator's key.
/// Order does not matter; a validator is never counted twice.
pub open spec fn spec_valid_sig_count(
    sigs: Seq<BlockSignature>,
    digest: Seq<u8>,
    validators: Seq<Validator>,
) -> int
    decreases sigs.len(),
{
    if sigs.len() == 0 {
        0
    } else {
        spec_valid_sig_count(sigs.drop_last(), digest, validators) + if sigs.last().validator_index
            < validators.len() && !spec_index_seen(
            sigs,
            sigs.len() - 1,
            sigs.last().validator_index,
        ) && dilithium_signs(
            sigs.last().signature@,
            digest,
            validators[sigs.last().validator_index as int].public_key@,
        ) {
            1int
        } else {
            0int
        }
    }
}

/// The multi-signature check of a block that carries signatures: at
/// least `ceil(0.67 * validator_count)` distinct validators must have
/// signed, in any order.
pub open spec fn spec_multisig_ok(b: QuantumBlock) -> Result<(), BlockError> {
    if spec_valid_sig_count(
        b.signatures@,
        spec_block_signing_digest(b),
        b.validator_set.validators@,
    ) < spec_multisig_threshold(b.validator_set.validators@.len() as int) {
        Result::Err(BlockError::InsufficientSignatures)
    } else {
        Result::Ok(())
    }
}

/// The full fail-fast validation of a block at wall-clock time `now`.
pub open spec fn spec_validate_block(b: QuantumBlock, now: u64) -> Result<bool, BlockError> {
    if b.header.version == 0 {
        Result::Err(BlockError::InvalidVersion)
    } else if b.header.timestamp > now {
        Result::Err(BlockError::FutureTimestamp)
    } else if b.transactions@.len() == 0 {
        Result::Err(BlockError::EmptyTransactions)
    } else if b.quantum_random_beacon@.len() != 32 {
        Result::Err(BlockError::InvalidRandomBeacon)
    } else if b.header.transactions_root@ != spec_transactions_root(b.transactions@) {
        Result::Err(BlockError::InvalidTransactionsRoot)
    } else if b.header.quantum_state_hash@ != blake3_of(spec_txs_payload(b.transactions@)) {
        Result::Err(BlockError::InvalidQuantumStateHash)
    } else if !spec_validator_set_valid(b.validator_set) {
        Result::Err(BlockError::InvalidValidatorSet)
    } else if b.consensus_data.difficulty == 0 {
        Result::Err(BlockError::InvalidDifficulty)
    } else if b.consensus_data.gas_limit == 0 {
        Result::Err(BlockError::InvalidGasLimit)
    } else if b.signatures@.len() > 0 && !(spec_multisig_ok(b) is Ok) {
        Result::Err(spec_multisig_ok(b)->Err_0)
    } else {
        Result::Ok(true)
    }
}

/// The gas used by a transaction list: the sum of the per-transaction
/// figures, saturating at the integer limit.
pub open spec fn spec_gas_used_sum(txs: Seq<QuantumTransaction>) -> u64
    decreases txs.len(),
{
    if txs.len() == 0 {
        0u64
    } else {
        if spec_gas_used_sum(txs.drop_last()) + txs.last().gas_used <= u64::MAX {
            (spec_gas_used_sum(txs.drop_last()) + txs.last().gas_used) as u64
        } else {
            u64::MAX
        }
    }
}

impl ValidatorSet {
    /// An empty validator set.
    pub fn new() -> (r: ValidatorSet)
        ensures
            r.validators@.len() == 0,
    {
        ValidatorSet { validators: Vec::new() }
    }

    /// The canonical encoding of the set.
    pub fn encode(&self) -> (r: Vec<u8>)
        ensures
            r@ == spec_validators_enc(self.validators@),
    {
        let mut out: Vec<u8> = Vec::new();
        let mut i: usize = 0;
        while i < self.validators.len()
            invariant
                i <= self.validators@.len(),
                out@ == spec_validators_enc(self.validators@.subrange(0, i as int)),
            decreases self.validators@.len() - i,
        {
            let ghost prefix = self.validators@.subrange(0, i as int);
            let v = &self.validators[i];
            push_str_enc(&mut out, v.address.as_str());
            push_len_prefixed(&mut out, v.public_key.as_slice());
            push_u64_le(&mut out, v.stake);
            push_u64_le(&mut out, v.reputation);
            push_u64_le(&mut out, v.rewards_earned);
            if v.renewable_certified {
                out.push(1u8);
            } else {
                out.push(0u8);
            }
            i = i + 1;
            proof {
                assert(self.validators@.subrange(0, i as int).drop_last() =~= prefix);
                assert(self.validators@.subrange(0, i as int).last() == self.validators@[i - 1]);
                assert(out@ =~= spec_validators_enc(prefix) + spec_validator_enc(
                    self.validators@[i - 1],
                ));
            }
        }
        assert(self.validators@.subrange(0, self.validators@.len() as int) =~= self.validators@);
        out
    }

    /// The digest of the canonical encoding.
    pub fn compute_hash(&self) -> (r: HashDigest)
        ensures
            r@ == blake3_of(spec_validators_enc(self.validators@)),
            r.wf(),
    {
        let enc = self.encode();
        HashDigest::compute(enc.as_slice())
    }

    /// Whether the set is internally consistent: keys of the right size
    /// and no address twice.
    pub fn is_valid(&self) -> (r: bool)
        ensures
            r == spec_validator_set_valid(*self),
    {
        let n = self.validators.len();
        let mut i: usize = 0;
        while i < n
            invariant
                i <= n,
                n == self.validators@.len(),
                forall|k: int|
                    0 <= k < i ==> (#[trigger] self.validators@[k]).public_key@.len()
                        == DILITHIUM_PK_LEN,
            decreases n - i,
        {
            if self.validators[i].public_key.len() != DILITHIUM_PK_LEN {
                return false;
            }
            i = i + 1;
        }
        let mut a: usize = 0;
        while a < n
            invariant
                a <= n,
                n == self.validators@.len(),
                forall|k: int|
                    0 <= k < n ==> (#[trigger] self.validators@[k]).public_key@.len()
                        == DILITHIUM_PK_LEN,
                forall|k: int, l: int|
                    0 <= k < l < n && k < a ==> (#[trigger] self.validators@[k]).address@ != (
                    #[trigger] self.validators@[l]).address@,
            decreases n - a,
        {
            let mut b: usize = a + 1;
            while b < n
                invariant
                    a < b || b == a + 1,
                    a < n,
                    b <= n,
                    a + 1 <= b,
                    n == self.validators@.len(),
                    forall|l: int|
                        a < l < b ==> (#[trigger] self.validators@[l]).address@
                            != self.validators@[a as int].address@,
                decreases n - b,
            {
                if self.validators[a].address == self.validators[b].address {
                    return false;
                }
                b = b + 1;
            }
            a = a + 1;
        }
        true
    }
}

impl QuantumBlock {
    /// The transactions root over a transaction list, recomputed from
    /// the transactions themselves.
    pub fn compute_transactions_root(txs: &Vec<QuantumTransaction>) -> (r: HashDigest)
        ensures
            r@ == spec_transactions_root(txs@),
            r.wf(),
    {
        let mut commitment: Vec<u8> = Vec::new();
        let mut i: usize = 0;
        while i < txs.len()
            invariant
                i <= txs@.len(),
                commitment@ == spec_txs_commitment(txs@.subrange(0, i as int)),
            decreases txs@.len() - i,
        {
            let ghost prefix = txs@.subrange(0, i as int);
            let h = txs[i].calculate_hash();
            let hb = h.as_bytes();
            let mut j: usize = 0;
            while j < hb.len()
                invariant
                    j <= hb@.len(),
                    hb@ == spec_tx_hash(txs@[i as int]),
                    i < txs@.len(),
                    commitment@ == spec_txs_commitment(txs@.subrange(0, i as int)) + hb@.subrange(
                        0,
                        j as int,
                    ),
                decreases hb@.len() - j,
            {
                commitment.push(hb[j]);
                j = j + 1;
                assert(commitment@ =~= spec_txs_commitment(txs@.subrange(0, i as int))
                    + hb@.subrange(0, j as int));
            }
            assert(hb@.subrange(0, hb@.len() as int) =~= hb@);
            i = i + 1;
            proof {
                assert(txs@.subrange(0, i as int).drop_last() =~= prefix);
                assert(txs@.subrange(0, i as int).last() == txs@[i - 1]);
            }
        }
        assert(txs@.subrange(0, txs@.len() as int) =~= txs@);
        HashDigest::compute(commitment.as_slice())
    }

    /// The digest of the concatenated transaction encodings.
    pub fn compute_quantum_state_hash(txs: &Vec<QuantumTransaction>) -> (r: HashDigest)
        ensures
            r@ == blake3_of(spec_txs_payload(txs@)),
            r.wf(),
    {
        let mut payload: Vec<u8> = Vec::new();
        let mut i: usize = 0;
        while i < txs.len()
            invariant
                i <= txs@.len(),
                payload@ == spec_txs_payload(txs@.subrange(0, i as int)),
            decreases txs@.len() - i,
        {
            let ghost prefix = txs@.subrange(0, i as int);
            let enc = txs[i].full_encode();
            let mut j: usize = 0;
            while j < enc.len()
                invariant
                    j <= enc@.len(),
                    enc@ == spec_full_enc(txs@[i as int]),
                    i < txs@.len(),
                    payload@ == spec_txs_payload(txs@.subrange(0, i as int)) + enc@.subrange(
                        0,
                        j as int,
                    ),
                decreases enc@.len() - j,
            {
                payload.push(enc[j]);
                j = j + 1;
                assert(payload@ =~= spec_txs_payload(txs@.subrange(0, i as int)) + enc@.subrange(
                    0,
                    j as int,
                ));
            }
            assert(enc@.subrange(0, enc@.len() as int) =~= enc@);
            i = i + 1;
            proof {
                assert(txs@.subrange(0, i as int).drop_last() =~= prefix);
                assert(txs@.subrange(0, i as int).last() == txs@[i - 1]);
            }
        }
        assert(txs@.subrange(0, txs@.len() as int) =~= txs@);
        HashDigest::compute(payload.as_slice())
    }

    /// Builds a block over the given transactions at the given time with
    /// the given 32-byte beacon. Fails exactly when the transaction list
    /// is empty. The header commits to the transactions, the state root
    /// and the validator set; the consensus fields start at difficulty 1
    /// and the default gas ceiling.
    pub fn new_with(
        parent_hash: HashDigest,
        transactions: Vec<QuantumTransaction>,
        state_root: HashDigest,
        validator_set: ValidatorSet,
        height: u64,
        timestamp: u64,
        beacon: Vec<u8>,
    ) -> (r: Result<QuantumBlock, BlockError>)
        requires
            beacon@.len() == 32,
        ensures
            transactions@.len() == 0 ==> r == Result::<QuantumBlock, BlockError>::Err(
                BlockError::EmptyTransactions,
            ),
            transactions@.len() > 0 ==> (r matches Result::Ok(b) && b.header.version == 1
                && b.header.height == height && b.header.prev_hash@ == parent_hash@
                && b.header.timestamp == timestamp && b.header.transactions_root@
                == spec_transactions_root(transactions@) && b.header.state_root@ == state_root@
                && b.header.quantum_state_hash@ == blake3_of(spec_txs_payload(transactions@))
                && b.header.validator_set_hash@ == blake3_of(
                spec_validators_enc(validator_set.validators@),
            ) && b.header.beacon_randomness@ == blake3_of(beacon@) && b.transactions@
                == transactions@ && b.validator_set == validator_set && b.quantum_random_beacon@
                == beacon@ && b.signatures@.len() == 0 && b.consensus_data.difficulty == 1
                && b.consensus_data.gas_limit == DEFAULT_BLOCK_GAS_LIMIT
                && b.consensus_data.nonce == 0 && b.header.extra_data@.len() == 0
                && b.header.receipts_root@ == crate::crypto::spec_zero_digest()),
    {
        if transactions.len() == 0 {
            return Result::Err(BlockError::EmptyTransactions);
        }
        let transactions_root = QuantumBlock::compute_transactions_root(&transactions);
        let quantum_state_hash = QuantumBlock::compute_quantum_state_hash(&transactions);
        let validator_set_hash = validator_set.compute_hash();
        let beacon_randomness = HashDigest::compute(beacon.as_slice());
        let header = BlockHeader {
            version: 1,
            height,
            prev_hash: parent_hash,
            timestamp,
            transactions_root,
            state_root,
            receipts_root: HashDigest::zero(),
            quantum_state_hash,
            validator_set_hash,
            beacon_randomness,
            extra_data: Vec::new(),
        };
        Result::Ok(
            QuantumBlock {
                header,
                transactions,
                consensus_data: ConsensusData { difficulty: 1, gas_limit: DEFAULT_BLOCK_GAS_LIMIT, nonce: 0 },
                validator_set,
                quantum_random_beacon: beacon,
                signatures: Vec::new(),
            },
        )
    }

    /// Builds a block stamped with the current wall clock and a fresh
    /// 32-byte randomness beacon. Fails exactly when the transaction
    /// list is empty.
    pub fn new(
        parent_hash: HashDigest,
        transactions: Vec<QuantumTransaction>,
        state_root: HashDigest,
        validator_set: ValidatorSet,
        height: u64,
    ) -> (r: Result<QuantumBlock, BlockError>)
        ensures
            transactions@.len() == 0 ==> r == Result::<QuantumBlock, BlockError>::Err(
                BlockError::EmptyTransactions,
            ),
            transactions@.len() > 0 ==> (r matches Result::Ok(b) && b.header.version == 1
                && b.header.height == height && b.header.prev_hash@ == parent_hash@
                && b.header.transactions_root@ == spec_transactions_root(transactions@)
                && b.header.state_root@ == state_root@ && b.transactions@ == transactions@
                && b.validator_set == validator_set && b.quantum_random_beacon@.len() == 32
                && b.signatures@.len() == 0 && b.consensus_data.difficulty == 1
                && b.consensus_data.gas_limit == DEFAULT_BLOCK_GAS_LIMIT),
    {
        let timestamp = now_seconds();
        let beacon = random_bytes(32);
        QuantumBlock::new_with(
            parent_hash,
            transactions,
            state_root,
            validator_set,
            height,
            timestamp,
            beacon,
        )
    }

    /// The canonical encoding of the header.
    pub fn encode_header(&self) -> (r: Vec<u8>)
        ensures
            r@ == spec_header_enc(self.header),
    {
        let mut out: Vec<u8> = Vec::new();
        push_u32_le(&mut out, self.header.version);
        push_u64_le(&mut out, self.header.height);
        push_digest(&mut out, &self.header.prev_hash);
        push_u64_le(&mut out, self.header.timestamp);
        push_digest(&mut out, &self.header.transactions_root);
        push_digest(&mut out, &self.header.state_root);
        push_digest(&mut out, &self.header.receipts_root);
        push_digest(&mut out, &self.header.quantum_state_hash);
        push_digest(&mut out, &self.header.validator_set_hash);
        push_digest(&mut out, &self.header.beacon_randomness);
        push_len_prefixed(&mut out, self.header.extra_data.as_slice());
        out
    }

    /// The block's identity: the digest of its encoded header.
    pub fn block_hash(&self) -> (r: HashDigest)
        ensures
            r@ == spec_block_hash(*self),
            r.wf(),
    {
        let enc = self.encode_header();
        HashDigest::compute(enc.as_slice())
    }

    /// The digest the validators sign: header plus consensus fields.
    pub fn compute_signing_root(&self) -> (r: Vec<u8>)
        ensures
            r@ == spec_block_signing_digest(*self),
            r@.len() == 32,
    {
        let mut enc = self.encode_header();
        push_u64_le(&mut enc, self.consensus_data.difficulty);
        push_u64_le(&mut enc, self.consensus_data.gas_limit);
        push_u64_le(&mut enc, self.consensus_data.nonce);
        blake3_hash(enc.as_slice())
    }

    /// Signs the block as the validator at `validator_index` and appends
    /// the signature entry; everything else is unchanged.
    pub fn sign(&mut self, validator_index: usize, sk: &Vec<u8>)
        requires
            sk@.len() == DILITHIUM_SK_LEN,
        ensures
            final(self).signatures@.len() == old(self).signatures@.len() + 1,
            final(self).signatures@.subrange(0, old(self).signatures@.len() as int) == old(
                self,
            ).signatures@,
            final(self).signatures@.last().validator_index == validator_index,
            final(self).signatures@.last().signature@ == dilithium_sig_of(
                spec_block_signing_digest(*old(self)),
                sk@,
            ),
            final(self).header == old(self).header,
            final(self).transactions == old(self).transactions,
            final(self).consensus_data == old(self).consensus_data,
            final(self).validator_set == old(self).validator_set,
            final(self).quantum_random_beacon == old(self).quantum_random_beacon,
            spec_block_signing_digest(*final(self)) == spec_block_signing_digest(*old(self)),
    {
        let digest = self.compute_signing_root();
        let signature = dilithium_sign_bytes(digest.as_slice(), sk.as_slice());
        self.signatures.push(BlockSignature { validator_index, signature });
        assert(self.signatures@.subrange(0, old(self).signatures@.len() as int) =~= old(
            self,
        ).signatures@);
    }

    /// The multi-signature check: at least the threshold of distinct
    /// validators must have signed, in any order; a validator named
    /// twice is counted once.
    pub fn validate_multi_signatures(&self) -> (r: Result<(), BlockError>)
        requires
            spec_validator_set_valid(self.validator_set),
        ensures
            r == spec_multisig_ok(*self),
    {
        let n = self.signatures.len();
        let digest = self.compute_signing_root();
        let mut count: u64 = 0;
        let mut j: usize = 0;
        while j < n
            invariant
                j <= n,
                n == self.signatures@.len(),
                count <= j,
                count == spec_valid_sig_count(
                    self.signatures@.subrange(0, j as int),
                    spec_block_signing_digest(*self),
                    self.validator_set.validators@,
                ),
                digest@ == spec_block_signing_digest(*self),
                spec_validator_set_valid(self.validator_set),
            decreases n - j,
        {
            let ghost prefix = self.signatures@.subrange(0, j as int);
            let idx = self.signatures[j].validator_index;
            let mut seen: bool = false;
            let mut k: usize = 0;
            while k < j
                invariant
                    k <= j,
                    j < n,
                    n == self.signatures@.len(),
                    idx == self.signatures@[j as int].validator_index,
                    seen == spec_index_seen(self.signatures@, k as int, idx),
                decreases j - k,
            {
                if self.signatures[k].validator_index == idx {
                    seen = true;
                }
                k = k + 1;
            }
            if !seen && idx < self.validator_set.validators.len() {
                let entry = &self.signatures[j];
                let ok = dilithium_verify(
                    entry.signature.as_slice(),
                    digest.as_slice(),
                    self.validator_set.validators[idx].public_key.as_slice(),
                );
                if ok {
                    count = count + 1;
                }
            }
            j = j + 1;
            proof {
                let sub = self.signatures@.subrange(0, j as int);
                assert(sub.drop_last() =~= prefix);
                assert(sub.last() == self.signatures@[j - 1]);
                assert(spec_index_seen(sub, j - 1, idx) == spec_index_seen(
                    self.signatures@,
                    j - 1,
                    idx,
                )) by {
                    if spec_index_seen(sub, j - 1, idx) {
                        let t = choose|t: int|
                            0 <= t < j - 1 && (#[trigger] sub[t]).validator_index == idx;
                        assert(self.signatures@[t].validator_index == idx);
                    }
                    if spec_index_seen(self.signatures@, j - 1, idx) {
                        let t = choose|t: int|
                            0 <= t < j - 1 && (#[trigger] self.signatures@[t]).validator_index
                                == idx;
                        assert(sub[t].validator_index == idx);
                    }
                }
            }
        }
        assert(self.signatures@.subrange(0, n as int) =~= self.signatures@);
        let needed = multisig_threshold(self.validator_set.validators.len());
        if (count as u128) < needed {
            return Result::Err(BlockError::InsufficientSignatures);
        }
        Result::Ok(())
    }

    /// Whether every transaction of the block carries a signature its
    /// sender's key accepts: the per-transaction signature check of
    /// block validation, with the senders' public keys supplied in
    /// transaction order.
    pub fn verify_transaction_signatures(&self, sender_keys: &Vec<Vec<u8>>) -> (r: bool)
        requires
            sender_keys@.len() == self.transactions@.len(),
            forall|i: int|
                0 <= i < sender_keys@.len() ==> (#[trigger] sender_keys@[i])@.len()
                    == DILITHIUM_PK_LEN,
        ensures
            r == forall|i: int|
                0 <= i < self.transactions@.len() ==> crate::transaction::spec_signature_ok(
                    #[trigger] self.transactions@[i],
                    sender_keys@[i]@,
                ),
    {
        let mut i: usize = 0;
        while i < self.transactions.len()
            invariant
                i <= self.transactions@.len(),
                sender_keys@.len() == self.transactions@.len(),
                forall|t: int|
                    0 <= t < sender_keys@.len() ==> (#[trigger] sender_keys@[t])@.len()
                        == DILITHIUM_PK_LEN,
                forall|t: int|
                    0 <= t < i ==> crate::transaction::spec_signature_ok(
                        #[trigger] self.transactions@[t],
                        sender_keys@[t]@,
                    ),
            decreases self.transactions@.len() - i,
        {
            let tx = &self.transactions[i];
            let key = &sender_keys[i];
            let digest = tx.signing_digest();
            let sig_ok = match &tx.signature {
                Option::None => false,
                Option::Some(sig) => dilithium_verify(
                    sig.as_slice(),
                    digest.as_slice(),
                    key.as_slice(),
                ),
            };
            let proof_ok = match &tx.quantum_proof {
                Option::None => true,
                Option::Some(p) => dilithium_verify(
                    p.dilithium_signature.as_slice(),
                    digest.as_slice(),
                    key.as_slice(),
                ),
            };
            if !(sig_ok && proof_ok) {
                assert(!crate::transaction::spec_signature_ok(
                    self.transactions@[i as int],
                    sender_keys@[i as int]@,
                ));
                return false;
            }
            i = i + 1;
        }
        true
    }

    /// The full fail-fast validation of the block at time `now`: version,
    /// timestamp, transactions, beacon, transactions root, state hash,
    /// validator set, consensus fields, and the multi-signature rule
    /// when signatures are present. `Ok(true)` exactly when every check
    /// passes; the first failing check names the error.
    pub fn validate_at(&self, now: u64) -> (r: Result<bool, BlockError>)
        ensures
            r == spec_validate_block(*self, now),
    {
        if self.header.version == 0 {
            return Result::Err(BlockError::InvalidVersion);
        }
        if self.header.timestamp > now {
            return Result::Err(BlockError::FutureTimestamp);
        }
        if self.transactions.len() == 0 {
            return Result::Err(BlockError::EmptyTransactions);
        }
        if self.quantum_random_beacon.len() != 32 {
            return Result::Err(BlockError::InvalidRandomBeacon);
        }
        let txs_root = QuantumBlock::compute_transactions_root(&self.transactions);
        if !self.header.transactions_root.eq_digest(&txs_root) {
            return Result::Err(BlockError::InvalidTransactionsRoot);
        }
        let state_hash = QuantumBlock::compute_quantum_state_hash(&self.transactions);
        if !self.header.quantum_state_hash.eq_digest(&state_hash) {
            return Result::Err(BlockError::InvalidQuantumStateHash);
        }
        if !self.validator_set.is_valid() {
            return Result::Err(BlockError::InvalidValidatorSet);
        }
        if self.consensus_data.difficulty == 0 {
            return Result::Err(BlockError::InvalidDifficulty);
        }
        if self.consensus_data.gas_limit == 0 {
            return Result::Err(BlockError::InvalidGasLimit);
        }
        if self.signatures.len() > 0 {
            match self.validate_multi_signatures() {
                Result::Err(e) => {
                    return Result::Err(e);
                },
                Result::Ok(_) => {},
            }
        }
        Result::Ok(true)
    }

    /// Validates the block against the current wall clock: the result is
    /// the fail-fast validation at some clock reading.
    pub fn validate(&self) -> (r: Result<bool, BlockError>)
        ensures
            exists|now: u64| r == spec_validate_block(*self, now),
            r matches Result::Ok(b) ==> b,
    {
        let now = now_seconds();
        let r = self.validate_at(now);
        assert(r == spec_validate_block(*self, now));
        r
    }

    /// Executes the block: one confirmed receipt per transaction, in
    /// list order, each charged its gas estimate.
    pub fn execute(&self) -> (r: BlockExecutionResult)
        ensures
            r.height == self.header.height,
            r.receipts@.len() == self.transactions@.len(),
            forall|i: int|
                0 <= i < r.receipts@.len() ==> (#[trigger] r.receipts@[i]).transaction_hash@
                    == spec_tx_hash(self.transactions@[i]) && r.receipts@[i].gas_used
                    == crate::transaction::spec_gas_estimate(self.transactions@[i].data)
                    && r.receipts@[i].block_height == self.header.height,
    {
        let mut receipts: Vec<TransactionReceipt> = Vec::new();
        let mut i: usize = 0;
        while i < self.transactions.len()
            invariant
                i <= self.transactions@.len(),
                receipts@.len() == i,
                forall|k: int|
                    0 <= k < i ==> (#[trigger] receipts@[k]).transaction_hash@ == spec_tx_hash(
                        self.transactions@[k],
                    ) && receipts@[k].gas_used == crate::transaction::spec_gas_estimate(
                        self.transactions@[k].data,
                    ) && receipts@[k].block_height == self.header.height,
            decreases self.transactions@.len() - i,
        {
            let tx = &self.transactions[i];
            let receipt = TransactionReceipt {
                transaction_hash: tx.calculate_hash(),
                block_height: self.header.height,
                block_hash: self.block_hash(),
                gas_used: tx.estimate_gas_usage(),
                status: TransactionStatus::Confirmed,
                logs: Vec::new(),
                events: Vec::new(),
                quantum_security_level: tx.get_security_level(),
            };
            receipts.push(receipt);
            i = i + 1;
        }
        BlockExecutionResult {
            height: self.header.height,
            receipts,
            state_root: Option::Some(HashDigest::zero()),
            logs: Vec::new(),
        }
    }

    /// Summary figures of the block: total gas used (saturating), the
    /// consensus fields, the encoded size, and the counts.
    pub fn get_metadata(&self) -> (r: BlockMetadata)
        ensures
            r.gas_used == spec_gas_used_sum(self.transactions@),
            r.gas_limit == self.consensus_data.gas_limit,
            r.total_difficulty == self.consensus_data.difficulty,
            r.transaction_count == self.transactions@.len(),
            r.validator_count == self.validator_set.validators@.len(),
            r.quantum_security_level == 3,
    {
        let mut gas_used: u64 = 0;
        let mut i: usize = 0;
        while i < self.transactions.len()
            invariant
                i <= self.transactions@.len(),
                gas_used == spec_gas_used_sum(self.transactions@.subrange(0, i as int)),
            decreases self.transactions@.len() - i,
        {
            let ghost prefix = self.transactions@.subrange(0, i as int);
            let g = self.transactions[i].gas_used;
            if gas_used <= u64::MAX - g {
                gas_used = gas_used + g;
            } else {
                gas_used = u64::MAX;
            }
            i = i + 1;
            proof {
                assert(self.transactions@.subrange(0, i as int).drop_last() =~= prefix);
                assert(self.transactions@.subrange(0, i as int).last() == self.transactions@[i
                    - 1]);
            }
        }
        assert(self.transactions@.subrange(0, self.transactions@.len() as int)
            =~= self.transactions@);
        let header_enc = self.encode_header();
        let mut size: usize = header_enc.len();
        let mut k: usize = 0;
        while k < self.transactions.len()
            invariant
                k <= self.transactions@.len(),
            decreases self.transactions@.len() - k,
        {
            let tx_enc = self.transactions[k].full_encode();
            size = if size <= usize::MAX - tx_enc.len() {
                size + tx_enc.len()
            } else {
                usize::MAX
            };
            k = k + 1;
        }
        BlockMetadata {
            gas_used,
            gas_limit: self.consensus_data.gas_limit,
            total_difficulty: self.consensus_data.difficulty,
            size,
            transaction_count: self.transactions.len(),
            validator_count: self.validator_set.validators.len(),
            quantum_security_level: 3,
        }
    }
}

/// Appends a digest's 32 bytes to `out`.
pub fn push_digest(out: &mut Vec<u8>, d: &HashDigest)
    ensures
        final(out)@ == old(out)@ + d@,
{
    let bytes = d.as_bytes();
    let mut i: usize = 0;
    while i < bytes.len()
        invariant
            i <= bytes@.len(),
            bytes@ == d@,
            out@ == old(out)@ + d@.subrange(0, i as int),
        decreases bytes@.len() - i,
    {
        out.push(bytes[i]);
        i = i + 1;
        assert(out@ =~= old(out)@ + d@.subrange(0, i as int));
    }
    assert(d@.subrange(0, d@.len() as int) =~= d@);
}

/// The number of signatures owed by a validator set of size `n`.
pub fn multisig_threshold(n: usize) -> (r: u128)
    ensures
        r == spec_multisig_threshold(n as int),
{
    ((n as u128) * 67 + 99) / 100
}

/// Creating a block and validating it: a block freshly built over a
/// non-empty transaction list, with a consistent validator set and a
/// timestamp not after the clock, passes every validation check.
pub proof fn lemma_new_block_validates(b: QuantumBlock, now: u64)
    requires
        b.header.version == 1,
        b.header.timestamp <= now,
        b.transactions@.len() > 0,
        b.quantum_random_beacon@.len() == 32,
        b.header.transactions_root@ == spec_transactions_root(b.transactions@),
        b.header.quantum_state_hash@ == blake3_of(spec_txs_payload(b.transactions@)),
        spec_validator_set_valid(b.validator_set),
        b.consensus_data.difficulty > 0,
        b.consensus_data.gas_limit > 0,
        b.signatures@.len() == 0,
    ensures
        spec_validate_block(b, now) == Result::<bool, BlockError>::Ok(true),
{
}

/// The transactions root is deterministic: two blocks built over the
/// same transaction list in the same order commit to the same root.
pub proof fn lemma_transactions_root_deterministic(
    txs1: Seq<QuantumTransaction>,
    txs2: Seq<QuantumTransaction>,
)
    requires
        txs1 == txs2,
    ensures
        spec_transactions_root(txs1) == spec_transactions_root(txs2),
{
}

} // verus!
