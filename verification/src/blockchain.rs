//! The blockchain: sequences, validates and persists blocks, routes
//! transactions to shards by the sender's address, and keeps the chain
//! state.
//!
//! The chain invariant: block heights start at zero and rise gaplessly
//! by one, and every block's parent hash equals the hash of the block
//! before it. Blocks that would break either rule are rejected.

use vstd::prelude::*;

use crate::block::{
    spec_block_hash, BlockError, BlockHeader, ConsensusData, QuantumBlock, ValidatorSet,
    spec_validate_block,
};
use crate::consensus::{spec_engine_validates, ConsensusConfig, QuantumFuseConsensus};
use crate::crypto::{blake3_hash, blake3_of, spec_zero_digest, HashDigest};
use crate::codec::{read_le_u64, spec_le_u64};
use crate::shard::{QuantumShard, ShardConfig};
use crate::state::{
    spec_ledger_view, spec_transfer_result, spec_view_apply, spec_view_transfer,
    QuantumStateManager, StateError,
};
use crate::transaction::{
    spec_signature_ok, spec_validate_basics, QuantumTransaction, TransactionError,
};

verus! {

/// Process-wide chain configuration, fixed at chain start.
pub struct BlockchainConfig {
    pub network_id: u64,
    pub chain_id: u64,
    pub version: String,
    pub block_time: u64,
    pub max_block_size: usize,
    pub max_transactions_per_block: usize,
    pub minimum_stake: u64,
    pub quantum_security_level: u8,
    pub shard_count: u64,
}

/// Running figures of the chain.
#[derive(Clone, Copy, PartialEq, Eq, Structural, Debug)]
pub struct ChainMetrics {
    pub block_count: u64,
    pub transaction_count: u64,
    pub last_block_time: u64,
    pub average_block_time: u64,
    pub total_gas_used: u64,
}

/// The live summary of the chain.
pub struct ChainState {
    pub block_height: u64,
    pub last_block_hash: HashDigest,
    pub state_root: HashDigest,
    pub validator_count: usize,
    pub timestamp: u64,
}

/// Chain-level failures, one variant per cause; block failures carry
/// the block check that failed.
#[derive(Clone, Copy, PartialEq, Eq, Structural, Debug)]
pub enum BlockchainError {
    InvalidBlock(BlockError),
    InvalidPreviousHash,
    InvalidHeight,
    ConsensusRejected,
    ShardNotFound,
    ShardOverloaded,
    InvalidTransaction(TransactionError),
    InvalidSignature,
    StateRejected(StateError),
}

/// The shard a sender address maps to: the first eight bytes of the
/// address digest, read as an integer, modulo the shard count. A pure
/// function of address and shard count.
pub open spec fn spec_shard_of(addr: Seq<char>, shard_count: u64) -> int
    recommends
        shard_count > 0,
{
    spec_le_u64(blake3_of(vstd::utf8::encode_utf8(addr))) as int % shard_count as int
}

/// Shard assignment is deterministic: the same sender address always
/// maps to the same shard for a fixed shard count.
pub proof fn lemma_shard_assignment_deterministic(a1: Seq<char>, a2: Seq<char>, shard_count: u64)
    requires
        a1 == a2,
    ensures
        spec_shard_of(a1, shard_count) == spec_shard_of(a2, shard_count),
{
}

/// The chain invariant: a genesis block at height zero, heights rising
/// gaplessly by one, and every block chained to the hash of its
/// predecessor.
pub open spec fn spec_chain_wf(blocks: Seq<QuantumBlock>) -> bool {
    &&& blocks.len() > 0
    &&& blocks[0].header.height == 0
    &&& forall|i: int| 0 <= i < blocks.len() ==> (#[trigger] blocks[i]).header.height == i
    &&& forall|i: int|
        0 < i < blocks.len() ==> (#[trigger] blocks[i]).header.prev_hash@ == spec_block_hash(
            blocks[i - 1],
        )
}

/// In a well-formed chain, every block's parent hash is the hash of
/// the block one height below it: heights are gapless and the links
/// match.
pub proof fn lemma_chain_links(blocks: Seq<QuantumBlock>, i: int)
    requires
        spec_chain_wf(blocks),
        0 < i < blocks.len(),
    ensures
        blocks[i].header.height == blocks[i - 1].header.height + 1,
        blocks[i].header.prev_hash@ == spec_block_hash(blocks[i - 1]),
{
}

/// The sum of the timestamp gaps between consecutive blocks; a clock
/// that ran backwards counts as a gap of zero.
pub open spec fn spec_time_gap(a: u64, b: u64) -> int {
    if b >= a {
        b - a
    } else {
        0
    }
}

/// The summed timestamp gaps over a chain.
pub open spec fn spec_block_time_sum(bs: Seq<QuantumBlock>) -> int
    decreases bs.len(),
{
    if bs.len() < 2 {
        0
    } else {
        spec_block_time_sum(bs.drop_last()) + spec_time_gap(
            bs[bs.len() - 2].header.timestamp,
            bs.last().header.timestamp,
        )
    }
}

/// The average gap between consecutive blocks, rounded down; zero for
/// a chain shorter than two blocks.
pub open spec fn spec_avg_block_time(bs: Seq<QuantumBlock>) -> int {
    if bs.len() < 2 {
        0
    } else {
        spec_block_time_sum(bs) / (bs.len() - 1)
    }
}

/// The blockchain.
pub struct QuantumBlockchain {
    pub blocks: Vec<QuantumBlock>,
    pub state_manager: QuantumStateManager,
    pub shards: Vec<QuantumShard>,
    pub consensus_engine: QuantumFuseConsensus,
    pub metrics: ChainMetrics,
    pub config: BlockchainConfig,
}

impl QuantumBlockchain {
    /// The chain is well formed: the chain invariant holds, the
    /// consensus engine is sound, shard `i` carries identifier `i` and
    /// respects its capacity, and the shard count matches the
    /// configuration.
    pub open spec fn wf(&self) -> bool {
        &&& spec_chain_wf(self.blocks@)
        &&& self.consensus_engine.wf()
        &&& self.shards@.len() == self.config.shard_count
        &&& forall|i: int|
            0 <= i < self.shards@.len() ==> (#[trigger] self.shards@[i]).wf()
                && self.shards@[i].shard_id == i
    }

    /// The genesis block: height zero, a zero parent hash, no
    /// transactions, stamped with the given time.
    pub fn create_genesis_block(now: u64) -> (r: QuantumBlock)
        ensures
            r.header.height == 0,
            r.header.version == 1,
            r.header.prev_hash@ == spec_zero_digest(),
            r.header.timestamp == now,
            r.transactions@.len() == 0,
            r.signatures@.len() == 0,
    {
        QuantumBlock {
            header: BlockHeader {
                version: 1,
                height: 0,
                prev_hash: HashDigest::zero(),
                timestamp: now,
                transactions_root: HashDigest::zero(),
                state_root: HashDigest::zero(),
                receipts_root: HashDigest::zero(),
                quantum_state_hash: HashDigest::zero(),
                validator_set_hash: HashDigest::zero(),
                beacon_randomness: HashDigest::zero(),
                extra_data: Vec::new(),
            },
            transactions: Vec::new(),
            consensus_data: ConsensusData { difficulty: 1, gas_limit: crate::block::DEFAULT_BLOCK_GAS_LIMIT, nonce: 0 },
            validator_set: ValidatorSet::new(),
            quantum_random_beacon: Vec::new(),
            signatures: Vec::new(),
        }
    }

    /// A fresh chain under the given configuration: a genesis block at
    /// height zero and one empty shard per configured shard slot.
    pub fn new(config: BlockchainConfig, consensus_config: ConsensusConfig, now: u64) -> (r:
        QuantumBlockchain)
        ensures
            r.wf(),
            r.blocks@.len() == 1,
            r.blocks@[0].header.height == 0,
            r.blocks@[0].header.prev_hash@ == spec_zero_digest(),
            r.blocks@[0].transactions@.len() == 0,
            r.shards@.len() == config.shard_count,
            r.metrics.block_count == 0,
            r.state_manager.wallets@.len() == 0,
    {
        let genesis = QuantumBlockchain::create_genesis_block(now);
        let shard_config = ShardConfig {
            min_shards: 1,
            max_shards: config.shard_count,
            target_load_milli: 750,
            reallocation_threshold_milli: 850,
            min_validators_per_shard: 1,
            quantum_security_threshold: config.quantum_security_level,
        };
        let mut shards: Vec<QuantumShard> = Vec::new();
        let mut id: u64 = 0;
        while id < config.shard_count
            invariant
                id <= config.shard_count,
                shards@.len() == id,
                forall|i: int|
                    0 <= i < shards@.len() ==> (#[trigger] shards@[i]).wf() && shards@[i].shard_id
                        == i,
                shard_config.max_shards == config.shard_count,
            decreases config.shard_count - id,
        {
            match QuantumShard::new(id, &shard_config, now) {
                Result::Ok(shard) => {
                    shards.push(shard);
                },
                Result::Err(_) => {
                    proof {
                        assert(false);
                    }
                },
            }
            id = id + 1;
        }
        let mut blocks: Vec<QuantumBlock> = Vec::new();
        blocks.push(genesis);
        QuantumBlockchain {
            blocks,
            state_manager: QuantumStateManager::new(now),
            shards,
            consensus_engine: QuantumFuseConsensus::new(consensus_config, now),
            metrics: ChainMetrics {
                block_count: 0,
                transaction_count: 0,
                last_block_time: now,
                average_block_time: 0,
                total_gas_used: 0,
            },
            config,
        }
    }

    /// The shard the address routes to. Fails exactly when the chain
    /// was configured without shards.
    pub fn calculate_shard_id(&self, address: &str) -> (r: Result<u64, BlockchainError>)
        ensures
            self.config.shard_count == 0 ==> r == Result::<u64, BlockchainError>::Err(
                BlockchainError::ShardNotFound,
            ),
            self.config.shard_count > 0 ==> (r matches Result::Ok(id) && id as int
                == spec_shard_of(address@, self.config.shard_count)),
    {
        if self.config.shard_count == 0 {
            return Result::Err(BlockchainError::ShardNotFound);
        }
        let digest = blake3_hash(address.as_bytes());
        let value = read_le_u64(digest.as_slice());
        Result::Ok(value % self.config.shard_count)
    }

    /// Verifies the transaction, routes it to its shard, and applies
    /// it to the state. Failures, in their fixed order: a structural
    /// or signature failure of the transaction itself; a missing
    /// shard; a full shard; a state rejection (unknown sender or
    /// insufficient funds). On success the transaction sits in its
    /// shard, the transfer is applied, and its hash is returned.
    /// The state is applied after the shard accepted the transaction,
    /// so a state rejection leaves the transaction buffered: the known
    /// atomicity gap of the design.
    #[verifier::rlimit(100)]
    #[verifier::spinoff_prover]
    pub fn process_transaction(
        &mut self,
        transaction: QuantumTransaction,
        sender_pk: &Vec<u8>,
        now: u64,
    ) -> (r: Result<HashDigest, BlockchainError>)
        requires
            old(self).wf(),
            sender_pk@.len() == crate::crypto::DILITHIUM_PK_LEN,
        ensures
            final(self).wf(),
            match spec_validate_basics(transaction, now) {
                Result::Err(e) => r == Result::<HashDigest, BlockchainError>::Err(
                    BlockchainError::InvalidTransaction(e),
                ) && *final(self) == *old(self),
                Result::Ok(_) => true,
            },
            (spec_validate_basics(transaction, now) is Ok && !spec_signature_ok(
                transaction,
                sender_pk@,
            )) ==> r == Result::<HashDigest, BlockchainError>::Err(
                BlockchainError::InvalidSignature,
            ) && *final(self) == *old(self),
            (spec_validate_basics(transaction, now) is Ok && spec_signature_ok(
                transaction,
                sender_pk@,
            ) && old(self).config.shard_count == 0) ==> r == Result::<
                HashDigest,
                BlockchainError,
            >::Err(BlockchainError::ShardNotFound) && *final(self) == *old(self),
            (spec_validate_basics(transaction, now) is Ok && spec_signature_ok(
                transaction,
                sender_pk@,
            ) && old(self).config.shard_count > 0 && old(self).shards@[spec_shard_of(
                transaction.from@,
                old(self).config.shard_count,
            )].transactions@.len() >= old(self).shards@[spec_shard_of(
                transaction.from@,
                old(self).config.shard_count,
            )].quantum_state.capacity) ==> r == Result::<HashDigest, BlockchainError>::Err(
                BlockchainError::ShardOverloaded,
            ) && final(self).shards@ == old(self).shards@ && final(self).state_manager == old(
                self,
            ).state_manager && final(self).metrics == old(self).metrics && final(self).consensus_engine == old(self).consensus_engine,
            (spec_validate_basics(transaction, now) is Ok && spec_signature_ok(
                transaction,
                sender_pk@,
            ) && old(self).config.shard_count > 0 && old(self).shards@[spec_shard_of(
                transaction.from@,
                old(self).config.shard_count,
            )].transactions@.len() < old(self).shards@[spec_shard_of(
                transaction.from@,
                old(self).config.shard_count,
            )].quantum_state.capacity && spec_view_transfer(
                spec_ledger_view(old(self).state_manager.wallets@),
                transaction.from@,
                transaction.to@,
                transaction.amount,
                transaction.fee,
            ) is Some) ==> r is Ok,
            r matches Result::Err(BlockchainError::StateRejected(e)) ==> spec_view_transfer(
                spec_ledger_view(old(self).state_manager.wallets@),
                transaction.from@,
                transaction.to@,
                transaction.amount,
                transaction.fee,
            ) is None && final(self).state_manager == old(self).state_manager,
            r matches Result::Ok(h) ==> h@ == transaction.hash@
                && spec_validate_basics(transaction, now) is Ok && spec_signature_ok(
                transaction,
                sender_pk@,
            ) && old(self).config.shard_count > 0 && spec_transfer_result(
                old(self).state_manager.wallets@,
                final(self).state_manager.wallets@,
                transaction.from@,
                transaction.to@,
                transaction.amount,
                transaction.fee,
            ) && spec_view_transfer(
                spec_ledger_view(old(self).state_manager.wallets@),
                transaction.from@,
                transaction.to@,
                transaction.amount,
                transaction.fee,
            ) == Option::Some(spec_ledger_view(final(self).state_manager.wallets@)) && final(self).shards@[spec_shard_of(
                transaction.from@,
                old(self).config.shard_count,
            )].transactions@.last() == transaction && final(self).shards@.len() == old(
                self,
            ).shards@.len() && (forall|k: int|
                0 <= k < old(self).shards@.len() && k != spec_shard_of(
                    transaction.from@,
                    old(self).config.shard_count,
                ) ==> (#[trigger] final(self).shards@[k]) == old(self).shards@[k]),
            final(self).blocks@ == old(self).blocks@,
    {
        match transaction.verify_at(sender_pk, now) {
            Result::Err(e) => {
                return Result::Err(BlockchainError::InvalidTransaction(e));
            },
            Result::Ok(false) => {
                return Result::Err(BlockchainError::InvalidSignature);
            },
            Result::Ok(true) => {},
        }
        let shard_id = match self.calculate_shard_id(transaction.from.as_str()) {
            Result::Ok(id) => id,
            Result::Err(e) => {
                return Result::Err(e);
            },
        };
        proof {
            assert(self.shards@.len() == self.config.shard_count);
            assert(shard_id < self.config.shard_count);
        }
        let idx = shard_id as usize;
        assert(idx < self.shards.len());
        let hash = transaction.hash.clone();
        let from = transaction.from.clone();
        let to = transaction.to.clone();
        let amount = transaction.amount;
        let fee = transaction.fee;
        let ghost before_shards = self.shards@;
        let mut shard = self.shards.remove(idx);
        let added = shard.add_transaction(transaction, now);
        self.shards.insert(idx, shard);
        proof {
            assert(self.shards@ =~= before_shards.update(idx as int, self.shards@[idx as int]));
        }
        match added {
            Result::Err(_) => {
                proof {
                    assert(self.shards@ =~= before_shards);
                }
                return Result::Err(BlockchainError::ShardOverloaded);
            },
            Result::Ok(_) => {},
        }
        match self.state_manager.apply_transfer(&from, &to, amount, fee) {
            Result::Err(e) => Result::Err(BlockchainError::StateRejected(e)),
            Result::Ok(_) => Result::Ok(hash),
        }
    }

    /// Validates and appends a block. Failures, in their fixed order:
    /// a height off by one (`InvalidHeight`); a parent hash that does
    /// not match the chain tip (`InvalidPreviousHash`); any failing
    /// block check, carried as `InvalidBlock`; the active consensus
    /// rule rejecting the block (`ConsensusRejected`); a transfer the
    /// state cannot apply (`StateRejected`; earlier transfers of the
    /// same block stay applied — the known atomicity gap). On success
    /// the block is appended, the chain invariant is preserved, and
    /// the metrics are advanced.
    #[verifier::rlimit(100)]
    #[verifier::spinoff_prover]
    pub fn add_block(&mut self, block: QuantumBlock, proposer: &String, now: u64) -> (r: Result<
        (),
        BlockchainError,
    >)
        requires
            old(self).wf(),
        ensures
            final(self).wf(),
            block.header.height != old(self).blocks@.len() ==> r == Result::<
                (),
                BlockchainError,
            >::Err(BlockchainError::InvalidHeight) && *final(self) == *old(self),
            block.header.height == old(self).blocks@.len() && block.header.prev_hash@
                != spec_block_hash(old(self).blocks@.last()) ==> r == Result::<
                (),
                BlockchainError,
            >::Err(BlockchainError::InvalidPreviousHash) && *final(self) == *old(self),
            block.header.height == old(self).blocks@.len() && block.header.prev_hash@
                == spec_block_hash(old(self).blocks@.last()) ==> (match spec_validate_block(
                block,
                now,
            ) {
                Result::Err(e) => r == Result::<(), BlockchainError>::Err(
                    BlockchainError::InvalidBlock(e),
                ) && *final(self) == *old(self),
                Result::Ok(_) => true,
            }),
            (block.header.height == old(self).blocks@.len() && block.header.prev_hash@
                == spec_block_hash(old(self).blocks@.last()) && spec_validate_block(block, now)
                is Ok && !spec_engine_validates(old(self).consensus_engine, block, proposer@))
                ==> r == Result::<(), BlockchainError>::Err(BlockchainError::ConsensusRejected)
                && final(self).blocks@ == old(self).blocks@ && final(self).state_manager == old(
                self,
            ).state_manager,
            (block.header.height == old(self).blocks@.len() && block.header.prev_hash@
                == spec_block_hash(old(self).blocks@.last()) && spec_validate_block(block, now)
                is Ok && spec_engine_validates(old(self).consensus_engine, block, proposer@)
                && spec_view_apply(
                spec_ledger_view(old(self).state_manager.wallets@),
                block.transactions@,
            ) is Some) ==> r is Ok,
            r matches Result::Err(BlockchainError::StateRejected(e)) ==> spec_view_apply(
                spec_ledger_view(old(self).state_manager.wallets@),
                block.transactions@,
            ) is None && final(self).blocks@ == old(self).blocks@,
            r is Ok ==> final(self).blocks@ == old(self).blocks@ + seq![block]
                && spec_validate_block(block, now) is Ok && spec_engine_validates(
                old(self).consensus_engine,
                block,
                proposer@,
            ) && spec_view_apply(
                spec_ledger_view(old(self).state_manager.wallets@),
                block.transactions@,
            ) == Option::Some(spec_ledger_view(final(self).state_manager.wallets@))
                && final(self).metrics.block_count as int == crate::consensus::spec_saturate_u64(
                old(self).metrics.block_count + 1,
            ) && final(self).metrics.transaction_count as int
                == crate::consensus::spec_saturate_u64(
                old(self).metrics.transaction_count + block.transactions@.len(),
            ) && final(self).metrics.total_gas_used as int == crate::consensus::spec_saturate_u64(
                old(self).metrics.total_gas_used + crate::block::spec_gas_used_sum(
                    block.transactions@,
                ),
            ) && final(self).metrics.last_block_time == block.header.timestamp
                && final(self).state_manager.state_root@ == crate::state::spec_state_root(
                final(self).state_manager.wallets@,
                old(self).state_manager.mempool@,
                old(self).state_manager.metrics,
            ) && final(self).state_manager.mempool@ == old(self).state_manager.mempool@
                && final(self).state_manager.metrics == old(self).state_manager.metrics
                && final(self).state_manager.block_height == block.header.height
                && final(self).state_manager.events@.len() == old(
                self,
            ).state_manager.events@.len() + 1 && (final(self).state_manager.events@.last()
                matches crate::state::StateEvent::NewBlock { height: h, block_hash: bh } && h
                == block.header.height && bh@ == spec_block_hash(block)),
    {
        if block.header.height != self.blocks.len() as u64 {
            return Result::Err(BlockchainError::InvalidHeight);
        }
        let last = &self.blocks[self.blocks.len() - 1];
        let tip_hash = last.block_hash();
        if !block.header.prev_hash.eq_digest(&tip_hash) {
            return Result::Err(BlockchainError::InvalidPreviousHash);
        }
        match block.validate_at(now) {
            Result::Err(e) => {
                return Result::Err(BlockchainError::InvalidBlock(e));
            },
            Result::Ok(_) => {},
        }
        match self.consensus_engine.validate_block(&block, proposer, now) {
            Result::Ok(true) => {},
            _ => {
                return Result::Err(BlockchainError::ConsensusRejected);
            },
        }
        match self.state_manager.apply_transfers(&block.transactions) {
            Result::Err(e) => {
                return Result::Err(BlockchainError::StateRejected(e));
            },
            Result::Ok(_) => {},
        }
        self.state_manager.update_state_root();
        let tip = block.block_hash();
        self.state_manager.record_new_block(block.header.height, tip);
        self.update_metrics(&block, now);
        let ghost before = self.blocks@;
        self.blocks.push(block);
        proof {
            assert(self.blocks@.drop_last() =~= before);
            assert forall|k: int| 0 <= k < self.blocks@.len() implies (
            #[trigger] self.blocks@[k]).header.height == k by {
                if k < before.len() {
                    assert(self.blocks@[k] == before[k]);
                }
            }
            assert forall|k: int| 0 < k < self.blocks@.len() implies (
            #[trigger] self.blocks@[k]).header.prev_hash@ == spec_block_hash(
                self.blocks@[k - 1],
            ) by {
                if k < before.len() {
                    assert(self.blocks@[k] == before[k]);
                    assert(self.blocks@[k - 1] == before[k - 1]);
                }
            }
        }
        Result::Ok(())
    }

    /// Advances the chain metrics for one accepted block: counters
    /// saturate at the integer limit, the rolling average block time
    /// is recomputed over the chain including the new block's stamp.
    fn update_metrics(&mut self, block: &QuantumBlock, now: u64)
        ensures
            final(self).metrics.block_count as int == crate::consensus::spec_saturate_u64(
                old(self).metrics.block_count + 1,
            ),
            final(self).metrics.transaction_count as int == crate::consensus::spec_saturate_u64(
                old(self).metrics.transaction_count + block.transactions@.len(),
            ),
            final(self).metrics.last_block_time == block.header.timestamp,
            final(self).metrics.total_gas_used as int == crate::consensus::spec_saturate_u64(
                old(self).metrics.total_gas_used + crate::block::spec_gas_used_sum(
                    block.transactions@,
                ),
            ),
            final(self).blocks@ == old(self).blocks@,
            final(self).shards@ == old(self).shards@,
            final(self).state_manager == old(self).state_manager,
            final(self).consensus_engine == old(self).consensus_engine,
            final(self).config == old(self).config,
    {
        let meta = block.get_metadata();
        self.metrics.block_count = if self.metrics.block_count < u64::MAX {
            self.metrics.block_count + 1
        } else {
            u64::MAX
        };
        let txs = block.transactions.len() as u64;
        self.metrics.transaction_count = if self.metrics.transaction_count <= u64::MAX - txs {
            self.metrics.transaction_count + txs
        } else {
            u64::MAX
        };
        self.metrics.last_block_time = block.header.timestamp;
        self.metrics.total_gas_used = if self.metrics.total_gas_used <= u64::MAX - meta.gas_used {
            self.metrics.total_gas_used + meta.gas_used
        } else {
            u64::MAX
        };
        let avg = self.calculate_average_block_time();
        self.metrics.average_block_time = avg;
    }

    /// The average timestamp gap between consecutive blocks, rounded
    /// down; zero while the chain holds fewer than two blocks.
    pub fn calculate_average_block_time(&self) -> (r: u64)
        ensures
            r as int == spec_avg_block_time(self.blocks@),
    {
        let n = self.blocks.len();
        if n < 2 {
            return 0;
        }
        let mut total: u128 = 0;
        let mut i: usize = 1;
        while i < n
            invariant
                n == self.blocks@.len(),
                2 <= n,
                1 <= i <= n,
                total == spec_block_time_sum(self.blocks@.subrange(0, i as int)),
                total <= ((i - 1) as int) * (u64::MAX as int),
            decreases n - i,
        {
            let ghost prefix = self.blocks@.subrange(0, i as int);
            let a = self.blocks[i - 1].header.timestamp;
            let b = self.blocks[i].header.timestamp;
            let gap: u64 = if b >= a {
                b - a
            } else {
                0
            };
            proof {
                assert(((i - 1) as int) * (u64::MAX as int) + (u64::MAX as int) == (i as int) * (
                u64::MAX as int)) by (nonlinear_arith);
                assert((i as int) * (u64::MAX as int) <= u128::MAX) by (nonlinear_arith)
                    requires
                        0 <= i,
                        i <= usize::MAX,
                ;
            }
            total = total + (gap as u128);
            i = i + 1;
            proof {
                let sub = self.blocks@.subrange(0, i as int);
                assert(sub.drop_last() =~= prefix);
                assert(sub.last() == self.blocks@[i - 1]);
                assert(sub[sub.len() - 2] == self.blocks@[i - 2]);
            }
        }
        assert(self.blocks@.subrange(0, n as int) =~= self.blocks@);
        let avg: u128 = total / ((n - 1) as u128);
        proof {
            vstd::arithmetic::div_mod::lemma_div_is_ordered(
                total as int,
                ((n - 1) as int) * (u64::MAX as int),
                (n - 1) as int,
            );
            vstd::arithmetic::div_mod::lemma_div_multiples_vanish(
                u64::MAX as int,
                (n - 1) as int,
            );
            vstd::arithmetic::mul::lemma_mul_is_commutative((n - 1) as int, u64::MAX as int);
        }
        avg as u64
    }

    /// The live summary: latest height, tip hash, state root,
    /// validator count, stamped with the given time.
    pub fn get_chain_state(&self, now: u64) -> (r: ChainState)
        requires
            self.wf(),
        ensures
            r.block_height == self.blocks@.len() - 1,
            r.last_block_hash@ == spec_block_hash(self.blocks@.last()),
            r.state_root@ == self.state_manager.state_root@,
            r.validator_count == self.consensus_engine.qpos.validators@.len(),
            r.timestamp == now,
    {
        let tip = &self.blocks[self.blocks.len() - 1];
        ChainState {
            block_height: (self.blocks.len() - 1) as u64,
            last_block_hash: tip.block_hash(),
            state_root: self.state_manager.state_root.clone(),
            validator_count: self.consensus_engine.qpos.validators.len(),
            timestamp: now,
        }
    }

    /// The hash of the chain tip.
    pub fn tip_hash(&self) -> (r: HashDigest)
        requires
            self.wf(),
        ensures
            r@ == spec_block_hash(self.blocks@.last()),
    {
        self.blocks[self.blocks.len() - 1].block_hash()
    }

    /// The height the next block must carry.
    pub fn next_height(&self) -> (r: u64)
        requires
            self.wf(),
            self.blocks@.len() <= u64::MAX,
        ensures
            r == self.blocks@.len(),
    {
        self.blocks.len() as u64
    }
}

} // verus!
