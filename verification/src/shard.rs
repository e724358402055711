//! Shards: partitions of the transaction space, each with its own
//! Merkle root, load factor and cross-shard links.
//!
//! A shard never holds more transactions than its capacity: a full
//! shard rejects new transactions with a capacity error instead of
//! dropping them, and every acceptance recomputes the Merkle root and
//! the metrics.

use vstd::prelude::*;
use vstd::multiset::Multiset;

use crate::block::{spec_txs_payload, QuantumBlock};
use crate::crypto::{blake3_of, dilithium_keypair, HashDigest, DILITHIUM_SIG_LEN};
use crate::crypto::dilithium_sign as dilithium_sign_bytes;
use crate::transaction::QuantumTransaction;

verus! {

/// Transactions a freshly created shard can hold.
pub const DEFAULT_SHARD_CAPACITY: usize = 1000000;

/// Configuration of the shard layer.
#[derive(Clone, Copy, PartialEq, Eq, Structural, Debug)]
pub struct ShardConfig {
    pub min_shards: u64,
    pub max_shards: u64,
    pub target_load_milli: u64,
    pub reallocation_threshold_milli: u64,
    pub min_validators_per_shard: usize,
    pub quantum_security_threshold: u8,
}

/// Shard-level failures, one variant per cause.
#[derive(Clone, Copy, PartialEq, Eq, Structural, Debug)]
pub enum ShardError {
    InvalidShardId,
    ShardOverloaded,
    InvalidTransaction,
}

/// Running figures of one shard.
#[derive(Clone, Copy, PartialEq, Eq, Structural, Debug)]
pub struct ShardMetrics {
    pub transaction_count: usize,
    pub cross_shard_links: usize,
    pub load_factor_milli: u64,
    pub validator_count: usize,
    pub last_updated: u64,
}

/// The commitment state of one shard.
pub struct QuantumShardState {
    pub capacity: usize,
    pub load_factor_milli: u64,
    pub quantum_security_level: u8,
    pub merkle_root: HashDigest,
}

/// A signed reference from one shard to a transaction of another.
pub struct CrossShardLink {
    pub source_shard_id: u64,
    pub target_shard_id: u64,
    pub transaction_hash: HashDigest,
    pub timestamp: u64,
    pub quantum_proof: Vec<u8>,
}

/// One shard: its buffered transactions, validator subset, cross-shard
/// links and commitment state.
pub struct QuantumShard {
    pub shard_id: u64,
    pub parent_shard_id: Option<u64>,
    pub transactions: Vec<QuantumTransaction>,
    pub state_root: HashDigest,
    pub created_at: u64,
    pub last_updated: u64,
    pub metrics: ShardMetrics,
    pub validators: Vec<String>,
    pub cross_links: Vec<CrossShardLink>,
    pub quantum_state: QuantumShardState,
}

/// The load of `count` transactions against a capacity, in parts per
/// thousand.
pub open spec fn spec_load_milli(count: int, capacity: int) -> int
    recommends
        capacity > 0,
{
    count * 1000 / capacity
}

impl QuantumShard {
    /// A shard is well formed when it has a positive capacity and
    /// never holds more transactions than it.
    pub open spec fn wf(&self) -> bool {
        &&& self.quantum_state.capacity > 0
        &&& self.transactions@.len() <= self.quantum_state.capacity
    }

    /// A fresh, empty shard. Fails exactly when the asked identifier
    /// lies outside the configured shard range.
    pub fn new(shard_id: u64, config: &ShardConfig, now: u64) -> (r: Result<
        QuantumShard,
        ShardError,
    >)
        ensures
            shard_id >= config.max_shards ==> r == Result::<QuantumShard, ShardError>::Err(
                ShardError::InvalidShardId,
            ),
            shard_id < config.max_shards ==> (r matches Result::Ok(s) && s.shard_id == shard_id
                && s.transactions@.len() == 0 && s.validators@.len() == 0
                && s.cross_links@.len() == 0 && (s.parent_shard_id is None)
                && s.metrics.transaction_count == 0 && s.metrics.load_factor_milli == 0
                && s.quantum_state.load_factor_milli == 0 && s.quantum_state.merkle_root@
                == crate::crypto::spec_zero_digest() && s.state_root@
                == crate::crypto::spec_zero_digest() && s.quantum_state.capacity
                == DEFAULT_SHARD_CAPACITY && s.created_at == now && s.wf()),
    {
        if shard_id >= config.max_shards {
            return Result::Err(ShardError::InvalidShardId);
        }
        Result::Ok(
            QuantumShard {
                shard_id,
                parent_shard_id: Option::None,
                transactions: Vec::new(),
                state_root: HashDigest::zero(),
                created_at: now,
                last_updated: now,
                metrics: ShardMetrics {
                    transaction_count: 0,
                    cross_shard_links: 0,
                    load_factor_milli: 0,
                    validator_count: 0,
                    last_updated: now,
                },
                validators: Vec::new(),
                cross_links: Vec::new(),
                quantum_state: QuantumShardState {
                    capacity: DEFAULT_SHARD_CAPACITY,
                    load_factor_milli: 0,
                    quantum_security_level: 3,
                    merkle_root: HashDigest::zero(),
                },
            },
        )
    }

    /// Whether the shard is at capacity.
    pub fn is_overloaded(&self) -> (r: bool)
        ensures
            r == (self.transactions@.len() >= self.quantum_state.capacity),
    {
        self.transactions.len() >= self.quantum_state.capacity
    }

    /// Accepts a transaction unless the shard is full: a full shard
    /// answers with the capacity error and stays as it was. On
    /// acceptance the transaction is appended and the Merkle root,
    /// load factor and metrics are recomputed.
    pub fn add_transaction(&mut self, transaction: QuantumTransaction, now: u64) -> (r: Result<
        (),
        ShardError,
    >)
        requires
            old(self).wf(),
        ensures
            final(self).wf(),
            old(self).transactions@.len() >= old(self).quantum_state.capacity ==> r == Result::<
                (),
                ShardError,
            >::Err(ShardError::ShardOverloaded) && *final(self) == *old(self),
            old(self).transactions@.len() < old(self).quantum_state.capacity ==> (r is Ok
                && final(self).transactions@ == old(self).transactions@ + seq![transaction]
                && final(self).quantum_state.merkle_root@ == blake3_of(
                spec_txs_payload(final(self).transactions@),
            ) && final(self).quantum_state.load_factor_milli as int == spec_load_milli(
                final(self).transactions@.len() as int,
                old(self).quantum_state.capacity as int,
            ) && final(self).metrics.transaction_count == final(self).transactions@.len()
                && final(self).last_updated == now && final(self).quantum_state.capacity == old(self).quantum_state.capacity),
            final(self).shard_id == old(self).shard_id,
            final(self).cross_links@ == old(self).cross_links@,
    {
        if self.transactions.len() >= self.quantum_state.capacity {
            return Result::Err(ShardError::ShardOverloaded);
        }
        self.transactions.push(transaction);
        self.update_metrics(now);
        self.update_quantum_state(now);
        Result::Ok(())
    }

    /// Recomputes the shard's running figures from its contents.
    pub fn update_metrics(&mut self, now: u64)
        requires
            old(self).wf(),
        ensures
            final(self).metrics.transaction_count == old(self).transactions@.len(),
            final(self).metrics.cross_shard_links == old(self).cross_links@.len(),
            final(self).metrics.load_factor_milli as int == spec_load_milli(
                old(self).transactions@.len() as int,
                old(self).quantum_state.capacity as int,
            ),
            final(self).metrics.validator_count == old(self).validators@.len(),
            final(self).metrics.last_updated == now,
            final(self).transactions@ == old(self).transactions@,
            final(self).cross_links@ == old(self).cross_links@,
            final(self).quantum_state == old(self).quantum_state,
            final(self).validators@ == old(self).validators@,
            final(self).shard_id == old(self).shard_id,
            final(self).last_updated == old(self).last_updated,
            final(self).state_root == old(self).state_root,
            final(self).parent_shard_id == old(self).parent_shard_id,
            final(self).created_at == old(self).created_at,
    {
        let count = self.transactions.len();
        let capacity = self.quantum_state.capacity;
        assert((count as u128) * 1000 <= u128::MAX) by (nonlinear_arith)
            requires
                count <= usize::MAX,
        ;
        let load_wide: u128 = (count as u128) * 1000u128 / (capacity as u128);
        proof {
            vstd::arithmetic::mul::lemma_mul_inequality(count as int, capacity as int, 1000int);
            vstd::arithmetic::div_mod::lemma_div_is_ordered(
                (count as int) * 1000,
                (capacity as int) * 1000,
                capacity as int,
            );
            vstd::arithmetic::div_mod::lemma_div_multiples_vanish(1000int, capacity as int);
            vstd::arithmetic::mul::lemma_mul_is_commutative(capacity as int, 1000int);
            assert(spec_load_milli(count as int, capacity as int) <= 1000);
            vstd::arithmetic::div_mod::lemma_div_pos_is_pos((count as int) * 1000, capacity as int);
        }
        let load: u64 = load_wide as u64;
        self.metrics = ShardMetrics {
            transaction_count: count,
            cross_shard_links: self.cross_links.len(),
            load_factor_milli: load,
            validator_count: self.validators.len(),
            last_updated: now,
        };
    }

    /// Recomputes the Merkle root and load factor of the commitment
    /// state from the buffered transactions.
    pub fn update_quantum_state(&mut self, now: u64)
        ensures
            final(self).quantum_state.merkle_root@ == blake3_of(
                spec_txs_payload(old(self).transactions@),
            ),
            final(self).quantum_state.load_factor_milli == old(self).metrics.load_factor_milli,
            final(self).quantum_state.capacity == old(self).quantum_state.capacity,
            final(self).quantum_state.quantum_security_level == old(self).quantum_state.quantum_security_level,
            final(self).last_updated == now,
            final(self).transactions@ == old(self).transactions@,
            final(self).cross_links@ == old(self).cross_links@,
            final(self).metrics == old(self).metrics,
            final(self).shard_id == old(self).shard_id,
            final(self).validators@ == old(self).validators@,
            final(self).state_root == old(self).state_root,
            final(self).parent_shard_id == old(self).parent_shard_id,
            final(self).created_at == old(self).created_at,
    {
        let merkle_root = self.calculate_merkle_root();
        self.quantum_state.merkle_root = merkle_root;
        self.quantum_state.load_factor_milli = self.metrics.load_factor_milli;
        self.last_updated = now;
    }

    /// The digest of the concatenated encodings of the buffered
    /// transactions.
    pub fn calculate_merkle_root(&self) -> (r: HashDigest)
        ensures
            r@ == blake3_of(spec_txs_payload(self.transactions@)),
            r.wf(),
    {
        QuantumBlock::compute_quantum_state_hash(&self.transactions)
    }

    /// Records a signed link to a transaction handed to another shard:
    /// the proof is a Dilithium signature over the transaction's hash
    /// under a key pair freshly drawn for the link.
    pub fn create_cross_shard_link(
        &mut self,
        target_shard_id: u64,
        transaction: &QuantumTransaction,
        now: u64,
    ) -> (r: CrossShardLink)
        ensures
            r.source_shard_id == old(self).shard_id,
            r.target_shard_id == target_shard_id,
            r.transaction_hash@ == transaction.hash@,
            r.timestamp == now,
            r.quantum_proof@.len() == DILITHIUM_SIG_LEN,
            final(self).cross_links@.len() == old(self).cross_links@.len() + 1,
            final(self).cross_links@.last().source_shard_id == r.source_shard_id,
            final(self).cross_links@.last().target_shard_id == r.target_shard_id,
            final(self).cross_links@.last().transaction_hash@ == r.transaction_hash@,
            final(self).cross_links@.last().timestamp == r.timestamp,
            final(self).cross_links@.last().quantum_proof@ == r.quantum_proof@,
            final(self).transactions@ == old(self).transactions@,
            final(self).shard_id == old(self).shard_id,
    {
        let (_, sk) = dilithium_keypair();
        let quantum_proof = dilithium_sign_bytes(transaction.hash.as_bytes().as_slice(), &sk);
        let link = CrossShardLink {
            source_shard_id: self.shard_id,
            target_shard_id,
            transaction_hash: transaction.hash.clone(),
            timestamp: now,
            quantum_proof,
        };
        let copy = CrossShardLink {
            source_shard_id: link.source_shard_id,
            target_shard_id: link.target_shard_id,
            transaction_hash: link.transaction_hash.clone(),
            timestamp: link.timestamp,
            quantum_proof: crate::clone_u8(&link.quantum_proof),
        };
        self.cross_links.push(copy);
        link
    }

    /// Whether the linked transaction is actually buffered here: true
    /// exactly when some buffered transaction carries the link's hash.
    pub fn verify_cross_shard_link(&self, link: &CrossShardLink) -> (r: bool)
        ensures
            r == exists|i: int|
                0 <= i < self.transactions@.len() && (#[trigger] self.transactions@[i]).hash@
                    == link.transaction_hash@,
    {
        let mut i: usize = 0;
        while i < self.transactions.len()
            invariant
                i <= self.transactions@.len(),
                forall|k: int|
                    0 <= k < i ==> !((#[trigger] self.transactions@[k]).hash@
                        == link.transaction_hash@),
            decreases self.transactions@.len() - i,
        {
            if self.transactions[i].hash.eq_digest(&link.transaction_hash) {
                return true;
            }
            i = i + 1;
        }
        false
    }

    /// A shard never holds more transactions than its capacity: the
    /// well-formedness carried through every operation, stated on its
    /// own.
    pub proof fn lemma_load_never_exceeds_capacity(&self)
        requires
            self.wf(),
        ensures
            self.transactions@.len() <= self.quantum_state.capacity,
    {
    }
}

/// The shard allocator: owns the shards and rebalances them when the
/// global load factor crosses the configured threshold.
pub struct ShardAllocator {
    pub shards: Vec<QuantumShard>,
    pub metrics: ShardMetrics,
    pub config: ShardConfig,
}

/// The total number of buffered transactions across the shards.
pub open spec fn spec_total_buffered(shards: Seq<QuantumShard>) -> int
    decreases shards.len(),
{
    if shards.len() == 0 {
        0
    } else {
        spec_total_buffered(shards.drop_last()) + shards.last().transactions@.len()
    }
}

/// Replacing one shard changes the total by the difference of that
/// shard's buffer length.
proof fn lemma_total_buffered_update(shards: Seq<QuantumShard>, i: int, s: QuantumShard)
    requires
        0 <= i < shards.len(),
    ensures
        spec_total_buffered(shards.update(i, s)) == spec_total_buffered(shards) + s.transactions@.len() - shards[i].transactions@.len(),
    decreases shards.len(),
{
    broadcast use vstd::multiset::group_multiset_axioms;

    if i == shards.len() - 1 {
        assert(shards.update(i, s).drop_last() =~= shards.drop_last());
        assert(shards.update(i, s).last() == s);
    } else {
        lemma_total_buffered_update(shards.drop_last(), i, s);
        assert(shards.update(i, s).drop_last() =~= shards.drop_last().update(i, s));
        assert(shards.update(i, s).last() == shards.last());
    }
}

/// Every transaction buffered across the shards, as a multiset: what
/// a rebalance must neither lose nor duplicate.
pub open spec fn spec_buffered_multiset(shards: Seq<QuantumShard>) -> Multiset<
    QuantumTransaction,
>
    decreases shards.len(),
{
    if shards.len() == 0 {
        Multiset::<QuantumTransaction>::empty()
    } else {
        spec_buffered_multiset(shards.drop_last()).add(
            shards.last().transactions@.to_multiset(),
        )
    }
}

/// Replacing one shard exchanges exactly its buffer in the total
/// multiset.
proof fn lemma_buffered_multiset_update(shards: Seq<QuantumShard>, i: int, s: QuantumShard)
    requires
        0 <= i < shards.len(),
    ensures
        spec_buffered_multiset(shards.update(i, s)).add(shards[i].transactions@.to_multiset())
            =~= spec_buffered_multiset(shards).add(s.transactions@.to_multiset()),
    decreases shards.len(),
{
    broadcast use vstd::multiset::group_multiset_axioms;

    if i == shards.len() - 1 {
        assert(shards.update(i, s).drop_last() =~= shards.drop_last());
        assert(shards.update(i, s).last() == s);
        assert(spec_buffered_multiset(shards.update(i, s)).add(
            shards[i].transactions@.to_multiset(),
        ) =~= spec_buffered_multiset(shards).add(s.transactions@.to_multiset()));
    } else {
        lemma_buffered_multiset_update(shards.drop_last(), i, s);
        assert(shards.update(i, s).drop_last() =~= shards.drop_last().update(i, s));
        assert(shards.update(i, s).last() == shards.last());
        assert(shards.drop_last()[i] == shards[i]);
        let dl = shards.drop_last();
        assert forall|x: QuantumTransaction|
            spec_buffered_multiset(shards.update(i, s)).add(
                shards[i].transactions@.to_multiset(),
            ).count(x) == spec_buffered_multiset(shards).add(
                s.transactions@.to_multiset(),
            ).count(x) by {
            assert(spec_buffered_multiset(dl.update(i, s)).add(
                dl[i].transactions@.to_multiset(),
            ).count(x) == spec_buffered_multiset(dl).add(s.transactions@.to_multiset()).count(
                x,
            ));
        }
        assert(spec_buffered_multiset(shards.update(i, s)).add(
            shards[i].transactions@.to_multiset(),
        ) =~= spec_buffered_multiset(shards).add(s.transactions@.to_multiset()));
    }
}

impl ShardAllocator {
    /// Every shard is well formed.
    pub open spec fn wf(&self) -> bool {
        forall|i: int| 0 <= i < self.shards@.len() ==> (#[trigger] self.shards@[i]).wf()
    }

    /// A fresh allocator with no shards.
    pub fn new(config: ShardConfig) -> (r: ShardAllocator)
        ensures
            r.shards@.len() == 0,
            r.config == config,
            r.wf(),
    {
        ShardAllocator {
            shards: Vec::new(),
            metrics: ShardMetrics {
                transaction_count: 0,
                cross_shard_links: 0,
                load_factor_milli: 0,
                validator_count: 0,
                last_updated: 0,
            },
            config,
        }
    }

    /// Creates the next shard, numbered consecutively. Fails exactly
    /// when the configured shard bound is reached.
    pub fn add_shard(&mut self, now: u64) -> (r: Result<u64, ShardError>)
        requires
            old(self).wf(),
        ensures
            final(self).wf(),
            old(self).shards@.len() >= old(self).config.max_shards ==> r == Result::<
                u64,
                ShardError,
            >::Err(ShardError::InvalidShardId) && *final(self) == *old(self),
            old(self).shards@.len() < old(self).config.max_shards ==> (r matches Result::Ok(id)
                && id == old(self).shards@.len() && final(self).shards@.len() == old(self).shards@.len() + 1 && final(self).shards@.last().shard_id == id && final(self).shards@.last().transactions@.len() == 0 && final(self).shards@.subrange(
                0,
                old(self).shards@.len() as int,
            ) == old(self).shards@),
    {
        let id = self.shards.len() as u64;
        if id >= self.config.max_shards {
            return Result::Err(ShardError::InvalidShardId);
        }
        match QuantumShard::new(id, &self.config, now) {
            Result::Ok(shard) => {
                self.shards.push(shard);
                assert(self.shards@.subrange(0, old(self).shards@.len() as int) =~= old(self).shards@);
                Result::Ok(id)
            },
            Result::Err(e) => Result::Err(e),
        }
    }

    /// Whether the observed global load asks for a rebalance.
    pub fn should_reallocate(&self, metrics: &ShardMetrics) -> (r: bool)
        ensures
            r == (metrics.load_factor_milli > self.config.reallocation_threshold_milli),
    {
        metrics.load_factor_milli > self.config.reallocation_threshold_milli
    }

    /// The shard a transaction is best placed in: the first shard with
    /// the fewest cross-shard links.
    pub fn find_optimal_shard(&self) -> (r: usize)
        requires
            self.shards@.len() > 0,
        ensures
            r < self.shards@.len(),
            forall|k: int|
                0 <= k < self.shards@.len() ==> self.shards@[r as int].cross_links@.len() <= (
                #[trigger] self.shards@[k]).cross_links@.len(),
            forall|k: int|
                0 <= k < r ==> (#[trigger] self.shards@[k]).cross_links@.len()
                    > self.shards@[r as int].cross_links@.len(),
    {
        let mut best: usize = 0;
        let mut best_links: usize = self.shards[0].cross_links.len();
        let mut i: usize = 1;
        while i < self.shards.len()
            invariant
                self.shards@.len() > 0,
                best < i,
                i <= self.shards@.len(),
                best_links == self.shards@[best as int].cross_links@.len(),
                forall|k: int|
                    0 <= k < i ==> best_links <= (#[trigger] self.shards@[k]).cross_links@.len(),
                forall|k: int|
                    0 <= k < best ==> (#[trigger] self.shards@[k]).cross_links@.len() > best_links,
            decreases self.shards@.len() - i,
        {
            if self.shards[i].cross_links.len() < best_links {
                best = i;
                best_links = self.shards[i].cross_links.len();
            }
            i = i + 1;
        }
        best
    }

    /// Best-effort rebalance, triggered only above the configured
    /// threshold: transactions move from the other shards into the
    /// shard with the fewest cross-shard links, as long as it has
    /// room. No transaction is created, lost or duplicated: the
    /// buffered transactions form the same multiset before and after,
    /// only the target shard gains, and every other shard keeps a
    /// prefix of what it had. This is a logical rebalance of the
    /// in-memory buffers, not a cryptographic state migration.
    pub fn optimize_shard_allocation(&mut self, now: u64) -> (r: Result<(), ShardError>)
        requires
            old(self).wf(),
        ensures
            final(self).wf(),
            r is Ok,
            final(self).shards@.len() == old(self).shards@.len(),
            spec_total_buffered(final(self).shards@) == spec_total_buffered(old(self).shards@),
            spec_buffered_multiset(final(self).shards@) == spec_buffered_multiset(
                old(self).shards@,
            ),
            old(self).metrics.load_factor_milli
                <= old(self).config.reallocation_threshold_milli ==> *final(self) == *old(self),
            (old(self).metrics.load_factor_milli > old(self).config.reallocation_threshold_milli
                && old(self).shards@.len() > 0) ==> (exists|t: int|
                0 <= t < old(self).shards@.len() && (forall|j: int|
                    0 <= j < old(self).shards@.len() ==> old(self).shards@[t].cross_links@.len() <= (
                    #[trigger] old(self).shards@[j]).cross_links@.len()) && final(self).shards@[t].transactions@.len() >= old(self).shards@[t].transactions@.len() && (
                forall|j: int|
                    0 <= j < old(self).shards@.len() && j != t ==> (#[trigger] final(self).shards@[j]).transactions@.len() <= old(self).shards@[j].transactions@.len())),
    {
        let threshold_crossed = self.metrics.load_factor_milli
            > self.config.reallocation_threshold_milli;
        if !threshold_crossed {
            return Result::Ok(());
        }
        if self.shards.len() == 0 {
            return Result::Ok(());
        }
        let target = self.find_optimal_shard();
        let n = self.shards.len();
        let mut k: usize = 0;
        while k < n
            invariant
                old(self).wf(),
                n == self.shards@.len(),
                n == old(self).shards@.len(),
                k <= n,
                target < n,
                self.wf(),
                spec_total_buffered(self.shards@) == spec_total_buffered(old(self).shards@),
                spec_buffered_multiset(self.shards@) == spec_buffered_multiset(
                    old(self).shards@,
                ),
                self.config == old(self).config,
                forall|j: int|
                    0 <= j < n ==> old(self).shards@[target as int].cross_links@.len() <= (
                    #[trigger] old(self).shards@[j]).cross_links@.len(),
                self.shards@[target as int].transactions@.len() >= old(self).shards@[target as int].transactions@.len(),
                forall|j: int|
                    0 <= j < n && j != target ==> (#[trigger] self.shards@[j]).transactions@.len()
                        <= old(self).shards@[j].transactions@.len(),
            decreases n - k,
        {
            if k != target {
                self.move_buffer(k, target, now);
            }
            k = k + 1;
        }
        Result::Ok(())
    }

    /// Moves transactions from shard `from` into shard `to` while the
    /// target has room. The total buffered count is unchanged.
    fn move_buffer(&mut self, from: usize, to: usize, now: u64)
        requires
            old(self).wf(),
            from < old(self).shards@.len(),
            to < old(self).shards@.len(),
            from != to,
        ensures
            final(self).wf(),
            final(self).shards@.len() == old(self).shards@.len(),
            spec_total_buffered(final(self).shards@) == spec_total_buffered(old(self).shards@),
            spec_buffered_multiset(final(self).shards@) == spec_buffered_multiset(
                old(self).shards@,
            ),
            forall|k: int|
                0 <= k < final(self).shards@.len() && k != from && k != to ==> (#[trigger] final(self).shards@[k]) == old(self).shards@[k],
            final(self).shards@[from as int].transactions@.len() <= old(self).shards@[from as int].transactions@.len(),
            final(self).shards@[from as int].transactions@ == old(self).shards@[from as int].transactions@.subrange(
                0,
                final(self).shards@[from as int].transactions@.len() as int,
            ),
            final(self).shards@[to as int].transactions@.len() >= old(self).shards@[to as int].transactions@.len(),
            final(self).shards@[to as int].transactions@.subrange(
                0,
                old(self).shards@[to as int].transactions@.len() as int,
            ) == old(self).shards@[to as int].transactions@,
            final(self).shards@[from as int].cross_links@ == old(self).shards@[from as int].cross_links@,
            final(self).shards@[to as int].cross_links@ == old(self).shards@[to as int].cross_links@,
            final(self).config == old(self).config,
    {
        let ghost orig_total = spec_total_buffered(self.shards@);
        let ghost orig_ms = spec_buffered_multiset(self.shards@);
        let mut moved: bool = true;
        while moved
            invariant
                from < self.shards@.len(),
                to < self.shards@.len(),
                from != to,
                self.shards@.len() == old(self).shards@.len(),
                self.wf(),
                spec_total_buffered(self.shards@) == orig_total,
                orig_ms == spec_buffered_multiset(old(self).shards@),
                spec_buffered_multiset(self.shards@) == orig_ms,
                forall|k: int|
                    0 <= k < self.shards@.len() && k != from && k != to
                        ==> (#[trigger] self.shards@[k]) == old(self).shards@[k],
                self.shards@[from as int].transactions@.len() <= old(self).shards@[from as int].transactions@.len(),
                self.shards@[from as int].transactions@ == old(self).shards@[from as int].transactions@.subrange(
                    0,
                    self.shards@[from as int].transactions@.len() as int,
                ),
                self.shards@[to as int].transactions@.len() >= old(self).shards@[to as int].transactions@.len(),
                self.shards@[to as int].transactions@.subrange(
                    0,
                    old(self).shards@[to as int].transactions@.len() as int,
                ) == old(self).shards@[to as int].transactions@,
                self.shards@[from as int].cross_links@ == old(self).shards@[from as int].cross_links@,
                self.shards@[to as int].cross_links@ == old(self).shards@[to as int].cross_links@,
                self.config == old(self).config,
            decreases self.shards@[from as int].transactions@.len() + (if moved {
                1int
            } else {
                0int
            }),
        {
            moved = false;
            let from_len = self.shards[from].transactions.len();
            let to_len = self.shards[to].transactions.len();
            let to_cap = self.shards[to].quantum_state.capacity;
            if from_len > 0 && to_len < to_cap {
                let ghost before = self.shards@;
                let mut donor = self.shards.remove(from);
                let tx = donor.transactions.pop().unwrap();
                proof {
                    assert(before.remove(from as int) =~= self.shards@);
                }
                self.shards.insert(from, donor);
                proof {
                    assert(self.shards@ =~= before.update(
                        from as int,
                        self.shards@[from as int],
                    ));
                    lemma_total_buffered_update(
                        before,
                        from as int,
                        self.shards@[from as int],
                    );
                }
                let ghost mid = self.shards@;
                let mut receiver = self.shards.remove(to);
                receiver.transactions.push(tx);
                proof {
                    assert(mid.remove(to as int) =~= self.shards@);
                }
                self.shards.insert(to, receiver);
                proof {
                    assert(self.shards@ =~= mid.update(to as int, self.shards@[to as int]));
                    lemma_total_buffered_update(mid, to as int, self.shards@[to as int]);
                    broadcast use vstd::seq_lib::group_to_multiset_ensures;
                    broadcast use vstd::multiset::group_multiset_axioms;

                    let d_old = before[from as int].transactions@;
                    let d_new = mid[from as int].transactions@;
                    let r_old = mid[to as int].transactions@;
                    let r_new = self.shards@[to as int].transactions@;
                    assert(d_new =~= d_old.remove(d_old.len() - 1));
                    assert(d_old[d_old.len() - 1] == tx);
                    assert(d_old.contains(tx));
                    assert(d_old.to_multiset().count(tx) > 0);
                    assert(d_new.to_multiset() =~= d_old.to_multiset().remove(tx));
                    assert(r_new =~= r_old.push(tx));
                    assert(r_new.to_multiset() =~= r_old.to_multiset().insert(tx));
                    lemma_buffered_multiset_update(before, from as int, mid[from as int]);
                    lemma_buffered_multiset_update(mid, to as int, self.shards@[to as int]);
                    assert forall|x: QuantumTransaction|
                        spec_buffered_multiset(self.shards@).count(x) == spec_buffered_multiset(
                            before,
                        ).count(x) by {
                        assert(spec_buffered_multiset(mid).add(d_old.to_multiset()).count(x)
                            == spec_buffered_multiset(mid).count(x) + d_old.to_multiset().count(
                            x,
                        ));
                        assert(spec_buffered_multiset(before).add(d_new.to_multiset()).count(x)
                            == spec_buffered_multiset(before).count(x)
                            + d_new.to_multiset().count(x));
                        assert(spec_buffered_multiset(mid).count(x) + d_old.to_multiset().count(
                            x,
                        ) == spec_buffered_multiset(before).count(x) + d_new.to_multiset().count(
                            x,
                        ));
                        assert(spec_buffered_multiset(self.shards@).add(
                            r_old.to_multiset(),
                        ).count(x) == spec_buffered_multiset(self.shards@).count(x)
                            + r_old.to_multiset().count(x));
                        assert(spec_buffered_multiset(mid).add(r_new.to_multiset()).count(x)
                            == spec_buffered_multiset(mid).count(x) + r_new.to_multiset().count(
                            x,
                        ));
                        assert(spec_buffered_multiset(self.shards@).count(x)
                            + r_old.to_multiset().count(x) == spec_buffered_multiset(mid).count(x)
                            + r_new.to_multiset().count(x));
                    }
                    assert(spec_buffered_multiset(self.shards@) =~= spec_buffered_multiset(
                        before,
                    ));
                    let orig_from = old(self).shards@[from as int].transactions@;
                    let orig_to = old(self).shards@[to as int].transactions@;
                    assert(self.shards@[from as int] == mid[from as int]);
                    assert(d_old == orig_from.subrange(0, d_old.len() as int));
                    assert(d_new =~= d_old.drop_last());
                    assert(d_new.len() == d_old.len() - 1);
                    assert forall|k2: int| 0 <= k2 < d_new.len() implies d_new[k2] == orig_from[
                        k2
                    ] by {
                        assert(d_new[k2] == d_old.drop_last()[k2]);
                        assert(d_old.drop_last()[k2] == d_old[k2]);
                        assert(d_old[k2] == orig_from.subrange(0, d_old.len() as int)[k2]);
                    }
                    assert(self.shards@[from as int].transactions@ == d_new);
                    assert(self.shards@[from as int].transactions@ =~= orig_from.subrange(
                        0,
                        self.shards@[from as int].transactions@.len() as int,
                    ));
                    assert forall|k2: int| 0 <= k2 < orig_to.len() implies r_new[k2] == orig_to[
                        k2
                    ] by {
                        assert(r_new[k2] == r_old[k2]);
                        assert(r_old.subrange(0, orig_to.len() as int)[k2] == r_old[k2]);
                    }
                    assert(self.shards@[to as int].transactions@.subrange(
                        0,
                        orig_to.len() as int,
                    ) =~= orig_to);
                }
                moved = true;
            }
        }
        self.refresh_shard(to, now);
        self.refresh_shard(from, now);
    }

    /// Recomputes one shard's metrics and commitment state in place;
    /// its buffer, and so the total, is untouched.
    fn refresh_shard(&mut self, i: usize, now: u64)
        requires
            old(self).wf(),
            i < old(self).shards@.len(),
        ensures
            final(self).wf(),
            final(self).shards@.len() == old(self).shards@.len(),
            spec_total_buffered(final(self).shards@) == spec_total_buffered(old(self).shards@),
            final(self).config == old(self).config,
            forall|k: int|
                0 <= k < final(self).shards@.len() && k != i
                    ==> (#[trigger] final(self).shards@[k]) == old(self).shards@[k],
            final(self).shards@[i as int].transactions@ == old(self).shards@[i as int].transactions@,
            final(self).shards@[i as int].cross_links@ == old(self).shards@[i as int].cross_links@,
            spec_buffered_multiset(final(self).shards@) == spec_buffered_multiset(
                old(self).shards@,
            ),
    {
        let ghost before = self.shards@;
        let mut shard = self.shards.remove(i);
        shard.update_metrics(now);
        shard.update_quantum_state(now);
        proof {
            assert(before.remove(i as int) =~= self.shards@);
        }
        self.shards.insert(i, shard);
        proof {
            assert(self.shards@ =~= before.update(i as int, self.shards@[i as int]));
            lemma_total_buffered_update(before, i as int, self.shards@[i as int]);
            lemma_buffered_multiset_update(before, i as int, self.shards@[i as int]);
            broadcast use vstd::multiset::group_multiset_axioms;

            assert forall|x: QuantumTransaction|
                spec_buffered_multiset(self.shards@).count(x) == spec_buffered_multiset(
                    before,
                ).count(x) by {
                assert(self.shards@[i as int].transactions@ == before[i as int].transactions@);
                assert(spec_buffered_multiset(self.shards@).add(
                    before[i as int].transactions@.to_multiset(),
                ).count(x) == spec_buffered_multiset(self.shards@).count(x) + before[
                    i as int
                ].transactions@.to_multiset().count(x));
                assert(spec_buffered_multiset(before).add(
                    self.shards@[i as int].transactions@.to_multiset(),
                ).count(x) == spec_buffered_multiset(before).count(x) + self.shards@[
                    i as int
                ].transactions@.to_multiset().count(x));
            }
            assert(spec_buffered_multiset(self.shards@) =~= spec_buffered_multiset(before));
        }
    }
}

} // verus!
