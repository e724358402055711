//! The consensus engine: four sub-mechanisms (a proof-of-work variant,
//! proof-of-stake, delegated proof-of-stake and a green proof-of-work)
//! under a hybrid controller that switches between them from three
//! observed network metrics.
//!
//! Ratios are carried in parts per thousand, so the decision table
//! `load > 0.9`, `security < 0.7`, `efficiency < 0.5` reads as
//! `load > 900`, `security < 700`, `efficiency < 500`.

use vstd::prelude::*;

use crate::block::{
    spec_block_signing_digest, spec_header_enc, spec_transactions_root, spec_txs_payload,
    spec_validators_enc, BlockError, QuantumBlock, Validator, ValidatorSet,
    DEFAULT_BLOCK_GAS_LIMIT,
};
use crate::codec::{read_le_u64, spec_le_u64, spec_len_prefixed, spec_u32_le, spec_u64_le};
use crate::crypto::{
    blake3_of, dilithium_sig_of, random_bytes, spec_zero_digest, HashDigest, DILITHIUM_SK_LEN,
};
use crate::crypto::dilithium_sign as dilithium_sign_bytes;
use crate::transaction::QuantumTransaction;

verus! {

/// Seconds that must pass between two difficulty retargets.
pub const DIFFICULTY_ADJUSTMENT_INTERVAL: u64 = 600;

/// How many nonces a single mining call tries before giving up.
pub const MAX_MINING_ATTEMPTS: u64 = 1000000;

/// The network load above which the controller switches to delegated
/// proof-of-stake, in parts per thousand.
pub const LOAD_SWITCH_MILLI: u64 = 900;

/// The security level below which the controller switches to
/// proof-of-work, in parts per thousand.
pub const SECURITY_SWITCH_MILLI: u64 = 700;

/// The energy efficiency below which the controller switches to green
/// proof-of-work, in parts per thousand.
pub const EFFICIENCY_SWITCH_MILLI: u64 = 500;

/// The consensus mechanisms the engine can run under.
#[derive(Clone, Copy, PartialEq, Eq, Structural, Debug)]
pub enum ConsensusType {
    QPOW,
    QPOS,
    QDPOS,
    GPOW,
    Hybrid,
}

/// Process-wide consensus configuration, fixed at chain start. Stakes
/// are integer token units; the fault tolerance is in parts per
/// thousand.
#[derive(Clone, Copy, PartialEq, Eq, Structural, Debug)]
pub struct ConsensusConfig {
    pub min_validators: usize,
    pub block_time: u64,
    pub epoch_length: u64,
    pub minimum_stake: u64,
    pub quantum_security_level: u8,
    pub fault_tolerance_milli: u64,
}

/// The observed metrics the controller decides from, in parts per
/// thousand, plus running counters.
#[derive(Clone, Copy, PartialEq, Eq, Structural, Debug)]
pub struct ConsensusMetrics {
    pub blocks_validated: u64,
    pub blocks_mined: u64,
    pub network_load_milli: u64,
    pub security_level_milli: u64,
    pub energy_efficiency_milli: u64,
    pub last_validation: u64,
    pub last_block: u64,
}

/// Consensus-level failures, one variant per cause.
#[derive(Clone, Copy, PartialEq, Eq, Structural, Debug)]
pub enum ConsensusError {
    EmptyTransactions,
    MiningFailed,
    InvalidConsensusData,
    UnknownValidator,
    NoStake,
}

/// The proof-of-work mechanism: a difficulty target over the block's
/// signing digest.
pub struct QPOWConsensus {
    pub difficulty: u64,
    pub last_adjustment: u64,
    pub metrics: ConsensusMetrics,
}

/// The proof-of-stake mechanism: validators weighted by stake.
pub struct QPoSConsensus {
    pub validators: Vec<Validator>,
    pub total_stake: u64,
    pub minimum_stake: u64,
    pub epoch: u64,
    pub last_reward_distribution: u64,
    pub metrics: ConsensusMetrics,
}

/// The delegated proof-of-stake mechanism: only the active delegates
/// may propose.
pub struct QDPoSConsensus {
    pub delegates: Vec<String>,
    pub voting_power: Vec<(String, u64)>,
    pub active_validators: Vec<String>,
    pub metrics: ConsensusMetrics,
}

/// The green proof-of-work mechanism: only validators holding a
/// renewable-energy attestation may propose.
pub struct GPoWConsensus {
    pub renewable_energy_validators: Vec<Validator>,
    pub energy_efficiency_milli: u64,
    pub carbon_offset: u64,
    pub metrics: ConsensusMetrics,
}

/// The hybrid controller: remembers which mechanism is active and when
/// it last switched.
pub struct HybridConsensus {
    pub current_mechanism: ConsensusType,
    pub transition_threshold_milli: u64,
    pub last_switch: u64,
    pub metrics: ConsensusMetrics,
}

/// The ordered decision table of the hybrid controller, first match
/// wins: congestion beats security, security beats sustainability.
pub open spec fn spec_select_mechanism(
    load_milli: u64,
    security_milli: u64,
    efficiency_milli: u64,
) -> ConsensusType {
    if load_milli > LOAD_SWITCH_MILLI {
        ConsensusType::QDPOS
    } else if security_milli < SECURITY_SWITCH_MILLI {
        ConsensusType::QPOW
    } else if efficiency_milli < EFFICIENCY_SWITCH_MILLI {
        ConsensusType::GPOW
    } else {
        ConsensusType::QPOS
    }
}

/// The decision table of the hybrid controller.
pub fn select_mechanism(load_milli: u64, security_milli: u64, efficiency_milli: u64) -> (r:
    ConsensusType)
    ensures
        r == spec_select_mechanism(load_milli, security_milli, efficiency_milli),
{
    if load_milli > LOAD_SWITCH_MILLI {
        ConsensusType::QDPOS
    } else if security_milli < SECURITY_SWITCH_MILLI {
        ConsensusType::QPOW
    } else if efficiency_milli < EFFICIENCY_SWITCH_MILLI {
        ConsensusType::GPOW
    } else {
        ConsensusType::QPOS
    }
}

/// Hybrid selection is a pure function of the three metrics: overload
/// always gives delegated proof-of-stake, whatever the other two
/// metrics say; low security (without overload) gives proof-of-work;
/// low efficiency (with load and security in range) gives green
/// proof-of-work; and with all three in range, proof-of-stake.
pub proof fn lemma_hybrid_selection_pure()
    ensures
        forall|s: u64, e: u64| spec_select_mechanism(950, s, e) == ConsensusType::QDPOS,
        forall|l: u64, s: u64, e: u64|
            l > 900 ==> spec_select_mechanism(l, s, e) == ConsensusType::QDPOS,
        forall|l: u64, s: u64, e: u64|
            l <= 900 && s < 700 ==> spec_select_mechanism(l, s, e) == ConsensusType::QPOW,
        forall|l: u64, s: u64, e: u64|
            l <= 900 && s >= 700 && e < 500 ==> spec_select_mechanism(l, s, e)
                == ConsensusType::GPOW,
        forall|l: u64, s: u64, e: u64|
            l <= 900 && s >= 700 && e >= 500 ==> spec_select_mechanism(l, s, e)
                == ConsensusType::QPOS,
{
}

/// The proof-of-work target for a difficulty: the highest digest value
/// still accepted.
pub open spec fn spec_pow_target(difficulty: u64) -> u64
    recommends
        difficulty > 0,
{
    (u64::MAX as int / difficulty as int) as u64
}

/// Whether a block meets the proof-of-work rule at the given
/// difficulty: the first eight bytes of its signing digest, read as an
/// integer, stay at or under the target.
pub open spec fn spec_pow_ok(b: QuantumBlock, difficulty: u64) -> bool {
    spec_le_u64(spec_block_signing_digest(b)) <= spec_pow_target(difficulty)
}

/// The signing digest of the candidate block the miner builds from
/// the given context at nonce `nonce`: the header it commits to,
/// followed by the consensus fields.
pub open spec fn spec_mining_digest(
    parent: Seq<u8>,
    txs: Seq<QuantumTransaction>,
    state_root: Seq<u8>,
    validators: Seq<Validator>,
    height: u64,
    timestamp: u64,
    beacon: Seq<u8>,
    difficulty: u64,
    nonce: u64,
) -> Seq<u8> {
    blake3_of(
        spec_u32_le(1u32) + spec_u64_le(height) + parent + spec_u64_le(timestamp)
            + spec_transactions_root(txs) + state_root + spec_zero_digest() + blake3_of(
            spec_txs_payload(txs),
        ) + blake3_of(spec_validators_enc(validators)) + blake3_of(beacon) + spec_len_prefixed(
            Seq::<u8>::empty(),
        ) + spec_u64_le(difficulty) + spec_u64_le(DEFAULT_BLOCK_GAS_LIMIT) + spec_u64_le(nonce),
    )
}

/// Whether some nonce within the attempt bound puts the candidate's
/// digest at or under the difficulty target.
#[verifier::opaque]
pub open spec fn spec_mining_feasible(
    parent: Seq<u8>,
    txs: Seq<QuantumTransaction>,
    state_root: Seq<u8>,
    validators: Seq<Validator>,
    height: u64,
    timestamp: u64,
    beacon: Seq<u8>,
    difficulty: u64,
) -> bool {
    exists|n: u64|
        n < MAX_MINING_ATTEMPTS && spec_le_u64(
            #[trigger] spec_mining_digest(
                parent,
                txs,
                state_root,
                validators,
                height,
                timestamp,
                beacon,
                difficulty,
                n,
            ),
        ) <= spec_pow_target(difficulty)
}

/// Whether some validator of the list carries the address with at
/// least the asked stake.
pub open spec fn spec_has_stake(vs: Seq<Validator>, addr: Seq<char>, min_stake: u64) -> bool {
    exists|i: int|
        0 <= i < vs.len() && (#[trigger] vs[i]).address@ == addr && vs[i].stake >= min_stake
}

/// Whether some validator of the list carries the address together
/// with a renewable-energy attestation.
pub open spec fn spec_has_renewable(vs: Seq<Validator>, addr: Seq<char>) -> bool {
    exists|i: int|
        0 <= i < vs.len() && (#[trigger] vs[i]).address@ == addr && vs[i].renewable_certified
}

/// Whether the list of names contains the address.
pub open spec fn spec_name_listed(names: Seq<String>, addr: Seq<char>) -> bool {
    exists|i: int| 0 <= i < names.len() && (#[trigger] names[i])@ == addr
}

/// The total stake of a validator list.
pub open spec fn spec_total_stake(vs: Seq<Validator>) -> int
    decreases vs.len(),
{
    if vs.len() == 0 {
        0
    } else {
        spec_total_stake(vs.drop_last()) + vs.last().stake
    }
}

/// Every single stake is bounded by the total.
proof fn lemma_stake_le_total(vs: Seq<Validator>, i: int)
    requires
        0 <= i < vs.len(),
    ensures
        vs[i].stake <= spec_total_stake(vs),
        spec_total_stake(vs) >= 0,
    decreases vs.len(),
{
    lemma_total_stake_nonneg(vs.drop_last());
    if i < vs.len() - 1 {
        lemma_stake_le_total(vs.drop_last(), i);
        assert(vs.drop_last()[i] == vs[i]);
    }
}

/// Two validator lists with the same stakes entry for entry have the
/// same total stake.
proof fn lemma_total_stake_pointwise(a: Seq<Validator>, b: Seq<Validator>)
    requires
        a.len() == b.len(),
        forall|i: int| 0 <= i < a.len() ==> (#[trigger] a[i]).stake == b[i].stake,
    ensures
        spec_total_stake(a) == spec_total_stake(b),
    decreases a.len(),
{
    if a.len() > 0 {
        assert forall|i: int| 0 <= i < a.drop_last().len() implies (#[trigger] a.drop_last()[
            i
        ]).stake == b.drop_last()[i].stake by {
            assert(a.drop_last()[i] == a[i]);
            assert(b.drop_last()[i] == b[i]);
        }
        lemma_total_stake_pointwise(a.drop_last(), b.drop_last());
        assert(a.last().stake == b.last().stake);
    }
}

/// The total stake is never negative.
proof fn lemma_total_stake_nonneg(vs: Seq<Validator>)
    ensures
        spec_total_stake(vs) >= 0,
    decreases vs.len(),
{
    if vs.len() > 0 {
        lemma_total_stake_nonneg(vs.drop_last());
    }
}

impl QPOWConsensus {
    /// A difficulty of zero would make the target meaningless.
    pub open spec fn wf(&self) -> bool {
        self.difficulty >= 1
    }

    /// A fresh proof-of-work mechanism at difficulty one.
    pub fn new(now: u64) -> (r: QPOWConsensus)
        ensures
            r.difficulty == 1,
            r.last_adjustment == now,
            r.wf(),
    {
        QPOWConsensus {
            difficulty: 1,
            last_adjustment: now,
            metrics: ConsensusMetrics {
                blocks_validated: 0,
                blocks_mined: 0,
                network_load_milli: 0,
                security_level_milli: 1000,
                energy_efficiency_milli: 1000,
                last_validation: now,
                last_block: now,
            },
        }
    }

    /// Whether the block meets the proof-of-work rule at the current
    /// difficulty.
    pub fn validate_block(&self, block: &QuantumBlock) -> (r: bool)
        requires
            self.wf(),
        ensures
            r == spec_pow_ok(*block, self.difficulty),
    {
        let digest = block.compute_signing_root();
        let value = read_le_u64(digest.as_slice());
        value <= u64::MAX / self.difficulty
    }

    /// Searches for a nonce that meets the difficulty target over the
    /// candidate block built from the given context, time stamp and
    /// 32-byte beacon. Succeeds exactly when some nonce within the
    /// attempt bound puts the candidate's signing digest at or under
    /// the target; the mined block then carries the given transactions
    /// and context and a digest at or under the target.
    #[verifier::rlimit(100)]
    #[verifier::spinoff_prover]
    pub fn mine_block(
        &self,
        transactions: Vec<QuantumTransaction>,
        parent_hash: HashDigest,
        state_root: HashDigest,
        validator_set: ValidatorSet,
        height: u64,
        timestamp: u64,
        beacon: Vec<u8>,
    ) -> (r: Result<QuantumBlock, ConsensusError>)
        requires
            self.wf(),
            beacon@.len() == 32,
        ensures
            transactions@.len() == 0 ==> r == Result::<QuantumBlock, ConsensusError>::Err(
                ConsensusError::EmptyTransactions,
            ),
            transactions@.len() > 0 ==> (r is Ok <==> spec_mining_feasible(
                parent_hash@,
                transactions@,
                state_root@,
                validator_set.validators@,
                height,
                timestamp,
                beacon@,
                self.difficulty,
            )),
            transactions@.len() > 0 && r is Err ==> r == Result::<
                QuantumBlock,
                ConsensusError,
            >::Err(ConsensusError::MiningFailed),
            r matches Result::Ok(b) ==> spec_pow_ok(b, self.difficulty) && b.transactions@
                == transactions@ && b.header.height == height && b.header.prev_hash@
                == parent_hash@ && b.header.timestamp == timestamp && b.quantum_random_beacon@
                == beacon@ && b.consensus_data.difficulty == self.difficulty,
    {
        let ghost gparent = parent_hash@;
        let ghost groot = state_root@;
        let ghost gvalidators = validator_set.validators@;
        let ghost gbeacon = beacon@;
        let mut block = match QuantumBlock::new_with(
            parent_hash,
            transactions,
            state_root,
            validator_set,
            height,
            timestamp,
            beacon,
        ) {
            Result::Ok(b) => b,
            Result::Err(_) => {
                return Result::Err(ConsensusError::EmptyTransactions);
            },
        };
        block.consensus_data.difficulty = self.difficulty;
        let ghost txs = block.transactions@;
        let mut nonce: u64 = 0;
        while nonce < MAX_MINING_ATTEMPTS
            invariant
                self.wf(),
                block.transactions@ == txs,
                txs =~= transactions@,
                txs.len() > 0,
                gparent == parent_hash@,
                groot == state_root@,
                gvalidators == validator_set.validators@,
                gbeacon == beacon@,
                block.header.version == 1,
                block.header.height == height,
                block.header.prev_hash@ == gparent,
                block.header.timestamp == timestamp,
                block.header.transactions_root@ == spec_transactions_root(txs),
                block.header.state_root@ == groot,
                block.header.receipts_root@ == spec_zero_digest(),
                block.header.quantum_state_hash@ == blake3_of(spec_txs_payload(txs)),
                block.header.validator_set_hash@ == blake3_of(spec_validators_enc(gvalidators)),
                block.header.beacon_randomness@ == blake3_of(gbeacon),
                block.header.extra_data@.len() == 0,
                block.quantum_random_beacon@ == gbeacon,
                block.consensus_data.difficulty == self.difficulty,
                block.consensus_data.gas_limit == DEFAULT_BLOCK_GAS_LIMIT,
                forall|m: u64|
                    m < nonce ==> spec_le_u64(
                        #[trigger] spec_mining_digest(
                            gparent,
                            txs,
                            groot,
                            gvalidators,
                            height,
                            timestamp,
                            gbeacon,
                            self.difficulty,
                            m,
                        ),
                    ) > spec_pow_target(self.difficulty),
            decreases MAX_MINING_ATTEMPTS - nonce,
        {
            block.consensus_data.nonce = nonce;
            let digest = block.compute_signing_root();
            proof {
                assert(block.header.extra_data@ =~= Seq::<u8>::empty());
                assert(spec_header_enc(block.header) + spec_u64_le(self.difficulty) + spec_u64_le(
                    DEFAULT_BLOCK_GAS_LIMIT,
                ) + spec_u64_le(nonce) =~= spec_u32_le(1u32) + spec_u64_le(height) + gparent
                    + spec_u64_le(timestamp) + spec_transactions_root(txs) + groot
                    + spec_zero_digest() + blake3_of(spec_txs_payload(txs)) + blake3_of(
                    spec_validators_enc(gvalidators),
                ) + blake3_of(gbeacon) + spec_len_prefixed(Seq::<u8>::empty()) + spec_u64_le(
                    self.difficulty,
                ) + spec_u64_le(DEFAULT_BLOCK_GAS_LIMIT) + spec_u64_le(nonce));
                assert(digest@ == spec_mining_digest(
                    gparent,
                    txs,
                    groot,
                    gvalidators,
                    height,
                    timestamp,
                    gbeacon,
                    self.difficulty,
                    nonce,
                ));
            }
            let value = read_le_u64(digest.as_slice());
            if value <= u64::MAX / self.difficulty {
                proof {
                    assert(spec_le_u64(
                        spec_mining_digest(
                            gparent,
                            txs,
                            groot,
                            gvalidators,
                            height,
                            timestamp,
                            gbeacon,
                            self.difficulty,
                            nonce,
                        ),
                    ) <= spec_pow_target(self.difficulty));
                    assert(spec_mining_feasible(
                        gparent,
                        txs,
                        groot,
                        gvalidators,
                        height,
                        timestamp,
                        gbeacon,
                        self.difficulty,
                    )) by {
                        reveal(spec_mining_feasible);
                    }
                    assert(spec_pow_ok(block, self.difficulty));
                }
                return Result::Ok(block);
            }
            nonce = nonce + 1;
        }
        proof {
            assert(!spec_mining_feasible(
                gparent,
                txs,
                groot,
                gvalidators,
                height,
                timestamp,
                gbeacon,
                self.difficulty,
            )) by {
                reveal(spec_mining_feasible);
                if spec_mining_feasible(
                    gparent,
                    txs,
                    groot,
                    gvalidators,
                    height,
                    timestamp,
                    gbeacon,
                    self.difficulty,
                ) {
                    let m = choose|m: u64|
                        m < MAX_MINING_ATTEMPTS && spec_le_u64(
                            #[trigger] spec_mining_digest(
                                gparent,
                                txs,
                                groot,
                                gvalidators,
                                height,
                                timestamp,
                                gbeacon,
                                self.difficulty,
                                m,
                            ),
                        ) <= spec_pow_target(self.difficulty);
                    assert(false);
                }
            }
        }
        Result::Err(ConsensusError::MiningFailed)
    }

    /// Whether the retarget interval has passed since the last
    /// adjustment.
    pub open spec fn spec_retarget_due(&self, now: u64) -> bool {
        now >= self.last_adjustment && now - self.last_adjustment > DIFFICULTY_ADJUSTMENT_INTERVAL
    }

    /// One retarget step: heavy load raises the difficulty one step,
    /// light load lowers it one step (never under one).
    pub open spec fn spec_retarget(difficulty: u64, load_milli: u64) -> u64 {
        if load_milli > 800 && difficulty < u64::MAX {
            (difficulty + 1) as u64
        } else if load_milli < 200 && difficulty > 1 {
            (difficulty - 1) as u64
        } else {
            difficulty
        }
    }

    /// Interval-gated difficulty retargeting: before the interval has
    /// passed nothing changes; after it, the difficulty takes one
    /// retarget step and the adjustment clock restarts.
    pub fn adjust_parameters(&mut self, metrics: &ConsensusMetrics, now: u64)
        requires
            old(self).wf(),
        ensures
            final(self).wf(),
            !old(self).spec_retarget_due(now) ==> *final(self) == *old(self),
            old(self).spec_retarget_due(now) ==> final(self).last_adjustment == now
                && final(self).difficulty == QPOWConsensus::spec_retarget(
                old(self).difficulty,
                metrics.network_load_milli,
            ) && final(self).metrics == old(self).metrics,
    {
        if now >= self.last_adjustment && now - self.last_adjustment
            > DIFFICULTY_ADJUSTMENT_INTERVAL {
            if metrics.network_load_milli > 800 && self.difficulty < u64::MAX {
                self.difficulty = self.difficulty + 1;
            } else if metrics.network_load_milli < 200 && self.difficulty > 1 {
                self.difficulty = self.difficulty - 1;
            }
            self.last_adjustment = now;
        }
    }
}

impl QPoSConsensus {
    /// The cached total matches the validator list and fits the
    /// integer range.
    pub open spec fn wf(&self) -> bool {
        self.total_stake as int == spec_total_stake(self.validators@)
    }

    /// A fresh proof-of-stake mechanism with no validators.
    pub fn new(minimum_stake: u64, now: u64) -> (r: QPoSConsensus)
        ensures
            r.validators@.len() == 0,
            r.total_stake == 0,
            r.minimum_stake == minimum_stake,
            r.wf(),
    {
        QPoSConsensus {
            validators: Vec::new(),
            total_stake: 0,
            minimum_stake,
            epoch: 0,
            last_reward_distribution: now,
            metrics: ConsensusMetrics {
                blocks_validated: 0,
                blocks_mined: 0,
                network_load_milli: 0,
                security_level_milli: 1000,
                energy_efficiency_milli: 1000,
                last_validation: now,
                last_block: now,
            },
        }
    }

    /// Registers a validator. Fails exactly when the added stake would
    /// push the total past the integer range.
    pub fn add_validator(&mut self, v: Validator) -> (r: bool)
        requires
            old(self).wf(),
        ensures
            final(self).wf(),
            r == (old(self).total_stake + v.stake <= u64::MAX),
            r ==> final(self).validators@ == old(self).validators@ + seq![v]
                && final(self).total_stake == old(self).total_stake + v.stake,
            !r ==> *final(self) == *old(self),
    {
        if v.stake <= u64::MAX - self.total_stake {
            let ghost prev = self.validators@;
            self.total_stake = self.total_stake + v.stake;
            self.validators.push(v);
            proof {
                assert(self.validators@.drop_last() =~= prev);
            }
            true
        } else {
            false
        }
    }

    /// Whether the proposer is a registered validator holding at least
    /// the minimum stake.
    pub fn validate_block(&self, block: &QuantumBlock, proposer: &String) -> (r: bool)
        ensures
            r == spec_has_stake(self.validators@, proposer@, self.minimum_stake),
    {
        let mut i: usize = 0;
        while i < self.validators.len()
            invariant
                i <= self.validators@.len(),
                forall|k: int|
                    0 <= k < i ==> !((#[trigger] self.validators@[k]).address@ == proposer@
                        && self.validators@[k].stake >= self.minimum_stake),
            decreases self.validators@.len() - i,
        {
            if self.validators[i].address == *proposer && self.validators[i].stake
                >= self.minimum_stake {
                return true;
            }
            i = i + 1;
        }
        false
    }

    /// Pays each validator a reward proportional to its stake:
    /// `pool * stake / total`, rounded down, credited to the rewards
    /// account (saturating). Stakes are untouched, so the cached total
    /// stays right. A mechanism without stake distributes nothing.
    pub fn distribute_rewards(&mut self, reward_pool: u64, now: u64)
        requires
            old(self).wf(),
            old(self).total_stake + reward_pool <= u64::MAX,
        ensures
            final(self).wf(),
            final(self).validators@.len() == old(self).validators@.len(),
            final(self).total_stake == old(self).total_stake,
            old(self).total_stake > 0 ==> forall|i: int|
                0 <= i < final(self).validators@.len()
                    ==> (#[trigger] final(self).validators@[i]).rewards_earned as int
                    == spec_saturate_u64(
                    old(self).validators@[i].rewards_earned + (reward_pool as int)
                        * (old(self).validators@[i].stake as int)
                        / (old(self).total_stake as int),
                ) && final(self).validators@[i].address == old(self).validators@[i].address
                    && final(self).validators@[i].stake == old(self).validators@[i].stake,
            old(self).total_stake == 0 ==> final(self).validators@ == old(self).validators@,
            final(self).last_reward_distribution == now,
    {
        if self.total_stake == 0 {
            self.last_reward_distribution = now;
            return ;
        }
        let total: u64 = self.total_stake;
        let pool: u64 = reward_pool;
        let n = self.validators.len();
        let mut i: usize = 0;
        while i < n
            invariant
                n == self.validators@.len(),
                n == old(self).validators@.len(),
                i <= n,
                total == old(self).total_stake,
                total > 0,
                spec_total_stake(old(self).validators@) == total as int,
                old(self).total_stake + pool <= u64::MAX,
                self.total_stake == old(self).total_stake,
                self.minimum_stake == old(self).minimum_stake,
                forall|k: int|
                    i <= k < n ==> (#[trigger] self.validators@[k]) == old(self).validators@[k],
                forall|k: int|
                    0 <= k < i ==> (#[trigger] self.validators@[k]).rewards_earned as int
                        == spec_saturate_u64(
                        old(self).validators@[k].rewards_earned + (pool as int) * (old(
                            self,
                        ).validators@[k].stake as int) / (total as int),
                    ) && self.validators@[k].address == old(self).validators@[k].address
                        && self.validators@[k].stake == old(self).validators@[k].stake,
            decreases n - i,
        {
            proof {
                lemma_stake_le_total(old(self).validators@, i as int);
            }
            let stake = self.validators[i].stake;
            assert(stake == old(self).validators@[i as int].stake);
            assert((pool as u128) * (stake as u128) <= u128::MAX) by (nonlinear_arith)
                requires
                    pool <= u64::MAX,
                    stake <= u64::MAX,
            ;
            let reward_wide: u128 = (pool as u128) * (stake as u128) / (total as u128);
            proof {
                assert(stake <= total);
                vstd::arithmetic::mul::lemma_mul_inequality(
                    stake as int,
                    total as int,
                    pool as int,
                );
                vstd::arithmetic::div_mod::lemma_div_is_ordered(
                    (stake as int) * (pool as int),
                    (total as int) * (pool as int),
                    total as int,
                );
                vstd::arithmetic::div_mod::lemma_div_multiples_vanish(
                    pool as int,
                    total as int,
                );
                vstd::arithmetic::mul::lemma_mul_is_commutative(stake as int, pool as int);
                vstd::arithmetic::mul::lemma_mul_is_commutative(total as int, pool as int);
            }
            assert(reward_wide <= pool as u128);
            let reward: u64 = reward_wide as u64;
            let earned = self.validators[i].rewards_earned;
            let new_earned: u64 = if earned <= u64::MAX - reward {
                earned + reward
            } else {
                u64::MAX
            };
            let updated = Validator {
                address: self.validators[i].address.clone(),
                public_key: crate::clone_u8(&self.validators[i].public_key),
                stake,
                reputation: self.validators[i].reputation,
                rewards_earned: new_earned,
                renewable_certified: self.validators[i].renewable_certified,
            };
            self.validators.set(i, updated);
            i = i + 1;
        }
        self.last_reward_distribution = now;
        proof {
            lemma_total_stake_pointwise(self.validators@, old(self).validators@);
        }
    }
}

impl QDPoSConsensus {
    /// A fresh delegated proof-of-stake mechanism with no delegates.
    pub fn new(now: u64) -> (r: QDPoSConsensus)
        ensures
            r.delegates@.len() == 0,
            r.active_validators@.len() == 0,
    {
        QDPoSConsensus {
            delegates: Vec::new(),
            voting_power: Vec::new(),
            active_validators: Vec::new(),
            metrics: ConsensusMetrics {
                blocks_validated: 0,
                blocks_mined: 0,
                network_load_milli: 0,
                security_level_milli: 1000,
                energy_efficiency_milli: 1000,
                last_validation: now,
                last_block: now,
            },
        }
    }

    /// Whether the proposer is one of the active delegates.
    pub fn validate_block(&self, block: &QuantumBlock, proposer: &String) -> (r: bool)
        ensures
            r == spec_name_listed(self.active_validators@, proposer@),
    {
        let mut i: usize = 0;
        while i < self.active_validators.len()
            invariant
                i <= self.active_validators@.len(),
                forall|k: int|
                    0 <= k < i ==> !((#[trigger] self.active_validators@[k])@ == proposer@),
            decreases self.active_validators@.len() - i,
        {
            if self.active_validators[i] == *proposer {
                return true;
            }
            i = i + 1;
        }
        false
    }
}

impl GPoWConsensus {
    /// A fresh green proof-of-work mechanism with no attested
    /// validators.
    pub fn new(now: u64) -> (r: GPoWConsensus)
        ensures
            r.renewable_energy_validators@.len() == 0,
    {
        GPoWConsensus {
            renewable_energy_validators: Vec::new(),
            energy_efficiency_milli: 0,
            carbon_offset: 0,
            metrics: ConsensusMetrics {
                blocks_validated: 0,
                blocks_mined: 0,
                network_load_milli: 0,
                security_level_milli: 1000,
                energy_efficiency_milli: 1000,
                last_validation: now,
                last_block: now,
            },
        }
    }

    /// Whether the proposer is a validator holding a renewable-energy
    /// attestation.
    pub fn validate_block(&self, block: &QuantumBlock, proposer: &String) -> (r: bool)
        ensures
            r == spec_has_renewable(self.renewable_energy_validators@, proposer@),
    {
        let mut i: usize = 0;
        while i < self.renewable_energy_validators.len()
            invariant
                i <= self.renewable_energy_validators@.len(),
                forall|k: int|
                    0 <= k < i ==> !((#[trigger] self.renewable_energy_validators@[k]).address@
                        == proposer@ && self.renewable_energy_validators@[k].renewable_certified),
            decreases self.renewable_energy_validators@.len() - i,
        {
            if self.renewable_energy_validators[i].address == *proposer
                && self.renewable_energy_validators[i].renewable_certified {
                return true;
            }
            i = i + 1;
        }
        false
    }
}

impl HybridConsensus {
    /// A fresh controller in the meta-state.
    pub fn new(now: u64) -> (r: HybridConsensus)
        ensures
            r.current_mechanism == ConsensusType::Hybrid,
            r.last_switch == now,
    {
        HybridConsensus {
            current_mechanism: ConsensusType::Hybrid,
            transition_threshold_milli: 750,
            last_switch: now,
            metrics: ConsensusMetrics {
                blocks_validated: 0,
                blocks_mined: 0,
                network_load_milli: 0,
                security_level_milli: 1000,
                energy_efficiency_milli: 1000,
                last_validation: now,
                last_block: now,
            },
        }
    }

    /// Applies the decision table to the given metrics in one step:
    /// read, decide, write.
    pub fn adjust_parameters(&mut self, metrics: &ConsensusMetrics, now: u64)
        ensures
            final(self).current_mechanism == spec_select_mechanism(
                metrics.network_load_milli,
                metrics.security_level_milli,
                metrics.energy_efficiency_milli,
            ),
            final(self).last_switch == now,
            final(self).transition_threshold_milli == old(self).transition_threshold_milli,
            final(self).metrics == old(self).metrics,
    {
        self.current_mechanism = select_mechanism(
            metrics.network_load_milli,
            metrics.security_level_milli,
            metrics.energy_efficiency_milli,
        );
        self.last_switch = now;
    }
}

/// An integer clamped into the unsigned 64-bit range from above.
pub open spec fn spec_saturate_u64(x: int) -> int {
    if x <= u64::MAX {
        x
    } else {
        u64::MAX as int
    }
}

/// The total voting power of a delegate list.
pub open spec fn spec_total_power(ps: Seq<(String, u64)>) -> int
    decreases ps.len(),
{
    if ps.len() == 0 {
        0
    } else {
        spec_total_power(ps.drop_last()) + ps.last().1
    }
}

/// Every single delegate's power is bounded by the total.
proof fn lemma_power_le_total(ps: Seq<(String, u64)>, i: int)
    requires
        0 <= i < ps.len(),
    ensures
        ps[i].1 <= spec_total_power(ps),
        spec_total_power(ps) >= 0,
    decreases ps.len(),
{
    lemma_total_power_nonneg(ps.drop_last());
    if i < ps.len() - 1 {
        lemma_power_le_total(ps.drop_last(), i);
        assert(ps.drop_last()[i] == ps[i]);
    }
}

/// The total voting power is never negative.
proof fn lemma_total_power_nonneg(ps: Seq<(String, u64)>)
    ensures
        spec_total_power(ps) >= 0,
    decreases ps.len(),
{
    if ps.len() > 0 {
        lemma_total_power_nonneg(ps.drop_last());
    }
}

impl QDPoSConsensus {
    /// Pays each delegate a reward proportional to its voting power:
    /// `pool * power / total`, rounded down, added onto the power. A
    /// mechanism without voting power distributes nothing.
    pub fn distribute_rewards(&mut self, reward_pool: u64)
        requires
            spec_total_power(old(self).voting_power@) + reward_pool <= u64::MAX,
        ensures
            final(self).voting_power@.len() == old(self).voting_power@.len(),
            spec_total_power(old(self).voting_power@) > 0 ==> forall|i: int|
                0 <= i < final(self).voting_power@.len()
                    ==> (#[trigger] final(self).voting_power@[i]).1 as int
                    == old(self).voting_power@[i].1 + (reward_pool as int)
                    * (old(self).voting_power@[i].1 as int)
                    / spec_total_power(old(self).voting_power@)
                    && final(self).voting_power@[i].0 == old(self).voting_power@[i].0,
            spec_total_power(old(self).voting_power@) == 0 ==> final(self).voting_power@ == old(
                self,
            ).voting_power@,
            final(self).delegates == old(self).delegates,
            final(self).active_validators == old(self).active_validators,
    {
        proof {
            lemma_total_power_nonneg(self.voting_power@);
        }
        let n = self.voting_power.len();
        let mut total: u64 = 0;
        let mut t: usize = 0;
        while t < n
            invariant
                n == self.voting_power@.len(),
                t <= n,
                spec_total_power(self.voting_power@) + reward_pool <= u64::MAX,
                total as int == spec_total_power(self.voting_power@.subrange(0, t as int)),
                *self == *old(self),
            decreases n - t,
        {
            let ghost prefix = self.voting_power@.subrange(0, t as int);
            proof {
                lemma_power_le_total(self.voting_power@, t as int);
                lemma_subrange_total_power_le(self.voting_power@, t as int);
            }
            total = total + self.voting_power[t].1;
            t = t + 1;
            proof {
                assert(self.voting_power@.subrange(0, t as int).drop_last() =~= prefix);
                assert(self.voting_power@.subrange(0, t as int).last() == self.voting_power@[t
                    - 1]);
            }
        }
        assert(self.voting_power@.subrange(0, n as int) =~= self.voting_power@);
        if total == 0 {
            return ;
        }
        let pool: u64 = reward_pool;
        let mut i: usize = 0;
        while i < n
            invariant
                n == self.voting_power@.len(),
                n == old(self).voting_power@.len(),
                i <= n,
                total > 0,
                spec_total_power(old(self).voting_power@) == total as int,
                total + pool <= u64::MAX,
                self.delegates == old(self).delegates,
                self.active_validators == old(self).active_validators,
                self.metrics == old(self).metrics,
                forall|k: int|
                    i <= k < n ==> (#[trigger] self.voting_power@[k]) == old(
                        self,
                    ).voting_power@[k],
                forall|k: int|
                    0 <= k < i ==> (#[trigger] self.voting_power@[k]).1 as int == old(
                        self,
                    ).voting_power@[k].1 + (pool as int) * (old(self).voting_power@[k].1 as int)
                        / (total as int) && self.voting_power@[k].0 == old(
                        self,
                    ).voting_power@[k].0,
            decreases n - i,
        {
            proof {
                lemma_power_le_total(old(self).voting_power@, i as int);
            }
            let power = self.voting_power[i].1;
            assert(power == old(self).voting_power@[i as int].1);
            assert((pool as u128) * (power as u128) <= u128::MAX) by (nonlinear_arith)
                requires
                    pool <= u64::MAX,
                    power <= u64::MAX,
            ;
            let reward_wide: u128 = (pool as u128) * (power as u128) / (total as u128);
            proof {
                assert(power <= total);
                vstd::arithmetic::mul::lemma_mul_inequality(
                    power as int,
                    total as int,
                    pool as int,
                );
                vstd::arithmetic::div_mod::lemma_div_is_ordered(
                    (power as int) * (pool as int),
                    (total as int) * (pool as int),
                    total as int,
                );
                vstd::arithmetic::div_mod::lemma_div_multiples_vanish(
                    pool as int,
                    total as int,
                );
                vstd::arithmetic::mul::lemma_mul_is_commutative(power as int, pool as int);
                vstd::arithmetic::mul::lemma_mul_is_commutative(total as int, pool as int);
            }
            assert(reward_wide <= pool as u128);
            let reward: u64 = reward_wide as u64;
            let name = self.voting_power[i].0.clone();
            self.voting_power.set(i, (name, power + reward));
            i = i + 1;
        }
    }
}

/// The total power of a prefix never exceeds the total of the whole
/// list.
proof fn lemma_subrange_total_power_le(ps: Seq<(String, u64)>, t: int)
    requires
        0 <= t < ps.len(),
    ensures
        spec_total_power(ps.subrange(0, t)) + ps[t].1 <= spec_total_power(ps),
    decreases ps.len() - t,
{
    if t == ps.len() - 1 {
        assert(ps.subrange(0, ps.len() as int) =~= ps);
        assert(ps.subrange(0, t).drop_last() =~= ps.subrange(0, t - 0).drop_last());
        assert(spec_total_power(ps) == spec_total_power(ps.drop_last()) + ps.last().1);
        assert(ps.subrange(0, t) =~= ps.drop_last());
    } else {
        lemma_subrange_total_power_le(ps.drop_last(), t);
        assert(ps.drop_last().subrange(0, t) =~= ps.subrange(0, t));
        assert(ps.drop_last()[t] == ps[t]);
        lemma_total_power_nonneg(ps.drop_last());
        assert(spec_total_power(ps) == spec_total_power(ps.drop_last()) + ps.last().1);
    }
}

/// The consensus engine: the four mechanisms, the hybrid controller,
/// the shared metrics and the chain configuration.
pub struct QuantumFuseConsensus {
    pub qpow: QPOWConsensus,
    pub qpos: QPoSConsensus,
    pub qdpos: QDPoSConsensus,
    pub gpow: GPoWConsensus,
    pub hybrid: HybridConsensus,
    pub metrics: ConsensusMetrics,
    pub config: ConsensusConfig,
}

/// The mechanism the engine actually runs under: the controller's
/// choice, or — while the controller is still in its meta-state — the
/// decision table applied to the current metrics. Never the meta-state
/// itself.
pub open spec fn spec_effective_mechanism(c: QuantumFuseConsensus) -> ConsensusType {
    if c.hybrid.current_mechanism == ConsensusType::Hybrid {
        spec_select_mechanism(
            c.metrics.network_load_milli,
            c.metrics.security_level_milli,
            c.metrics.energy_efficiency_milli,
        )
    } else {
        c.hybrid.current_mechanism
    }
}

/// What the engine's validation decides for a block and proposer: the
/// active mechanism's own rule.
pub open spec fn spec_engine_validates(
    c: QuantumFuseConsensus,
    b: QuantumBlock,
    proposer: Seq<char>,
) -> bool {
    match spec_effective_mechanism(c) {
        ConsensusType::QPOW => spec_pow_ok(b, c.qpow.difficulty),
        ConsensusType::QPOS => spec_has_stake(c.qpos.validators@, proposer, c.qpos.minimum_stake),
        ConsensusType::QDPOS => spec_name_listed(c.qdpos.active_validators@, proposer),
        ConsensusType::GPOW => spec_has_renewable(c.gpow.renewable_energy_validators@, proposer),
        ConsensusType::Hybrid => false,
    }
}

impl QuantumFuseConsensus {
    /// The engine is well formed when its sub-mechanisms are.
    pub open spec fn wf(&self) -> bool {
        &&& self.qpow.wf()
        &&& self.qpos.wf()
    }

    /// A fresh engine under the given configuration: difficulty one,
    /// no validators or delegates yet, the controller in its
    /// meta-state.
    pub fn new(config: ConsensusConfig, now: u64) -> (r: QuantumFuseConsensus)
        ensures
            r.wf(),
            r.hybrid.current_mechanism == ConsensusType::Hybrid,
            r.qpow.difficulty == 1,
            r.qpos.minimum_stake == config.minimum_stake,
            r.qpos.validators@.len() == 0,
            r.qdpos.active_validators@.len() == 0,
            r.gpow.renewable_energy_validators@.len() == 0,
            r.metrics.blocks_validated == 0,
            r.metrics.blocks_mined == 0,
            r.config == config,
    {
        QuantumFuseConsensus {
            qpow: QPOWConsensus::new(now),
            qpos: QPoSConsensus::new(config.minimum_stake, now),
            qdpos: QDPoSConsensus::new(now),
            gpow: GPoWConsensus::new(now),
            hybrid: HybridConsensus::new(now),
            metrics: ConsensusMetrics {
                blocks_validated: 0,
                blocks_mined: 0,
                network_load_milli: 0,
                security_level_milli: 1000,
                energy_efficiency_milli: 1000,
                last_validation: now,
                last_block: now,
            },
            config,
        }
    }

    /// Validates a block under the active mechanism's rule and counts
    /// the validation. The result is exactly the active rule's verdict;
    /// only the validation counter and its clock change.
    pub fn validate_block(&mut self, block: &QuantumBlock, proposer: &String, now: u64) -> (r:
        Result<bool, ConsensusError>)
        requires
            old(self).wf(),
        ensures
            final(self).wf(),
            r == Result::<bool, ConsensusError>::Ok(
                spec_engine_validates(*old(self), *block, proposer@),
            ),
            final(self).metrics.blocks_validated as int == (if old(
                self,
            ).metrics.blocks_validated < u64::MAX {
                old(self).metrics.blocks_validated + 1
            } else {
                u64::MAX as int
            }),
            final(self).metrics.last_validation == now,
            final(self).qpow == old(self).qpow,
            final(self).qpos == old(self).qpos,
            final(self).qdpos == old(self).qdpos,
            final(self).gpow == old(self).gpow,
            final(self).hybrid == old(self).hybrid,
    {
        let mechanism = self.effective_mechanism();
        let verdict = match mechanism {
            ConsensusType::QPOW => self.qpow.validate_block(block),
            ConsensusType::QPOS => self.qpos.validate_block(block, proposer),
            ConsensusType::QDPOS => self.qdpos.validate_block(block, proposer),
            ConsensusType::GPOW => self.gpow.validate_block(block, proposer),
            ConsensusType::Hybrid => false,
        };
        if self.metrics.blocks_validated < u64::MAX {
            self.metrics.blocks_validated = self.metrics.blocks_validated + 1;
        }
        self.metrics.last_validation = now;
        Result::Ok(verdict)
    }

    /// The mechanism the engine runs under right now.
    pub fn effective_mechanism(&self) -> (r: ConsensusType)
        ensures
            r == spec_effective_mechanism(*self),
            r != ConsensusType::Hybrid,
    {
        match self.hybrid.current_mechanism {
            ConsensusType::Hybrid => select_mechanism(
                self.metrics.network_load_milli,
                self.metrics.security_level_milli,
                self.metrics.energy_efficiency_milli,
            ),
            ConsensusType::QPOW => ConsensusType::QPOW,
            ConsensusType::QPOS => ConsensusType::QPOS,
            ConsensusType::QDPOS => ConsensusType::QDPOS,
            ConsensusType::GPOW => ConsensusType::GPOW,
        }
    }

    /// Mines a block under the active mechanism, stamped with the
    /// given time and a fresh 32-byte beacon: proof-of-work searches
    /// for a nonce meeting the difficulty target, every other
    /// mechanism builds the block and attaches the miner's signature
    /// — and always succeeds on a non-empty transaction list. `Ok`
    /// blocks carry the given transactions and context, and the
    /// mechanism's proof. Counts the mined block.
    pub fn mine_block(
        &mut self,
        transactions: Vec<QuantumTransaction>,
        parent_hash: HashDigest,
        state_root: HashDigest,
        validator_set: ValidatorSet,
        height: u64,
        miner_index: usize,
        miner_sk: &Vec<u8>,
        now: u64,
    ) -> (r: Result<QuantumBlock, ConsensusError>)
        requires
            old(self).wf(),
            miner_sk@.len() == DILITHIUM_SK_LEN,
        ensures
            final(self).wf(),
            transactions@.len() == 0 ==> r == Result::<QuantumBlock, ConsensusError>::Err(
                ConsensusError::EmptyTransactions,
            ),
            (transactions@.len() > 0 && spec_effective_mechanism(*old(self))
                != ConsensusType::QPOW) ==> r is Ok,
            final(self).metrics.blocks_mined as int == spec_saturate_u64(
                old(self).metrics.blocks_mined + 1,
            ),
            final(self).metrics.last_block == now,
            r matches Result::Ok(b) ==> b.transactions@ == transactions@ && b.header.height
                == height && b.header.prev_hash@ == parent_hash@ && b.header.timestamp == now
                && (spec_effective_mechanism(*old(self)) == ConsensusType::QPOW ==> spec_pow_ok(
                b,
                old(self).qpow.difficulty,
            )) && (spec_effective_mechanism(*old(self)) != ConsensusType::QPOW ==> (
            b.signatures@.len() == 1 && b.signatures@.last().validator_index == miner_index
                && b.signatures@.last().signature@ == dilithium_sig_of(
                spec_block_signing_digest(b),
                miner_sk@,
            ))),
            final(self).qpow == old(self).qpow,
            final(self).qpos == old(self).qpos,
            final(self).qdpos == old(self).qdpos,
            final(self).gpow == old(self).gpow,
            final(self).hybrid == old(self).hybrid,
    {
        let mechanism = self.effective_mechanism();
        let beacon = random_bytes(32);
        let result = match mechanism {
            ConsensusType::QPOW => self.qpow.mine_block(
                transactions,
                parent_hash,
                state_root,
                validator_set,
                height,
                now,
                beacon,
            ),
            _ => {
                match QuantumBlock::new_with(
                    parent_hash,
                    transactions,
                    state_root,
                    validator_set,
                    height,
                    now,
                    beacon,
                ) {
                    Result::Err(_) => Result::Err(ConsensusError::EmptyTransactions),
                    Result::Ok(mut b) => {
                        b.sign(miner_index, miner_sk);
                        Result::Ok(b)
                    },
                }
            },
        };
        if self.metrics.blocks_mined < u64::MAX {
            self.metrics.blocks_mined = self.metrics.blocks_mined + 1;
        }
        self.metrics.last_block = now;
        result
    }

    /// Pays rewards under the active mechanism: the stake-based
    /// mechanisms pay proportionally; the proof-of-work variants pay
    /// nothing.
    pub fn distribute_rewards(&mut self, reward_pool: u64, now: u64) -> (r: Result<
        (),
        ConsensusError,
    >)
        requires
            old(self).wf(),
        ensures
            final(self).wf(),
            (spec_effective_mechanism(*old(self)) == ConsensusType::QPOW
                || spec_effective_mechanism(*old(self)) == ConsensusType::GPOW) ==> (*final(self)
                == *old(self) && r is Ok),
            spec_effective_mechanism(*old(self)) == ConsensusType::QPOS ==> ((r is Ok
                <==> old(self).qpos.total_stake + reward_pool <= u64::MAX) && final(self).qdpos
                == old(self).qdpos && (r is Err ==> *final(self) == *old(self)) && (r is Ok
                && old(self).qpos.total_stake > 0 ==> forall|i: int|
                0 <= i < final(self).qpos.validators@.len()
                    ==> (#[trigger] final(self).qpos.validators@[i]).rewards_earned as int
                    == spec_saturate_u64(
                    old(self).qpos.validators@[i].rewards_earned + (reward_pool as int)
                        * (old(self).qpos.validators@[i].stake as int)
                        / (old(self).qpos.total_stake as int),
                ))),
            spec_effective_mechanism(*old(self)) == ConsensusType::QDPOS ==> ((r is Ok
                <==> spec_total_power(old(self).qdpos.voting_power@) < u64::MAX
                && spec_total_power(old(self).qdpos.voting_power@) + reward_pool <= u64::MAX)
                && final(self).qpos == old(self).qpos && (r is Err ==> *final(self) == *old(self))
                && (r is Ok && spec_total_power(old(self).qdpos.voting_power@) > 0 ==> forall|
                i: int,
            |
                0 <= i < final(self).qdpos.voting_power@.len()
                    ==> (#[trigger] final(self).qdpos.voting_power@[i]).1 as int
                    == old(self).qdpos.voting_power@[i].1 + (reward_pool as int)
                    * (old(self).qdpos.voting_power@[i].1 as int)
                    / spec_total_power(old(self).qdpos.voting_power@))),
    {
        let mechanism = self.effective_mechanism();
        match mechanism {
            ConsensusType::QPOS => {
                if reward_pool <= u64::MAX - self.qpos.total_stake {
                    self.qpos.distribute_rewards(reward_pool, now);
                    Result::Ok(())
                } else {
                    Result::Err(ConsensusError::InvalidConsensusData)
                }
            },
            ConsensusType::QDPOS => {
                let total = total_power_of(&self.qdpos.voting_power);
                if total < u64::MAX && reward_pool <= u64::MAX - total {
                    proof {
                        lemma_total_power_nonneg(self.qdpos.voting_power@);
                    }
                    self.qdpos.distribute_rewards(reward_pool);
                    Result::Ok(())
                } else {
                    Result::Err(ConsensusError::InvalidConsensusData)
                }
            },
            _ => Result::Ok(()),
        }
    }

    /// One adjustment tick: the proof-of-work difficulty retargets
    /// (interval-gated) and the controller re-applies its decision
    /// table to the current metrics.
    pub fn adjust_parameters(&mut self, now: u64)
        requires
            old(self).wf(),
        ensures
            final(self).wf(),
            final(self).hybrid.current_mechanism == spec_select_mechanism(
                old(self).metrics.network_load_milli,
                old(self).metrics.security_level_milli,
                old(self).metrics.energy_efficiency_milli,
            ),
            !old(self).qpow.spec_retarget_due(now) ==> final(self).qpow == old(self).qpow,
            old(self).qpow.spec_retarget_due(now) ==> final(self).qpow.difficulty
                == QPOWConsensus::spec_retarget(
                old(self).qpow.difficulty,
                old(self).metrics.network_load_milli,
            ),
            final(self).metrics == old(self).metrics,
            final(self).qpos == old(self).qpos,
            final(self).qdpos == old(self).qdpos,
            final(self).gpow == old(self).gpow,
    {
        let metrics = self.metrics;
        self.qpow.adjust_parameters(&metrics, now);
        self.hybrid.adjust_parameters(&metrics, now);
    }

    /// Feeds fresh observed metrics into the engine.
    pub fn observe_metrics(&mut self, load_milli: u64, security_milli: u64, efficiency_milli: u64)
        requires
            old(self).wf(),
        ensures
            final(self).wf(),
            final(self).metrics.network_load_milli == load_milli,
            final(self).metrics.security_level_milli == security_milli,
            final(self).metrics.energy_efficiency_milli == efficiency_milli,
            final(self).metrics.blocks_validated == old(self).metrics.blocks_validated,
            final(self).metrics.blocks_mined == old(self).metrics.blocks_mined,
            final(self).qpow == old(self).qpow,
            final(self).qpos == old(self).qpos,
            final(self).qdpos == old(self).qdpos,
            final(self).gpow == old(self).gpow,
            final(self).hybrid == old(self).hybrid,
    {
        self.metrics.network_load_milli = load_milli;
        self.metrics.security_level_milli = security_milli;
        self.metrics.energy_efficiency_milli = efficiency_milli;
    }

    /// The engine's running metrics.
    pub fn get_metrics(&self) -> (r: ConsensusMetrics)
        ensures
            r == self.metrics,
    {
        self.metrics
    }
}

/// The total voting power of the delegate list, saturating at the
/// integer limit.
pub fn total_power_of(ps: &Vec<(String, u64)>) -> (r: u64)
    ensures
        spec_total_power(ps@) <= u64::MAX ==> r as int == spec_total_power(ps@),
        spec_total_power(ps@) > u64::MAX ==> r == u64::MAX,
{
    let mut total: u64 = 0;
    let mut i: usize = 0;
    let ghost whole = ps@;
    while i < ps.len()
        invariant
            i <= ps@.len(),
            spec_total_power(ps@.subrange(0, i as int)) <= u64::MAX ==> total as int
                == spec_total_power(ps@.subrange(0, i as int)),
            spec_total_power(ps@.subrange(0, i as int)) > u64::MAX ==> total == u64::MAX,
        decreases ps@.len() - i,
    {
        let ghost prefix = ps@.subrange(0, i as int);
        proof {
            lemma_total_power_nonneg(prefix);
        }
        let p = ps[i].1;
        if total <= u64::MAX - p {
            total = total + p;
        } else {
            total = u64::MAX;
        }
        i = i + 1;
        proof {
            assert(ps@.subrange(0, i as int).drop_last() =~= prefix);
            assert(ps@.subrange(0, i as int).last() == ps@[i - 1]);
        }
    }
    assert(ps@.subrange(0, ps@.len() as int) =~= ps@);
    total
}

} // verus!
