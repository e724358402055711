//! The native token: balances, staking, vesting schedules and supply
//! accounting.
//!
//! The ledger's invariant: the circulating supply equals the sum of
//! every holder's available, locked and staked tokens, and never
//! exceeds the total supply. Minting, transfers and staking all
//! preserve it, which also rules every overflow out.

use vstd::prelude::*;

use crate::codec::spec_u64_le;
use crate::crypto::{blake3_hash, blake3_of, HashDigest};
use crate::codec::push_u64_le;

verus! {

/// The fixed total supply of the token.
pub const TOTAL_SUPPLY: u64 = 1000000000;

/// Seconds in the 30-day staking lock and vesting release interval.
pub const THIRTY_DAYS: u64 = 2592000;

/// Seconds in the one-year vesting cliff.
pub const ONE_YEAR: u64 = 31536000;

/// What a token allocation is reserved for.
#[derive(Clone, Copy, PartialEq, Eq, Structural, Debug)]
pub enum AllocationType {
    FoundersTeam,
    Advisors,
    PrivateSale,
    PublicSale,
    EcosystemFund,
    StakingRewards,
    Treasury,
}

/// One reserved allocation of the supply; the share is in parts per
/// thousand.
pub struct AllocationDetails {
    pub allocation_type: AllocationType,
    pub allocation_milli: u64,
    pub vesting_years: u32,
    pub allocated_tokens: u64,
    pub claimed_tokens: u64,
    pub last_claim: Option<u64>,
}

/// One holder's tokens, split by state.
#[derive(Clone, Copy, PartialEq, Eq, Structural, Debug)]
pub struct Balance {
    pub available: u64,
    pub locked: u64,
    pub staked: u64,
    pub last_transaction: u64,
}

/// One holder's staking position; the compound rate is in parts per
/// thousand.
#[derive(Clone, Copy, PartialEq, Eq, Structural, Debug)]
pub struct StakingInfo {
    pub amount: u64,
    pub start_time: u64,
    pub unlock_time: u64,
    pub rewards_earned: u64,
    pub compound_rate_milli: u64,
}

/// One holder's vesting schedule, all times in seconds.
#[derive(Clone, Copy, PartialEq, Eq, Structural, Debug)]
pub struct VestingSchedule {
    pub total_amount: u64,
    pub released_amount: u64,
    pub start_time: u64,
    pub end_time: u64,
    pub cliff_seconds: u64,
    pub release_interval: u64,
    pub next_release: u64,
}

/// The kind of a ledger operation.
#[derive(Clone, Copy, PartialEq, Eq, Structural, Debug)]
pub enum TransactionType {
    Transfer,
    Mint,
    Burn,
    Stake,
    Unstake,
    ClaimRewards,
    VestingRelease,
}

/// Where a ledger operation stands.
pub enum TransactionStatus {
    Pending,
    Completed,
    Failed(String),
}

/// The record a ledger operation leaves behind.
pub struct TransactionRecord {
    pub hash: HashDigest,
    pub transaction_type: TransactionType,
    pub from: String,
    pub to: String,
    pub amount: u64,
    pub timestamp: u64,
    pub status: TransactionStatus,
}

/// Supply-level running figures.
#[derive(Clone, Copy, PartialEq, Eq, Structural, Debug)]
pub struct TokenMetrics {
    pub total_supply: u64,
    pub circulating_supply: u64,
    pub total_staked: u64,
    pub holder_count: usize,
    pub last_updated: u64,
}

/// Everything that can go wrong with a ledger operation.
#[derive(Clone, Copy, PartialEq, Eq, Structural, Debug)]
pub enum QFCError {
    InvalidAmount,
    ExceedsTotalSupply,
    InsufficientBalance,
    NoVestingSchedule,
    VestingNotReady,
    NoTokensToRelease,
}

/// The token ledger.
pub struct QuantumFuseCoin {
    pub total_supply: u64,
    pub circulating_supply: u64,
    pub allocation: Vec<(String, AllocationDetails)>,
    pub balances: Vec<(String, Balance)>,
    pub staking: Vec<(String, StakingInfo)>,
    pub vesting_schedules: Vec<(String, VestingSchedule)>,
    pub metrics: TokenMetrics,
    pub last_updated: u64,
}

/// The position of the first balance entry carrying `id`, or -1.
pub open spec fn spec_balance_index(bs: Seq<(String, Balance)>, id: Seq<char>) -> int
    decreases bs.len(),
{
    if bs.len() == 0 {
        -1
    } else if bs.first().0@ == id {
        0
    } else {
        let r = spec_balance_index(bs.drop_first(), id);
        if r < 0 {
            -1
        } else {
            r + 1
        }
    }
}

/// The index points into the list at the entry with that name.
pub proof fn lemma_balance_index_spec(bs: Seq<(String, Balance)>, id: Seq<char>)
    ensures
        spec_balance_index(bs, id) >= 0 ==> spec_balance_index(bs, id) < bs.len() && bs[
            spec_balance_index(bs, id)
        ].0@ == id,
        spec_balance_index(bs, id) == -1 ==> forall|k: int|
            0 <= k < bs.len() ==> (#[trigger] bs[k]).0@ != id,
    decreases bs.len(),
{
    if bs.len() > 0 && bs.first().0@ != id {
        lemma_balance_index_spec(bs.drop_first(), id);
        assert forall|k: int| 0 <= k < bs.len() && spec_balance_index(bs, id) == -1 implies (
        #[trigger] bs[k]).0@ != id by {
            if k > 0 {
                assert(bs.drop_first()[k - 1] == bs[k]);
            }
        }
    }
}

/// A match at `i` with no earlier match pins the index to `i`.
pub proof fn lemma_balance_index_first_match(bs: Seq<(String, Balance)>, id: Seq<char>, i: int)
    requires
        0 <= i < bs.len(),
        bs[i].0@ == id,
        forall|k: int| 0 <= k < i ==> (#[trigger] bs[k]).0@ != id,
    ensures
        spec_balance_index(bs, id) == i,
    decreases i,
{
    if i > 0 {
        assert forall|k: int| 0 <= k < i - 1 implies (#[trigger] bs.drop_first()[k]).0@ != id by {
            assert(bs.drop_first()[k] == bs[k + 1]);
        }
        assert(bs.drop_first()[i - 1] == bs[i]);
        lemma_balance_index_first_match(bs.drop_first(), id, i - 1);
    }
}

/// No match anywhere pins the index to -1.
pub proof fn lemma_balance_index_no_match(bs: Seq<(String, Balance)>, id: Seq<char>)
    requires
        forall|k: int| 0 <= k < bs.len() ==> (#[trigger] bs[k]).0@ != id,
    ensures
        spec_balance_index(bs, id) == -1,
    decreases bs.len(),
{
    if bs.len() > 0 {
        assert forall|k: int| 0 <= k < bs.drop_first().len() implies (#[trigger] bs.drop_first()[
            k
        ]).0@ != id by {
            assert(bs.drop_first()[k] == bs[k + 1]);
        }
        lemma_balance_index_no_match(bs.drop_first(), id);
    }
}

/// The position of the first vesting entry carrying `id`, or -1.
pub open spec fn spec_vesting_index(vs: Seq<(String, VestingSchedule)>, id: Seq<char>) -> int
    decreases vs.len(),
{
    if vs.len() == 0 {
        -1
    } else if vs.first().0@ == id {
        0
    } else {
        let r = spec_vesting_index(vs.drop_first(), id);
        if r < 0 {
            -1
        } else {
            r + 1
        }
    }
}

/// The index points into the list at the entry with that name.
pub proof fn lemma_vesting_index_spec(vs: Seq<(String, VestingSchedule)>, id: Seq<char>)
    ensures
        spec_vesting_index(vs, id) >= 0 ==> spec_vesting_index(vs, id) < vs.len() && vs[
            spec_vesting_index(vs, id)
        ].0@ == id,
    decreases vs.len(),
{
    if vs.len() > 0 && vs.first().0@ != id {
        lemma_vesting_index_spec(vs.drop_first(), id);
    }
}

/// A match at `i` with no earlier match pins the index to `i`.
pub proof fn lemma_vesting_index_first_match(vs: Seq<(String, VestingSchedule)>, id: Seq<char>, i: int)
    requires
        0 <= i < vs.len(),
        vs[i].0@ == id,
        forall|k: int| 0 <= k < i ==> (#[trigger] vs[k]).0@ != id,
    ensures
        spec_vesting_index(vs, id) == i,
    decreases i,
{
    if i > 0 {
        assert forall|k: int| 0 <= k < i - 1 implies (#[trigger] vs.drop_first()[k]).0@ != id by {
            assert(vs.drop_first()[k] == vs[k + 1]);
        }
        assert(vs.drop_first()[i - 1] == vs[i]);
        lemma_vesting_index_first_match(vs.drop_first(), id, i - 1);
    }
}

/// No match anywhere pins the index to -1.
pub proof fn lemma_vesting_index_no_match(vs: Seq<(String, VestingSchedule)>, id: Seq<char>)
    requires
        forall|k: int| 0 <= k < vs.len() ==> (#[trigger] vs[k]).0@ != id,
    ensures
        spec_vesting_index(vs, id) == -1,
    decreases vs.len(),
{
    if vs.len() > 0 {
        assert forall|k: int| 0 <= k < vs.drop_first().len() implies (#[trigger] vs.drop_first()[
            k
        ]).0@ != id by {
            assert(vs.drop_first()[k] == vs[k + 1]);
        }
        lemma_vesting_index_no_match(vs.drop_first(), id);
    }
}

/// The tokens the named holder's schedule has vested but not yet
/// released at time `now`; a malformed schedule (ending before it
/// starts) vests nothing.
pub open spec fn spec_claimable(s: VestingSchedule, now: u64) -> int {
    if s.end_time >= s.start_time {
        spec_vested_amount(s, now)
    } else {
        0
    }
}

/// All tokens one entry holds, whatever their state.
pub open spec fn spec_entry_tokens(e: (String, Balance)) -> int {
    e.1.available + e.1.locked + e.1.staked
}

/// All tokens the ledger holds across every entry.
pub open spec fn spec_held_tokens(bs: Seq<(String, Balance)>) -> int
    decreases bs.len(),
{
    if bs.len() == 0 {
        0
    } else {
        spec_held_tokens(bs.drop_last()) + spec_entry_tokens(bs.last())
    }
}

/// Replacing one entry changes the held total by the difference.
proof fn lemma_held_tokens_update(bs: Seq<(String, Balance)>, i: int, e: (String, Balance))
    requires
        0 <= i < bs.len(),
    ensures
        spec_held_tokens(bs.update(i, e)) == spec_held_tokens(bs) + spec_entry_tokens(e)
            - spec_entry_tokens(bs[i]),
    decreases bs.len(),
{
    if i == bs.len() - 1 {
        assert(bs.update(i, e).drop_last() =~= bs.drop_last());
        assert(bs.update(i, e).last() == e);
    } else {
        lemma_held_tokens_update(bs.drop_last(), i, e);
        assert(bs.update(i, e).drop_last() =~= bs.drop_last().update(i, e));
        assert(bs.update(i, e).last() == bs.last());
    }
}

/// No single entry holds more than the whole ledger.
proof fn lemma_entry_le_held(bs: Seq<(String, Balance)>, i: int)
    requires
        0 <= i < bs.len(),
    ensures
        spec_entry_tokens(bs[i]) <= spec_held_tokens(bs),
        spec_held_tokens(bs) >= 0,
    decreases bs.len(),
{
    lemma_held_tokens_nonneg(bs.drop_last());
    if i < bs.len() - 1 {
        lemma_entry_le_held(bs.drop_last(), i);
        assert(bs.drop_last()[i] == bs[i]);
    }
}

/// The held total is never negative.
proof fn lemma_held_tokens_nonneg(bs: Seq<(String, Balance)>)
    ensures
        spec_held_tokens(bs) >= 0,
    decreases bs.len(),
{
    if bs.len() > 0 {
        lemma_held_tokens_nonneg(bs.drop_last());
    }
}

/// The total amount parked in the staking table.
pub open spec fn spec_staked_total(ss: Seq<(String, StakingInfo)>) -> int
    decreases ss.len(),
{
    if ss.len() == 0 {
        0
    } else {
        spec_staked_total(ss.drop_last()) + ss.last().1.amount
    }
}

/// The tokens already claimable from a schedule at time `now`:
/// nothing before the cliff; after it, the linear share of the total,
/// capped at the total, less what was already released.
pub open spec fn spec_vested_amount(s: VestingSchedule, now: u64) -> int {
    if now < s.start_time + s.cliff_seconds {
        0
    } else {
        let dur = s.end_time - s.start_time;
        let elapsed = if now >= s.start_time {
            now - s.start_time
        } else {
            0
        };
        let capped = if elapsed <= dur {
            elapsed
        } else {
            dur
        };
        let vested = if dur > 0 {
            s.total_amount * capped / dur
        } else {
            s.total_amount as int
        };
        if vested >= s.released_amount {
            vested - s.released_amount
        } else {
            0
        }
    }
}

/// How a successful transfer relates the old balance book to the new
/// one: the sender at its position is debited; then the recipient,
/// looked up in the debited book, is credited, or appended holding
/// exactly the transferred amount when no entry carries the name yet.
pub open spec fn spec_coin_transfer_result(
    bs: Seq<(String, Balance)>,
    bs2: Seq<(String, Balance)>,
    sender: Seq<char>,
    recipient: Seq<char>,
    amount: u64,
    now: u64,
) -> bool {
    let i = spec_balance_index(bs, sender);
    let debited = (
        bs[i].0,
        Balance {
            available: (bs[i].1.available - amount) as u64,
            locked: bs[i].1.locked,
            staked: bs[i].1.staked,
            last_transaction: now,
        },
    );
    let ws1 = bs.update(i, debited);
    let j = spec_balance_index(ws1, recipient);
    if j < 0 {
        bs2.len() == ws1.len() + 1 && bs2.subrange(0, ws1.len() as int) == ws1 && bs2.last().0@
            == recipient && bs2.last().1 == Balance {
            available: amount,
            locked: 0,
            staked: 0,
            last_transaction: now,
        }
    } else {
        bs2 == ws1.update(
            j,
            (
                ws1[j].0,
                Balance {
                    available: (ws1[j].1.available + amount) as u64,
                    locked: ws1[j].1.locked,
                    staked: ws1[j].1.staked,
                    last_transaction: now,
                },
            ),
        )
    }
}

impl QuantumFuseCoin {
    /// The supply invariant: what circulates is exactly what the
    /// entries hold, and never more than the total supply.
    pub open spec fn wf(&self) -> bool {
        &&& self.circulating_supply as int == spec_held_tokens(self.balances@)
        &&& self.circulating_supply <= self.total_supply
    }

    /// A fresh ledger: the fixed total supply, nothing circulating,
    /// the founders' allocation reserved.
    pub fn new(now: u64) -> (r: QuantumFuseCoin)
        ensures
            r.total_supply == TOTAL_SUPPLY,
            r.circulating_supply == 0,
            r.balances@.len() == 0,
            r.staking@.len() == 0,
            r.vesting_schedules@.len() == 0,
            r.allocation@.len() == 1,
            r.wf(),
    {
        let mut allocation: Vec<(String, AllocationDetails)> = Vec::new();
        allocation.push(
            (
                String::from_str("FoundersTeam"),
                AllocationDetails {
                    allocation_type: AllocationType::FoundersTeam,
                    allocation_milli: 150,
                    vesting_years: 4,
                    allocated_tokens: 0,
                    claimed_tokens: 0,
                    last_claim: Option::None,
                },
            ),
        );
        QuantumFuseCoin {
            total_supply: TOTAL_SUPPLY,
            circulating_supply: 0,
            allocation,
            balances: Vec::new(),
            staking: Vec::new(),
            vesting_schedules: Vec::new(),
            metrics: TokenMetrics {
                total_supply: TOTAL_SUPPLY,
                circulating_supply: 0,
                total_staked: 0,
                holder_count: 0,
                last_updated: now,
            },
            last_updated: now,
        }
    }

    /// The position of the balance entry named `id`, if any.
    pub fn find_balance(&self, id: &String) -> (r: Option<usize>)
        ensures
            match r {
                Option::Some(i) => i < self.balances@.len() && spec_balance_index(
                    self.balances@,
                    id@,
                ) == i,
                Option::None => spec_balance_index(self.balances@, id@) == -1,
            },
    {
        let mut i: usize = 0;
        while i < self.balances.len()
            invariant
                i <= self.balances@.len(),
                forall|k: int| 0 <= k < i ==> (#[trigger] self.balances@[k]).0@ != id@,
            decreases self.balances@.len() - i,
        {
            if self.balances[i].0 == *id {
                proof {
                    lemma_balance_index_first_match(self.balances@, id@, i as int);
                }
                return Option::Some(i);
            }
            i = i + 1;
        }
        proof {
            lemma_balance_index_no_match(self.balances@, id@);
        }
        Option::None
    }

    /// The balance of the named holder, if any.
    pub fn balance_of(&self, id: &String) -> (r: Option<Balance>)
        ensures
            spec_balance_index(self.balances@, id@) == -1 <==> r is None,
            r matches Option::Some(b) ==> b == self.balances@[spec_balance_index(
                self.balances@,
                id@,
            )].1,
    {
        match self.find_balance(id) {
            Option::Some(i) => Option::Some(self.balances[i].1),
            Option::None => Option::None,
        }
    }

    /// The digest a ledger record is named by: the hash of the
    /// operation's timestamp.
    pub fn generate_transaction_hash(&self, now: u64) -> (r: HashDigest)
        ensures
            r@ == blake3_of(spec_u64_le(now)),
            r.wf(),
    {
        let mut enc: Vec<u8> = Vec::new();
        push_u64_le(&mut enc, now);
        assert(enc@ =~= spec_u64_le(now));
        HashDigest::compute(enc.as_slice())
    }

    /// Recomputes the supply figures from the ledger.
    pub fn update_metrics(&mut self, now: u64)
        ensures
            final(self).metrics.total_supply == old(self).total_supply,
            final(self).metrics.circulating_supply == old(self).circulating_supply,
            final(self).metrics.total_staked as int == crate::consensus::spec_saturate_u64(
                spec_staked_total(old(self).staking@),
            ),
            final(self).metrics.holder_count == old(self).balances@.len(),
            final(self).metrics.last_updated == now,
            final(self).balances@ == old(self).balances@,
            final(self).staking@ == old(self).staking@,
            final(self).vesting_schedules@ == old(self).vesting_schedules@,
            final(self).circulating_supply == old(self).circulating_supply,
            final(self).total_supply == old(self).total_supply,
            final(self).allocation@ == old(self).allocation@,
            final(self).last_updated == now,
    {
        let mut total_staked: u64 = 0;
        let mut i: usize = 0;
        while i < self.staking.len()
            invariant
                i <= self.staking@.len(),
                total_staked as int == crate::consensus::spec_saturate_u64(
                    spec_staked_total(self.staking@.subrange(0, i as int)),
                ),
            decreases self.staking@.len() - i,
        {
            let ghost prefix = self.staking@.subrange(0, i as int);
            let amount = self.staking[i].1.amount;
            if total_staked <= u64::MAX - amount {
                total_staked = total_staked + amount;
            } else {
                total_staked = u64::MAX;
            }
            i = i + 1;
            proof {
                assert(self.staking@.subrange(0, i as int).drop_last() =~= prefix);
                assert(self.staking@.subrange(0, i as int).last() == self.staking@[i - 1]);
            }
        }
        assert(self.staking@.subrange(0, self.staking@.len() as int) =~= self.staking@);
        self.metrics = TokenMetrics {
            total_supply: self.total_supply,
            circulating_supply: self.circulating_supply,
            total_staked,
            holder_count: self.balances.len(),
            last_updated: now,
        };
        self.last_updated = now;
    }

    /// Mints tokens to a holder. Fails exactly on a zero amount
    /// (`InvalidAmount`) or when the mint would push circulation past
    /// the total supply (`ExceedsTotalSupply`); otherwise the holder's
    /// available tokens and the circulating supply both grow by the
    /// amount, and a completed mint record comes back.
    pub fn mint(&mut self, wallet_id: &String, amount: u64, now: u64) -> (r: Result<
        TransactionRecord,
        QFCError,
    >)
        requires
            old(self).wf(),
        ensures
            final(self).wf(),
            amount == 0 ==> r == Result::<TransactionRecord, QFCError>::Err(
                QFCError::InvalidAmount,
            ) && *final(self) == *old(self),
            amount > 0 && old(self).circulating_supply + amount > old(self).total_supply ==> r
                == Result::<TransactionRecord, QFCError>::Err(QFCError::ExceedsTotalSupply)
                && *final(self) == *old(self),
            amount > 0 && old(self).circulating_supply + amount <= old(self).total_supply ==> (
            r matches Result::Ok(rec) && rec.amount == amount && (rec.transaction_type
                matches TransactionType::Mint) && (rec.status matches TransactionStatus::Completed)
                && rec.from@ == "0x0"@ && rec.to == *wallet_id && rec.timestamp == now
                && final(self).circulating_supply == old(self).circulating_supply + amount
                && spec_balance_index(final(self).balances@, wallet_id@) >= 0 && final(self).balances@[spec_balance_index(final(self).balances@, wallet_id@)].1.available as int
                == (if spec_balance_index(old(self).balances@, wallet_id@) >= 0 {
                old(self).balances@[spec_balance_index(old(self).balances@, wallet_id@)].1.available
                    + amount
            } else {
                amount as int
            })),
            final(self).total_supply == old(self).total_supply,
            final(self).staking@ == old(self).staking@,
            final(self).vesting_schedules@ == old(self).vesting_schedules@,
            final(self).allocation@ == old(self).allocation@,
    {
        if amount == 0 {
            return Result::Err(QFCError::InvalidAmount);
        }
        if amount > self.total_supply - self.circulating_supply {
            return Result::Err(QFCError::ExceedsTotalSupply);
        }
        proof {
            lemma_held_tokens_nonneg(self.balances@);
        }
        match self.find_balance(wallet_id) {
            Option::Some(i) => {
                proof {
                    lemma_balance_index_spec(self.balances@, wallet_id@);
                    lemma_entry_le_held(self.balances@, i as int);
                }
                let ghost before = self.balances@;
                let mut entry = self.balances.remove(i);
                entry.1.available = entry.1.available + amount;
                entry.1.last_transaction = now;
                self.balances.insert(i, entry);
                proof {
                    assert(self.balances@ =~= before.update(i as int, self.balances@[i as int]));
                    lemma_held_tokens_update(before, i as int, self.balances@[i as int]);
                    lemma_balance_index_first_match_preserved(before, self.balances@, wallet_id@);
                }
            },
            Option::None => {
                let ghost before = self.balances@;
                self.balances.push(
                    (
                        wallet_id.clone(),
                        Balance { available: amount, locked: 0, staked: 0, last_transaction: now },
                    ),
                );
                proof {
                    assert(self.balances@.drop_last() =~= before);
                    lemma_balance_index_spec(before, wallet_id@);
                    lemma_balance_index_push_new(before, wallet_id@, self.balances@.last());
                }
            },
        }
        self.circulating_supply = self.circulating_supply + amount;
        self.update_metrics(now);
        Result::Ok(
            TransactionRecord {
                hash: self.generate_transaction_hash(now),
                transaction_type: TransactionType::Mint,
                from: String::from_str("0x0"),
                to: wallet_id.clone(),
                amount,
                timestamp: now,
                status: TransactionStatus::Completed,
            },
        )
    }

    /// Moves available tokens between holders. Fails exactly on a
    /// zero amount (`InvalidAmount`) or when the sender is missing or
    /// short (`InsufficientBalance`); otherwise the sender's available
    /// tokens shrink and the recipient's (created if missing) grow by
    /// the amount. Circulation is unchanged: transfers conserve the
    /// supply.
    pub fn transfer(&mut self, sender: &String, recipient: &String, amount: u64, now: u64) -> (r:
        Result<TransactionRecord, QFCError>)
        requires
            old(self).wf(),
        ensures
            final(self).wf(),
            final(self).circulating_supply == old(self).circulating_supply,
            final(self).total_supply == old(self).total_supply,
            amount == 0 ==> r == Result::<TransactionRecord, QFCError>::Err(
                QFCError::InvalidAmount,
            ) && *final(self) == *old(self),
            amount > 0 && (spec_balance_index(old(self).balances@, sender@) == -1 || old(self).balances@[spec_balance_index(old(self).balances@, sender@)].1.available < amount)
                ==> r == Result::<TransactionRecord, QFCError>::Err(QFCError::InsufficientBalance)
                && *final(self) == *old(self),
            amount > 0 && spec_balance_index(old(self).balances@, sender@) >= 0 && old(self).balances@[spec_balance_index(old(self).balances@, sender@)].1.available >= amount
                ==> (r matches Result::Ok(rec) && rec.amount == amount && (rec.transaction_type
                matches TransactionType::Transfer) && spec_balance_index(
                final(self).balances@,
                sender@,
            ) >= 0 && final(self).balances@[spec_balance_index(
                final(self).balances@,
                sender@,
            )].1.available as int == (if sender@ == recipient@ {
                old(self).balances@[spec_balance_index(old(self).balances@, sender@)].1.available
                    as int
            } else {
                old(self).balances@[spec_balance_index(old(self).balances@, sender@)].1.available
                    - amount
            }) && spec_balance_index(final(self).balances@, recipient@) >= 0
                && spec_coin_transfer_result(
                old(self).balances@,
                final(self).balances@,
                sender@,
                recipient@,
                amount,
                now,
            )),
    {
        if amount == 0 {
            return Result::Err(QFCError::InvalidAmount);
        }
        let i = match self.find_balance(sender) {
            Option::None => {
                return Result::Err(QFCError::InsufficientBalance);
            },
            Option::Some(i) => i,
        };
        if self.balances[i].1.available < amount {
            return Result::Err(QFCError::InsufficientBalance);
        }
        proof {
            lemma_balance_index_spec(self.balances@, sender@);
            lemma_entry_le_held(self.balances@, i as int);
            lemma_held_tokens_nonneg(self.balances@);
        }
        let ghost before = self.balances@;
        let mut entry = self.balances.remove(i);
        entry.1.available = entry.1.available - amount;
        entry.1.last_transaction = now;
        self.balances.insert(i, entry);
        proof {
            assert(self.balances@ =~= before.update(i as int, self.balances@[i as int]));
            lemma_held_tokens_update(before, i as int, self.balances@[i as int]);
            lemma_balance_index_first_match_preserved(before, self.balances@, sender@);
        }
        let ghost mid = self.balances@;
        match self.find_balance(recipient) {
            Option::Some(j) => {
                proof {
                    lemma_balance_index_spec(self.balances@, recipient@);
                    lemma_entry_le_held(self.balances@, j as int);
                    assert(spec_held_tokens(mid) == spec_held_tokens(before) - amount);
                }
                let mut rentry = self.balances.remove(j);
                rentry.1.available = rentry.1.available + amount;
                rentry.1.last_transaction = now;
                self.balances.insert(j, rentry);
                proof {
                    assert(self.balances@ =~= mid.update(j as int, self.balances@[j as int]));
                    lemma_held_tokens_update(mid, j as int, self.balances@[j as int]);
                    lemma_balance_index_first_match_preserved(mid, self.balances@, sender@);
                    lemma_balance_index_first_match_preserved(mid, self.balances@, recipient@);
                    assert(spec_balance_index(self.balances@, sender@) == i as int);
                    if sender@ == recipient@ {
                        assert(j == i);
                        assert(self.balances@[i as int].1.available == before[
                            i as int
                        ].1.available);
                    } else {
                        assert(mid[j as int].0@ == recipient@);
                        assert(mid[i as int].0@ == sender@);
                        assert(j != i);
                        assert(self.balances@[i as int] == mid[i as int]);
                        assert(self.balances@[i as int].1.available == before[
                            i as int
                        ].1.available - amount);
                    }
                    assert(spec_balance_index(self.balances@, recipient@) == j as int);
                }
            },
            Option::None => {
                self.balances.push(
                    (
                        recipient.clone(),
                        Balance { available: amount, locked: 0, staked: 0, last_transaction: now },
                    ),
                );
                proof {
                    assert(self.balances@.drop_last() =~= mid);
                    assert(self.balances@ =~= mid.push(self.balances@.last()));
                    lemma_balance_index_push_new(mid, recipient@, self.balances@.last());
                    lemma_balance_index_prefix_still_matches(mid, self.balances@, sender@);
                    assert(spec_balance_index(self.balances@, sender@) == i as int);
                    assert(self.balances@[i as int] == mid[i as int]);
                    assert(self.balances@[i as int].1.available == before[
                        i as int
                    ].1.available - amount);
                    assert(spec_balance_index(self.balances@, recipient@) == mid.len());
                }
            },
        }
        self.update_metrics(now);
        Result::Ok(
            TransactionRecord {
                hash: self.generate_transaction_hash(now),
                transaction_type: TransactionType::Transfer,
                from: sender.clone(),
                to: recipient.clone(),
                amount,
                timestamp: now,
                status: TransactionStatus::Completed,
            },
        )
    }

    /// Locks available tokens into staking with a 30-day unlock.
    /// Fails exactly on a zero amount (`InvalidAmount`) or when the
    /// holder is missing or short (`InsufficientBalance`); otherwise
    /// the amount moves from available to staked (circulation
    /// unchanged) and the staking table records the position.
    pub fn stake(&mut self, wallet_id: &String, amount: u64, now: u64) -> (r: Result<
        TransactionRecord,
        QFCError,
    >)
        requires
            old(self).wf(),
        ensures
            final(self).wf(),
            final(self).circulating_supply == old(self).circulating_supply,
            amount == 0 ==> r == Result::<TransactionRecord, QFCError>::Err(
                QFCError::InvalidAmount,
            ) && *final(self) == *old(self),
            amount > 0 && (spec_balance_index(old(self).balances@, wallet_id@) == -1 || old(self).balances@[spec_balance_index(old(self).balances@, wallet_id@)].1.available < amount)
                ==> r == Result::<TransactionRecord, QFCError>::Err(QFCError::InsufficientBalance)
                && *final(self) == *old(self),
            amount > 0 && spec_balance_index(old(self).balances@, wallet_id@) >= 0 && old(self).balances@[spec_balance_index(old(self).balances@, wallet_id@)].1.available >= amount
                ==> (r matches Result::Ok(rec) && (rec.transaction_type
                matches TransactionType::Stake) && final(self).balances@[spec_balance_index(
                old(self).balances@,
                wallet_id@,
            )].1.available as int == old(self).balances@[spec_balance_index(
                old(self).balances@,
                wallet_id@,
            )].1.available - amount && final(self).balances@[spec_balance_index(
                old(self).balances@,
                wallet_id@,
            )].1.staked as int == old(self).balances@[spec_balance_index(
                old(self).balances@,
                wallet_id@,
            )].1.staked + amount && final(self).staking@.len() == old(self).staking@.len() + 1
                && final(self).staking@.last().1.amount == amount && final(self).staking@.last().1.unlock_time as int
                == crate::consensus::spec_saturate_u64(now + THIRTY_DAYS)),
    {
        if amount == 0 {
            return Result::Err(QFCError::InvalidAmount);
        }
        let i = match self.find_balance(wallet_id) {
            Option::None => {
                return Result::Err(QFCError::InsufficientBalance);
            },
            Option::Some(i) => i,
        };
        if self.balances[i].1.available < amount {
            return Result::Err(QFCError::InsufficientBalance);
        }
        proof {
            lemma_balance_index_spec(self.balances@, wallet_id@);
            lemma_entry_le_held(self.balances@, i as int);
            lemma_held_tokens_nonneg(self.balances@);
        }
        let ghost before = self.balances@;
        let mut entry = self.balances.remove(i);
        entry.1.available = entry.1.available - amount;
        entry.1.staked = entry.1.staked + amount;
        entry.1.last_transaction = now;
        self.balances.insert(i, entry);
        proof {
            assert(self.balances@ =~= before.update(i as int, self.balances@[i as int]));
            lemma_held_tokens_update(before, i as int, self.balances@[i as int]);
        }
        let info = StakingInfo {
            amount,
            start_time: now,
            unlock_time: if now <= u64::MAX - THIRTY_DAYS {
                now + THIRTY_DAYS
            } else {
                u64::MAX
            },
            rewards_earned: 0,
            compound_rate_milli: 100,
        };
        self.staking.push((wallet_id.clone(), info));
        self.update_metrics(now);
        Result::Ok(
            TransactionRecord {
                hash: self.generate_transaction_hash(now),
                transaction_type: TransactionType::Stake,
                from: wallet_id.clone(),
                to: String::from_str("StakingPool"),
                amount,
                timestamp: now,
                status: TransactionStatus::Completed,
            },
        )
    }

    /// Opens a linear vesting schedule: a one-year cliff, 30-day
    /// releases, running the given number of years from `now`. Fails
    /// exactly on a zero amount.
    pub fn create_vesting_schedule(
        &mut self,
        wallet_id: &String,
        amount: u64,
        duration_years: u32,
        now: u64,
    ) -> (r: Result<VestingSchedule, QFCError>)
        ensures
            amount == 0 ==> r == Result::<VestingSchedule, QFCError>::Err(QFCError::InvalidAmount)
                && *final(self) == *old(self),
            amount > 0 ==> (r matches Result::Ok(s) && s.total_amount == amount
                && s.released_amount == 0 && s.start_time == now && s.cliff_seconds == ONE_YEAR
                && s.release_interval == THIRTY_DAYS && s.end_time as int
                == crate::consensus::spec_saturate_u64(
                now + (duration_years as int) * (ONE_YEAR as int),
            ) && s.next_release as int == crate::consensus::spec_saturate_u64(now + ONE_YEAR)
                && final(self).vesting_schedules@.len() == old(self).vesting_schedules@.len() + 1
                && final(self).vesting_schedules@.last() == ((*wallet_id), s)),
            final(self).balances@ == old(self).balances@,
            final(self).circulating_supply == old(self).circulating_supply,
    {
        if amount == 0 {
            return Result::Err(QFCError::InvalidAmount);
        }
        let span: u64 = (duration_years as u64) * ONE_YEAR;
        proof {
            assert((duration_years as int) * (ONE_YEAR as int) <= u64::MAX) by (nonlinear_arith)
                requires
                    duration_years <= u32::MAX,
            ;
        }
        let end_time: u64 = if now <= u64::MAX - span {
            now + span
        } else {
            u64::MAX
        };
        let next_release: u64 = if now <= u64::MAX - ONE_YEAR {
            now + ONE_YEAR
        } else {
            u64::MAX
        };
        let schedule = VestingSchedule {
            total_amount: amount,
            released_amount: 0,
            start_time: now,
            end_time,
            cliff_seconds: ONE_YEAR,
            release_interval: THIRTY_DAYS,
            next_release,
        };
        self.vesting_schedules.push((wallet_id.clone(), schedule));
        Result::Ok(schedule)
    }

    /// The tokens a schedule has already vested but not released at
    /// time `now`.
    pub fn calculate_vested_amount(&self, schedule: &VestingSchedule, now: u64) -> (r: u64)
        requires
            schedule.end_time >= schedule.start_time,
        ensures
            r as int == spec_vested_amount(*schedule, now),
    {
        if schedule.start_time > u64::MAX - schedule.cliff_seconds
            || now < schedule.start_time + schedule.cliff_seconds {
            if schedule.start_time > u64::MAX - schedule.cliff_seconds {
                proof {
                    assert(schedule.start_time + schedule.cliff_seconds > u64::MAX >= now);
                }
            }
            return 0;
        }
        let dur = schedule.end_time - schedule.start_time;
        let elapsed: u64 = if now >= schedule.start_time {
            now - schedule.start_time
        } else {
            0
        };
        let capped: u64 = if elapsed <= dur {
            elapsed
        } else {
            dur
        };
        let vested: u64 = if dur > 0 {
            assert((schedule.total_amount as u128) * (capped as u128) <= u128::MAX)
                by (nonlinear_arith)
                requires
                    schedule.total_amount <= u64::MAX,
                    capped <= u64::MAX,
            ;
            let wide: u128 = (schedule.total_amount as u128) * (capped as u128) / (dur as u128);
            proof {
                vstd::arithmetic::mul::lemma_mul_inequality(
                    capped as int,
                    dur as int,
                    schedule.total_amount as int,
                );
                vstd::arithmetic::div_mod::lemma_div_is_ordered(
                    (capped as int) * (schedule.total_amount as int),
                    (dur as int) * (schedule.total_amount as int),
                    dur as int,
                );
                vstd::arithmetic::div_mod::lemma_div_multiples_vanish(
                    schedule.total_amount as int,
                    dur as int,
                );
                vstd::arithmetic::mul::lemma_mul_is_commutative(
                    capped as int,
                    schedule.total_amount as int,
                );
                vstd::arithmetic::mul::lemma_mul_is_commutative(
                    dur as int,
                    schedule.total_amount as int,
                );
            }
            wide as u64
        } else {
            schedule.total_amount
        };
        if vested >= schedule.released_amount {
            vested - schedule.released_amount
        } else {
            0
        }
    }

    /// The position of the vesting entry named `id`, if any.
    pub fn find_vesting(&self, id: &String) -> (r: Option<usize>)
        ensures
            match r {
                Option::Some(i) => i < self.vesting_schedules@.len() && spec_vesting_index(
                    self.vesting_schedules@,
                    id@,
                ) == i,
                Option::None => spec_vesting_index(self.vesting_schedules@, id@) == -1,
            },
    {
        let mut i: usize = 0;
        while i < self.vesting_schedules.len()
            invariant
                i <= self.vesting_schedules@.len(),
                forall|k: int| 0 <= k < i ==> (#[trigger] self.vesting_schedules@[k]).0@ != id@,
            decreases self.vesting_schedules@.len() - i,
        {
            if self.vesting_schedules[i].0 == *id {
                proof {
                    lemma_vesting_index_first_match(self.vesting_schedules@, id@, i as int);
                }
                return Option::Some(i);
            }
            i = i + 1;
        }
        proof {
            lemma_vesting_index_no_match(self.vesting_schedules@, id@);
        }
        Option::None
    }

    /// Releases the tokens the named holder's schedule has vested so
    /// far and mints them to the holder. Failures, in their fixed
    /// order: no schedule under the name (`NoVestingSchedule`); the
    /// next release still ahead (`VestingNotReady`); nothing vested
    /// yet (`NoTokensToRelease`); the mint overshooting the total
    /// supply (`ExceedsTotalSupply`). On failure nothing changes. On
    /// success the schedule's released amount grows by the claim, the
    /// next release moves one interval on (saturating), and the claim
    /// is minted to the holder.
    pub fn claim_vested_tokens(&mut self, wallet_id: &String, now: u64) -> (r: Result<
        TransactionRecord,
        QFCError,
    >)
        requires
            old(self).wf(),
        ensures
            final(self).wf(),
            spec_vesting_index(old(self).vesting_schedules@, wallet_id@) == -1 ==> r == Result::<
                TransactionRecord,
                QFCError,
            >::Err(QFCError::NoVestingSchedule) && *final(self) == *old(self),
            spec_vesting_index(old(self).vesting_schedules@, wallet_id@) >= 0 && now < old(self).vesting_schedules@[spec_vesting_index(
                old(self).vesting_schedules@,
                wallet_id@,
            )].1.next_release ==> r == Result::<TransactionRecord, QFCError>::Err(
                QFCError::VestingNotReady,
            ) && *final(self) == *old(self),
            spec_vesting_index(old(self).vesting_schedules@, wallet_id@) >= 0 && now >= old(self).vesting_schedules@[spec_vesting_index(
                old(self).vesting_schedules@,
                wallet_id@,
            )].1.next_release && spec_claimable(
                old(self).vesting_schedules@[spec_vesting_index(
                    old(self).vesting_schedules@,
                    wallet_id@,
                )].1,
                now,
            ) == 0 ==> r == Result::<TransactionRecord, QFCError>::Err(
                QFCError::NoTokensToRelease,
            ) && *final(self) == *old(self),
            spec_vesting_index(old(self).vesting_schedules@, wallet_id@) >= 0 && now >= old(self).vesting_schedules@[spec_vesting_index(
                old(self).vesting_schedules@,
                wallet_id@,
            )].1.next_release && spec_claimable(
                old(self).vesting_schedules@[spec_vesting_index(
                    old(self).vesting_schedules@,
                    wallet_id@,
                )].1,
                now,
            ) > 0 && old(self).circulating_supply + spec_claimable(
                old(self).vesting_schedules@[spec_vesting_index(
                    old(self).vesting_schedules@,
                    wallet_id@,
                )].1,
                now,
            ) > old(self).total_supply ==> r == Result::<TransactionRecord, QFCError>::Err(
                QFCError::ExceedsTotalSupply,
            ) && *final(self) == *old(self),
            r matches Result::Ok(rec) ==> spec_vesting_index(
                old(self).vesting_schedules@,
                wallet_id@,
            ) >= 0 && rec.amount as int == spec_claimable(
                old(self).vesting_schedules@[spec_vesting_index(
                    old(self).vesting_schedules@,
                    wallet_id@,
                )].1,
                now,
            ) && (rec.transaction_type matches TransactionType::Mint) && final(self).circulating_supply as int == old(self).circulating_supply + rec.amount && final(self).vesting_schedules@.len() == old(self).vesting_schedules@.len() && final(self).vesting_schedules@[spec_vesting_index(
                old(self).vesting_schedules@,
                wallet_id@,
            )].1.released_amount as int == crate::consensus::spec_saturate_u64(
                old(self).vesting_schedules@[spec_vesting_index(
                    old(self).vesting_schedules@,
                    wallet_id@,
                )].1.released_amount + rec.amount,
            ) && final(self).vesting_schedules@[
                spec_vesting_index(old(self).vesting_schedules@, wallet_id@)
            ].1.next_release as int == crate::consensus::spec_saturate_u64(
                old(self).vesting_schedules@[spec_vesting_index(
                    old(self).vesting_schedules@,
                    wallet_id@,
                )].1.next_release + old(self).vesting_schedules@[spec_vesting_index(
                    old(self).vesting_schedules@,
                    wallet_id@,
                )].1.release_interval,
            ) && spec_balance_index(final(self).balances@, wallet_id@) >= 0,
    {
        let i = match self.find_vesting(wallet_id) {
            Option::None => {
                return Result::Err(QFCError::NoVestingSchedule);
            },
            Option::Some(i) => i,
        };
        proof {
            lemma_vesting_index_spec(self.vesting_schedules@, wallet_id@);
        }
        let schedule = self.vesting_schedules[i].1;
        if now < schedule.next_release {
            return Result::Err(QFCError::VestingNotReady);
        }
        let claimable: u64 = if schedule.end_time >= schedule.start_time {
            self.calculate_vested_amount(&schedule, now)
        } else {
            0
        };
        if claimable == 0 {
            return Result::Err(QFCError::NoTokensToRelease);
        }
        if claimable > self.total_supply - self.circulating_supply {
            return Result::Err(QFCError::ExceedsTotalSupply);
        }
        let ghost before = self.vesting_schedules@;
        let mut entry = self.vesting_schedules.remove(i);
        entry.1.released_amount = if entry.1.released_amount <= u64::MAX - claimable {
            entry.1.released_amount + claimable
        } else {
            u64::MAX
        };
        entry.1.next_release = if entry.1.next_release <= u64::MAX - entry.1.release_interval {
            entry.1.next_release + entry.1.release_interval
        } else {
            u64::MAX
        };
        self.vesting_schedules.insert(i, entry);
        proof {
            assert(self.vesting_schedules@ =~= before.update(
                i as int,
                self.vesting_schedules@[i as int],
            ));
            let idx = spec_vesting_index(old(self).vesting_schedules@, wallet_id@);
            assert(idx == i as int);
            assert(claimable as int == spec_claimable(old(self).vesting_schedules@[idx].1, now));
            assert(self.vesting_schedules@[idx].1.released_amount as int
                == crate::consensus::spec_saturate_u64(
                old(self).vesting_schedules@[idx].1.released_amount + claimable,
            ));
            assert(self.vesting_schedules@[idx].1.next_release as int
                == crate::consensus::spec_saturate_u64(
                old(self).vesting_schedules@[idx].1.next_release + old(
                    self,
                ).vesting_schedules@[idx].1.release_interval,
            ));
        }
        let result = self.mint(wallet_id, claimable, now);
        result
    }

    /// The supply figures.
    pub fn get_metrics(&self) -> (r: TokenMetrics)
        ensures
            r == self.metrics,
    {
        self.metrics
    }
}

/// An entry update that keeps every name in place also keeps every
/// index: the two ledgers agree on where any name sits.
proof fn lemma_balance_index_first_match_preserved(
    a: Seq<(String, Balance)>,
    b: Seq<(String, Balance)>,
    id: Seq<char>,
)
    requires
        a.len() == b.len(),
        forall|k: int| 0 <= k < a.len() ==> (#[trigger] a[k]).0@ == b[k].0@,
    ensures
        spec_balance_index(a, id) == spec_balance_index(b, id),
    decreases a.len(),
{
    if a.len() > 0 {
        assert(a.first().0@ == b.first().0@);
        assert forall|k: int| 0 <= k < a.drop_first().len() implies (#[trigger] a.drop_first()[
            k
        ]).0@ == b.drop_first()[k].0@ by {
            assert(a.drop_first()[k] == a[k + 1]);
            assert(b.drop_first()[k] == b[k + 1]);
        }
        lemma_balance_index_first_match_preserved(a.drop_first(), b.drop_first(), id);
    }
}

/// Appending an entry whose name was absent makes the new last entry
/// the named one.
proof fn lemma_balance_index_push_new(
    a: Seq<(String, Balance)>,
    id: Seq<char>,
    e: (String, Balance),
)
    requires
        spec_balance_index(a, id) == -1,
        e.0@ == id,
    ensures
        spec_balance_index(a.push(e), id) == a.len(),
    decreases a.len(),
{
    lemma_balance_index_spec(a, id);
    assert forall|k: int| 0 <= k < a.len() implies (#[trigger] a.push(e)[k]).0@ != id by {
        assert(a.push(e)[k] == a[k]);
    }
    assert(a.push(e)[a.len() as int] == e);
    lemma_balance_index_first_match(a.push(e), id, a.len() as int);
}

/// Appending an entry leaves the index of any name that was already
/// present unchanged.
proof fn lemma_balance_index_prefix_still_matches(
    a: Seq<(String, Balance)>,
    b: Seq<(String, Balance)>,
    id: Seq<char>,
)
    requires
        spec_balance_index(a, id) >= 0,
        b.len() == a.len() + 1,
        forall|k: int| 0 <= k < a.len() ==> (#[trigger] b[k]) == a[k],
    ensures
        spec_balance_index(b, id) == spec_balance_index(a, id),
{
    lemma_balance_index_spec(a, id);
    let i = spec_balance_index(a, id);
    assert(b[i].0@ == id);
    assert forall|k: int| 0 <= k < i implies (#[trigger] b[k]).0@ != id by {
        lemma_balance_index_before_is_other(a, id, k);
    }
    lemma_balance_index_first_match(b, id, i);
}

/// Entries before the first match do not carry the name.
proof fn lemma_balance_index_before_is_other(a: Seq<(String, Balance)>, id: Seq<char>, k: int)
    requires
        0 <= k < spec_balance_index(a, id),
    ensures
        a[k].0@ != id,
    decreases k,
{
    lemma_balance_index_spec(a, id);
    assert(a.first().0@ != id);
    if k == 0 {
        assert(a[0] == a.first());
    } else {
        assert(spec_balance_index(a.drop_first(), id) == spec_balance_index(a, id) - 1);
        lemma_balance_index_before_is_other(a.drop_first(), id, k - 1);
        assert(a.drop_first()[k - 1] == a[k]);
    }
}

/// Transfers conserve the circulating supply: the ledger's invariant,
/// stated on its own — what circulates is exactly what all holders
/// together hold, and never more than the total supply.
pub proof fn lemma_supply_conserved(c: QuantumFuseCoin)
    requires
        c.wf(),
    ensures
        c.circulating_supply as int == spec_held_tokens(c.balances@),
        c.circulating_supply <= c.total_supply,
{
}

} // verus!
