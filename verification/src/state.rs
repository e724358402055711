//! The state manager: the single source of truth for balances and
//! stakes, a mempool, a typed event feed for observers, and a running
//! state-root commitment over all of it.
//!
//! Every mutating operation applies its change, recomputes the affected
//! aggregate, records a typed event, and recomputes the state root by
//! hashing a canonical serialization of wallets, mempool and metrics.

use vstd::prelude::*;

use crate::codec::{push_str_enc, push_u64_le, spec_str_enc, spec_u64_le};
use crate::crypto::{blake3_of, HashDigest};
use crate::transaction::QuantumTransaction;

verus! {

/// One account the state manager tracks.
pub struct WalletAccount {
    pub wallet_id: String,
    pub balance: u64,
    pub staked_amount: u64,
}

/// A transaction waiting in the mempool.
pub struct MempoolTransaction {
    pub hash: HashDigest,
    pub from: String,
    pub to: String,
    pub amount: u64,
    pub fee: u64,
    pub timestamp: u64,
}

/// A typed event published on every state change.
pub enum StateEvent {
    BalanceUpdate { wallet_id: String, new_balance: u64 },
    StakeUpdate { wallet_id: String, staked_amount: u64 },
    NewBlock { height: u64, block_hash: HashDigest },
    TpsUpdate { current: u64, predicted: u64 },
    MempoolChange { size: usize, avg_fee: u64 },
}

/// Network-level running figures, ratios in parts per thousand.
#[derive(Clone, Copy, PartialEq, Eq, Structural, Debug)]
pub struct NetworkMetrics {
    pub current_tps: u64,
    pub predicted_tps: u64,
    pub block_time_milli: u64,
    pub network_load_milli: u64,
    pub total_staked: u64,
    pub active_validators: usize,
    pub last_updated: u64,
}

/// A point-in-time capture of height, root and metrics.
pub struct StateSnapshot {
    pub block_height: u64,
    pub state_root: HashDigest,
    pub timestamp: u64,
    pub metrics: NetworkMetrics,
}

/// State-level failures, one variant per cause.
#[derive(Clone, Copy, PartialEq, Eq, Structural, Debug)]
pub enum StateError {
    WalletNotFound,
    InsufficientFunds,
}

/// The state manager.
pub struct QuantumStateManager {
    pub wallets: Vec<WalletAccount>,
    pub mempool: Vec<MempoolTransaction>,
    pub block_height: u64,
    pub events: Vec<StateEvent>,
    pub metrics: NetworkMetrics,
    pub state_root: HashDigest,
}

/// The position of the first account carrying `id`, or -1.
pub open spec fn spec_wallet_index(ws: Seq<WalletAccount>, id: Seq<char>) -> int
    decreases ws.len(),
{
    if ws.len() == 0 {
        -1
    } else if ws.first().wallet_id@ == id {
        0
    } else {
        let r = spec_wallet_index(ws.drop_first(), id);
        if r < 0 {
            -1
        } else {
            r + 1
        }
    }
}

/// The index points into the list at the account with that name.
pub proof fn lemma_wallet_index_spec(ws: Seq<WalletAccount>, id: Seq<char>)
    ensures
        spec_wallet_index(ws, id) >= 0 ==> spec_wallet_index(ws, id) < ws.len() && ws[
            spec_wallet_index(ws, id)
        ].wallet_id@ == id,
        spec_wallet_index(ws, id) == -1 ==> forall|k: int|
            0 <= k < ws.len() ==> (#[trigger] ws[k]).wallet_id@ != id,
    decreases ws.len(),
{
    if ws.len() > 0 && ws.first().wallet_id@ != id {
        lemma_wallet_index_spec(ws.drop_first(), id);
        assert forall|k: int|
            0 <= k < ws.len() && spec_wallet_index(ws, id) == -1 implies (
        #[trigger] ws[k]).wallet_id@ != id by {
            if k > 0 {
                assert(ws.drop_first()[k - 1] == ws[k]);
            }
        }
    }
}

/// A match at `i` with no earlier match pins the index to `i`.
pub proof fn lemma_wallet_index_first_match(ws: Seq<WalletAccount>, id: Seq<char>, i: int)
    requires
        0 <= i < ws.len(),
        ws[i].wallet_id@ == id,
        forall|k: int| 0 <= k < i ==> (#[trigger] ws[k]).wallet_id@ != id,
    ensures
        spec_wallet_index(ws, id) == i,
    decreases i,
{
    if i == 0 {
    } else {
        assert forall|k: int| 0 <= k < i - 1 implies (#[trigger] ws.drop_first()[k]).wallet_id@
            != id by {
            assert(ws.drop_first()[k] == ws[k + 1]);
        }
        assert(ws.drop_first()[i - 1] == ws[i]);
        lemma_wallet_index_first_match(ws.drop_first(), id, i - 1);
    }
}

/// No match anywhere pins the index to -1.
pub proof fn lemma_wallet_index_no_match(ws: Seq<WalletAccount>, id: Seq<char>)
    requires
        forall|k: int| 0 <= k < ws.len() ==> (#[trigger] ws[k]).wallet_id@ != id,
    ensures
        spec_wallet_index(ws, id) == -1,
    decreases ws.len(),
{
    if ws.len() > 0 {
        assert forall|k: int| 0 <= k < ws.drop_first().len() implies (#[trigger] ws.drop_first()[
            k
        ]).wallet_id@ != id by {
            assert(ws.drop_first()[k] == ws[k + 1]);
        }
        lemma_wallet_index_no_match(ws.drop_first(), id);
    }
}

/// An integer clamped into the unsigned 64-bit range from above.
pub open spec fn spec_sat64(x: int) -> int {
    if x <= u64::MAX {
        x
    } else {
        u64::MAX as int
    }
}

/// How a successful transfer relates the old ledger to the new one:
/// the sender at position `i` is debited by amount plus fee; then the
/// recipient, looked up in the debited ledger, is credited
/// (saturating), or appended with the transferred amount when no
/// account carries the name yet.
pub open spec fn spec_transfer_result(
    ws: Seq<WalletAccount>,
    ws2: Seq<WalletAccount>,
    from: Seq<char>,
    to: Seq<char>,
    amount: u64,
    fee: u64,
) -> bool {
    let i = spec_wallet_index(ws, from);
    let debited = WalletAccount {
        wallet_id: ws[i].wallet_id,
        balance: (ws[i].balance - amount - fee) as u64,
        staked_amount: ws[i].staked_amount,
    };
    let ws1 = ws.update(i, debited);
    let j = spec_wallet_index(ws1, to);
    if j < 0 {
        ws2.len() == ws1.len() + 1 && ws2.subrange(0, ws1.len() as int) == ws1
            && ws2.last().wallet_id@ == to && ws2.last().balance == amount
            && ws2.last().staked_amount == 0
    } else {
        ws2 == ws1.update(
            j,
            WalletAccount {
                wallet_id: ws1[j].wallet_id,
                balance: spec_sat64(ws1[j].balance + amount) as u64,
                staked_amount: ws1[j].staked_amount,
            },
        )
    }
}

/// The observable content of one account: its name, balance and
/// stake.
pub open spec fn spec_account_view(w: WalletAccount) -> (Seq<char>, u64, u64) {
    (w.wallet_id@, w.balance, w.staked_amount)
}

/// The observable ledger: each account reduced to name, balance and
/// stake, in order.
pub open spec fn spec_ledger_view(ws: Seq<WalletAccount>) -> Seq<(Seq<char>, u64, u64)> {
    ws.map_values(|w: WalletAccount| spec_account_view(w))
}

/// The position of the first observable account carrying `id`, or -1.
pub open spec fn spec_view_index(vs: Seq<(Seq<char>, u64, u64)>, id: Seq<char>) -> int
    decreases vs.len(),
{
    if vs.len() == 0 {
        -1
    } else if vs.first().0 == id {
        0
    } else {
        let r = spec_view_index(vs.drop_first(), id);
        if r < 0 {
            -1
        } else {
            r + 1
        }
    }
}

/// One transfer over the observable ledger, as a total function:
/// `None` when the sender is missing or cannot cover amount plus fee;
/// otherwise the sender is debited and the recipient (appended if
/// missing) credited, the credit saturating at the integer limit.
pub open spec fn spec_view_transfer(
    vs: Seq<(Seq<char>, u64, u64)>,
    from: Seq<char>,
    to: Seq<char>,
    amount: u64,
    fee: u64,
) -> Option<Seq<(Seq<char>, u64, u64)>> {
    let i = spec_view_index(vs, from);
    if i < 0 {
        Option::None
    } else if (vs[i].1 as int) < amount + fee {
        Option::None
    } else {
        let vs1 = vs.update(i, (vs[i].0, (vs[i].1 - amount - fee) as u64, vs[i].2));
        let j = spec_view_index(vs1, to);
        if j < 0 {
            Option::Some(vs1.push((to, amount, 0u64)))
        } else {
            Option::Some(
                vs1.update(j, (vs1[j].0, spec_sat64(vs1[j].1 + amount) as u64, vs1[j].2)),
            )
        }
    }
}

/// A transaction list folded over the observable ledger, in list
/// order: `None` as soon as one transfer cannot apply.
pub open spec fn spec_view_apply(
    vs: Seq<(Seq<char>, u64, u64)>,
    txs: Seq<QuantumTransaction>,
) -> Option<Seq<(Seq<char>, u64, u64)>>
    decreases txs.len(),
{
    if txs.len() == 0 {
        Option::Some(vs)
    } else {
        match spec_view_transfer(
            vs,
            txs.first().from@,
            txs.first().to@,
            txs.first().amount,
            txs.first().fee,
        ) {
            Option::None => Option::None,
            Option::Some(v2) => spec_view_apply(v2, txs.drop_first()),
        }
    }
}

/// The observable index agrees with the account index.
pub proof fn lemma_view_index_agrees(ws: Seq<WalletAccount>, id: Seq<char>)
    ensures
        spec_view_index(spec_ledger_view(ws), id) == spec_wallet_index(ws, id),
    decreases ws.len(),
{
    if ws.len() > 0 {
        assert(spec_ledger_view(ws).first() == spec_account_view(ws.first()));
        assert(spec_ledger_view(ws).drop_first() =~= spec_ledger_view(ws.drop_first()));
        lemma_view_index_agrees(ws.drop_first(), id);
    }
}

/// Replacing one account replaces one observable entry.
proof fn lemma_ledger_view_update(ws: Seq<WalletAccount>, i: int, w: WalletAccount)
    requires
        0 <= i < ws.len(),
    ensures
        spec_ledger_view(ws.update(i, w)) =~= spec_ledger_view(ws).update(
            i,
            spec_account_view(w),
        ),
{
    assert forall|k: int| 0 <= k < ws.len() implies spec_ledger_view(ws.update(i, w))[k]
        == spec_ledger_view(ws).update(i, spec_account_view(w))[k] by {
        if k != i {
            assert(ws.update(i, w)[k] == ws[k]);
        }
    }
}

/// Appending one account appends one observable entry.
proof fn lemma_ledger_view_push(ws: Seq<WalletAccount>, w: WalletAccount)
    ensures
        spec_ledger_view(ws.push(w)) =~= spec_ledger_view(ws).push(spec_account_view(w)),
{
    assert forall|k: int| 0 <= k < ws.len() + 1 implies spec_ledger_view(ws.push(w))[k]
        == spec_ledger_view(ws).push(spec_account_view(w))[k] by {
        if k < ws.len() {
            assert(ws.push(w)[k] == ws[k]);
        } else {
            assert(ws.push(w)[k] == w);
        }
    }
}

/// A successful transfer's observable effect is exactly the
/// functional transfer over the observable ledger.
pub proof fn lemma_transfer_result_view(
    ws: Seq<WalletAccount>,
    ws2: Seq<WalletAccount>,
    from: Seq<char>,
    to: Seq<char>,
    amount: u64,
    fee: u64,
)
    requires
        spec_wallet_index(ws, from) >= 0,
        ws[spec_wallet_index(ws, from)].balance as int >= amount + fee,
        spec_transfer_result(ws, ws2, from, to, amount, fee),
    ensures
        spec_view_transfer(spec_ledger_view(ws), from, to, amount, fee) == Option::Some(
            spec_ledger_view(ws2),
        ),
{
    let i = spec_wallet_index(ws, from);
    let vs = spec_ledger_view(ws);
    lemma_wallet_index_spec(ws, from);
    lemma_view_index_agrees(ws, from);
    assert(vs[i] == spec_account_view(ws[i]));
    let debited = WalletAccount {
        wallet_id: ws[i].wallet_id,
        balance: (ws[i].balance - amount - fee) as u64,
        staked_amount: ws[i].staked_amount,
    };
    let ws1 = ws.update(i, debited);
    let vs1 = vs.update(i, (vs[i].0, (vs[i].1 - amount - fee) as u64, vs[i].2));
    lemma_ledger_view_update(ws, i, debited);
    assert(spec_account_view(debited) == (vs[i].0, (vs[i].1 - amount - fee) as u64, vs[i].2));
    assert(spec_ledger_view(ws1) =~= vs1);
    lemma_view_index_agrees(ws1, to);
    lemma_wallet_index_spec(ws1, to);
    let j = spec_wallet_index(ws1, to);
    if j < 0 {
        assert forall|k: int| 0 <= k < ws1.len() implies spec_ledger_view(ws2)[k] == vs1[k] by {
            assert(ws2.subrange(0, ws1.len() as int)[k] == ws2[k]);
            assert(ws2[k] == ws1[k]);
            assert(spec_ledger_view(ws1)[k] == vs1[k]);
        }
        assert(spec_account_view(ws2.last()) == (to, amount, 0u64));
        assert(spec_ledger_view(ws2)[ws1.len() as int] == spec_account_view(ws2.last()));
        assert(spec_ledger_view(ws2) =~= vs1.push((to, amount, 0u64)));
    } else {
        assert(vs1[j] == spec_ledger_view(ws1)[j]);
        assert(vs1[j] == spec_account_view(ws1[j]));
        let credited = WalletAccount {
            wallet_id: ws1[j].wallet_id,
            balance: spec_sat64(ws1[j].balance + amount) as u64,
            staked_amount: ws1[j].staked_amount,
        };
        lemma_ledger_view_update(ws1, j, credited);
        assert(spec_account_view(credited) == (
            vs1[j].0,
            spec_sat64(vs1[j].1 + amount) as u64,
            vs1[j].2,
        ));
        assert(spec_ledger_view(ws2) =~= vs1.update(
            j,
            (vs1[j].0, spec_sat64(vs1[j].1 + amount) as u64, vs1[j].2),
        ));
    }
}

/// Folding a concatenation: apply the first list, then the second
/// over its outcome.
pub proof fn lemma_view_apply_concat(
    vs: Seq<(Seq<char>, u64, u64)>,
    a: Seq<QuantumTransaction>,
    b: Seq<QuantumTransaction>,
)
    ensures
        spec_view_apply(vs, a + b) == (match spec_view_apply(vs, a) {
            Option::None => Option::<Seq<(Seq<char>, u64, u64)>>::None,
            Option::Some(v) => spec_view_apply(v, b),
        }),
    decreases a.len(),
{
    if a.len() == 0 {
        assert(a + b =~= b);
    } else {
        assert((a + b).len() > 0);
        assert((a + b).first() == a.first());
        assert((a + b).drop_first() =~= a.drop_first() + b);
        match spec_view_transfer(vs, a.first().from@, a.first().to@, a.first().amount, a.first().fee) {
            Option::None => {
            },
            Option::Some(v2) => {
                lemma_view_apply_concat(v2, a.drop_first(), b);
            },
        }
    }
}

/// The canonical encoding of one account.
pub open spec fn spec_wallet_enc(w: WalletAccount) -> Seq<u8> {
    spec_str_enc(w.wallet_id@) + spec_u64_le(w.balance) + spec_u64_le(w.staked_amount)
}

/// The canonical encoding of the account list, in order.
pub open spec fn spec_wallets_enc(ws: Seq<WalletAccount>) -> Seq<u8>
    decreases ws.len(),
{
    if ws.len() == 0 {
        Seq::<u8>::empty()
    } else {
        spec_wallets_enc(ws.drop_last()) + spec_wallet_enc(ws.last())
    }
}

/// The canonical encoding of one mempool entry.
pub open spec fn spec_mempool_tx_enc(t: MempoolTransaction) -> Seq<u8> {
    t.hash@ + spec_str_enc(t.from@) + spec_str_enc(t.to@) + spec_u64_le(t.amount) + spec_u64_le(
        t.fee,
    ) + spec_u64_le(t.timestamp)
}

/// The canonical encoding of the mempool, in order.
pub open spec fn spec_mempool_enc(mp: Seq<MempoolTransaction>) -> Seq<u8>
    decreases mp.len(),
{
    if mp.len() == 0 {
        Seq::<u8>::empty()
    } else {
        spec_mempool_enc(mp.drop_last()) + spec_mempool_tx_enc(mp.last())
    }
}

/// The canonical encoding of the network metrics.
pub open spec fn spec_metrics_enc(m: NetworkMetrics) -> Seq<u8> {
    spec_u64_le(m.current_tps) + spec_u64_le(m.predicted_tps) + spec_u64_le(m.block_time_milli)
        + spec_u64_le(m.network_load_milli) + spec_u64_le(m.total_staked) + spec_u64_le(
        m.active_validators as u64,
    ) + spec_u64_le(m.last_updated)
}

/// What the state root commits to: wallets, then mempool, then
/// metrics.
pub open spec fn spec_state_enc(
    ws: Seq<WalletAccount>,
    mp: Seq<MempoolTransaction>,
    m: NetworkMetrics,
) -> Seq<u8> {
    spec_wallets_enc(ws) + spec_mempool_enc(mp) + spec_metrics_enc(m)
}

/// The state root over the given contents.
pub open spec fn spec_state_root(
    ws: Seq<WalletAccount>,
    mp: Seq<MempoolTransaction>,
    m: NetworkMetrics,
) -> Seq<u8> {
    blake3_of(spec_state_enc(ws, mp, m))
}

/// The total staked amount across the accounts, saturating at the
/// integer limit.
pub open spec fn spec_total_staked(ws: Seq<WalletAccount>) -> int
    decreases ws.len(),
{
    if ws.len() == 0 {
        0
    } else {
        spec_sat64(spec_total_staked(ws.drop_last()) + ws.last().staked_amount)
    }
}

/// The total of the mempool fees.
pub open spec fn spec_total_fees(mp: Seq<MempoolTransaction>) -> int
    decreases mp.len(),
{
    if mp.len() == 0 {
        0
    } else {
        spec_total_fees(mp.drop_last()) + mp.last().fee
    }
}

/// The average mempool fee, rounded down; zero for an empty mempool.
pub open spec fn spec_avg_fee(mp: Seq<MempoolTransaction>) -> int {
    if mp.len() == 0 {
        0
    } else {
        spec_total_fees(mp) / mp.len() as int
    }
}

/// No single fee exceeds the total.
proof fn lemma_fee_le_total(mp: Seq<MempoolTransaction>, i: int)
    requires
        0 <= i < mp.len(),
    ensures
        mp[i].fee <= spec_total_fees(mp),
        spec_total_fees(mp) >= 0,
    decreases mp.len(),
{
    lemma_total_fees_nonneg(mp.drop_last());
    if i < mp.len() - 1 {
        lemma_fee_le_total(mp.drop_last(), i);
        assert(mp.drop_last()[i] == mp[i]);
    }
}

/// The total fee is never negative.
proof fn lemma_total_fees_nonneg(mp: Seq<MempoolTransaction>)
    ensures
        spec_total_fees(mp) >= 0,
    decreases mp.len(),
{
    if mp.len() > 0 {
        lemma_total_fees_nonneg(mp.drop_last());
    }
}

impl QuantumStateManager {
    /// A fresh state manager: no accounts, an empty mempool, height
    /// zero, and the root over the empty contents.
    pub fn new(now: u64) -> (r: QuantumStateManager)
        ensures
            r.wallets@.len() == 0,
            r.mempool@.len() == 0,
            r.block_height == 0,
            r.events@.len() == 0,
            r.state_root@ == spec_state_root(r.wallets@, r.mempool@, r.metrics),
    {
        let metrics = NetworkMetrics {
            current_tps: 0,
            predicted_tps: 0,
            block_time_milli: 0,
            network_load_milli: 0,
            total_staked: 0,
            active_validators: 0,
            last_updated: now,
        };
        let mut mgr = QuantumStateManager {
            wallets: Vec::new(),
            mempool: Vec::new(),
            block_height: 0,
            events: Vec::new(),
            metrics,
            state_root: HashDigest::zero(),
        };
        mgr.update_state_root();
        mgr
    }

    /// Registers an account as it stands; an account under the same
    /// name must not exist yet.
    pub fn insert_wallet(&mut self, account: WalletAccount)
        requires
            spec_wallet_index(old(self).wallets@, account.wallet_id@) == -1,
        ensures
            final(self).wallets@ == old(self).wallets@ + seq![account],
            final(self).mempool@ == old(self).mempool@,
            final(self).events@ == old(self).events@,
            final(self).metrics == old(self).metrics,
            final(self).block_height == old(self).block_height,
            final(self).state_root@ == spec_state_root(
                final(self).wallets@,
                final(self).mempool@,
                final(self).metrics,
            ),
    {
        self.wallets.push(account);
        self.update_state_root();
    }

    /// The position of the account named `wallet_id`, if any.
    pub fn find_wallet(&self, wallet_id: &String) -> (r: Option<usize>)
        ensures
            match r {
                Option::Some(i) => i < self.wallets@.len() && spec_wallet_index(
                    self.wallets@,
                    wallet_id@,
                ) == i,
                Option::None => spec_wallet_index(self.wallets@, wallet_id@) == -1,
            },
    {
        let mut i: usize = 0;
        while i < self.wallets.len()
            invariant
                i <= self.wallets@.len(),
                forall|k: int|
                    0 <= k < i ==> (#[trigger] self.wallets@[k]).wallet_id@ != wallet_id@,
            decreases self.wallets@.len() - i,
        {
            if self.wallets[i].wallet_id == *wallet_id {
                proof {
                    lemma_wallet_index_first_match(self.wallets@, wallet_id@, i as int);
                }
                return Option::Some(i);
            }
            i = i + 1;
        }
        proof {
            lemma_wallet_index_no_match(self.wallets@, wallet_id@);
        }
        Option::None
    }

    /// The balance of the named account, if it exists.
    pub fn get_balance(&self, wallet_id: &String) -> (r: Option<u64>)
        ensures
            spec_wallet_index(self.wallets@, wallet_id@) == -1 <==> r is None,
            r matches Option::Some(b) ==> b == self.wallets@[spec_wallet_index(
                self.wallets@,
                wallet_id@,
            )].balance,
    {
        match self.find_wallet(wallet_id) {
            Option::Some(i) => Option::Some(self.wallets[i].balance),
            Option::None => Option::None,
        }
    }

    /// Sets the named account's balance, records the event, and
    /// recomputes the state root. Fails exactly when no account
    /// carries the name, leaving everything as it was.
    pub fn update_balance(&mut self, wallet_id: &String, amount: u64, now: u64) -> (r: Result<
        (),
        StateError,
    >)
        ensures
            spec_wallet_index(old(self).wallets@, wallet_id@) == -1 ==> r == Result::<
                (),
                StateError,
            >::Err(StateError::WalletNotFound) && *final(self) == *old(self),
            spec_wallet_index(old(self).wallets@, wallet_id@) >= 0 ==> (r is Ok
                && final(self).wallets@ == old(self).wallets@.update(
                spec_wallet_index(old(self).wallets@, wallet_id@),
                WalletAccount {
                    wallet_id: old(self).wallets@[spec_wallet_index(
                        old(self).wallets@,
                        wallet_id@,
                    )].wallet_id,
                    balance: amount,
                    staked_amount: old(self).wallets@[spec_wallet_index(
                        old(self).wallets@,
                        wallet_id@,
                    )].staked_amount,
                },
            ) && final(self).events@.len() == old(self).events@.len() + 1
                && (final(self).events@.last() matches StateEvent::BalanceUpdate {
                wallet_id: wid,
                new_balance: nb,
            }
                && wid@ == wallet_id@ && nb == amount) && final(self).state_root@
                == spec_state_root(
                final(self).wallets@,
                final(self).mempool@,
                final(self).metrics,
            ) && final(self).mempool@ == old(self).mempool@ && final(self).metrics == old(
                self,
            ).metrics),
    {
        match self.find_wallet(wallet_id) {
            Option::None => Result::Err(StateError::WalletNotFound),
            Option::Some(i) => {
                proof {
                    lemma_wallet_index_spec(self.wallets@, wallet_id@);
                }
                let ghost before = self.wallets@;
                let mut account = self.wallets.remove(i);
                account.balance = amount;
                self.wallets.insert(i, account);
                proof {
                    assert(self.wallets@ =~= before.update(i as int, self.wallets@[i as int]));
                }
                let name = self.wallets[i].wallet_id.clone();
                self.events.push(StateEvent::BalanceUpdate { wallet_id: name, new_balance: amount });
                self.update_state_root();
                Result::Ok(())
            },
        }
    }

    /// Sets the named account's stake, recomputes the total staked
    /// aggregate, records the event, and recomputes the state root.
    /// Fails exactly when no account carries the name.
    pub fn update_stake(&mut self, wallet_id: &String, amount: u64, now: u64) -> (r: Result<
        (),
        StateError,
    >)
        ensures
            spec_wallet_index(old(self).wallets@, wallet_id@) == -1 ==> r == Result::<
                (),
                StateError,
            >::Err(StateError::WalletNotFound) && *final(self) == *old(self),
            spec_wallet_index(old(self).wallets@, wallet_id@) >= 0 ==> (r is Ok
                && final(self).wallets@ == old(self).wallets@.update(
                spec_wallet_index(old(self).wallets@, wallet_id@),
                WalletAccount {
                    wallet_id: old(self).wallets@[spec_wallet_index(
                        old(self).wallets@,
                        wallet_id@,
                    )].wallet_id,
                    balance: old(self).wallets@[spec_wallet_index(
                        old(self).wallets@,
                        wallet_id@,
                    )].balance,
                    staked_amount: amount,
                },
            ) && final(self).metrics.total_staked as int == spec_total_staked(
                final(self).wallets@,
            ) && final(self).metrics.last_updated == now && final(self).events@.len() == old(
                self,
            ).events@.len() + 1 && (final(self).events@.last() matches StateEvent::StakeUpdate {
                wallet_id: wid,
                staked_amount: sa,
            } && wid@ == wallet_id@ && sa == amount) && final(self).state_root@ == spec_state_root(
                final(self).wallets@,
                final(self).mempool@,
                final(self).metrics,
            ) && final(self).mempool@ == old(self).mempool@),
    {
        match self.find_wallet(wallet_id) {
            Option::None => Result::Err(StateError::WalletNotFound),
            Option::Some(i) => {
                proof {
                    lemma_wallet_index_spec(self.wallets@, wallet_id@);
                }
                let ghost before = self.wallets@;
                let mut account = self.wallets.remove(i);
                account.staked_amount = amount;
                self.wallets.insert(i, account);
                proof {
                    assert(self.wallets@ =~= before.update(i as int, self.wallets@[i as int]));
                }
                let total = self.calculate_total_staked();
                self.metrics.total_staked = total;
                self.metrics.last_updated = now;
                let name = self.wallets[i].wallet_id.clone();
                self.events.push(
                    StateEvent::StakeUpdate { wallet_id: name, staked_amount: amount },
                );
                self.update_state_root();
                Result::Ok(())
            },
        }
    }

    /// The total staked across the accounts, saturating at the
    /// integer limit.
    pub fn calculate_total_staked(&self) -> (r: u64)
        ensures
            r as int == spec_total_staked(self.wallets@),
    {
        let mut total: u64 = 0;
        let mut i: usize = 0;
        while i < self.wallets.len()
            invariant
                i <= self.wallets@.len(),
                total as int == spec_total_staked(self.wallets@.subrange(0, i as int)),
            decreases self.wallets@.len() - i,
        {
            let ghost prefix = self.wallets@.subrange(0, i as int);
            let s = self.wallets[i].staked_amount;
            if total <= u64::MAX - s {
                total = total + s;
            } else {
                total = u64::MAX;
            }
            i = i + 1;
            proof {
                assert(self.wallets@.subrange(0, i as int).drop_last() =~= prefix);
                assert(self.wallets@.subrange(0, i as int).last() == self.wallets@[i - 1]);
            }
        }
        assert(self.wallets@.subrange(0, self.wallets@.len() as int) =~= self.wallets@);
        total
    }

    /// Transfers `amount` with `fee` between accounts: the sender is
    /// debited, the recipient (created if missing) credited, the
    /// credit saturating at the integer limit. Fails exactly when the
    /// sender is missing (`WalletNotFound`) or cannot cover amount
    /// plus fee (`InsufficientFunds`); on failure nothing changes.
    pub fn apply_transfer(
        &mut self,
        from: &String,
        to: &String,
        amount: u64,
        fee: u64,
    ) -> (r: Result<(), StateError>)
        ensures
            spec_wallet_index(old(self).wallets@, from@) == -1 ==> r == Result::<
                (),
                StateError,
            >::Err(StateError::WalletNotFound) && *final(self) == *old(self),
            spec_wallet_index(old(self).wallets@, from@) >= 0 && (old(self).wallets@[
                spec_wallet_index(old(self).wallets@, from@)
            ].balance as int) < amount + fee ==> r == Result::<(), StateError>::Err(
                StateError::InsufficientFunds,
            ) && *final(self) == *old(self),
            spec_wallet_index(old(self).wallets@, from@) >= 0 && (old(self).wallets@[
                spec_wallet_index(old(self).wallets@, from@)
            ].balance as int) >= amount + fee ==> (r is Ok && spec_transfer_result(
                old(self).wallets@,
                final(self).wallets@,
                from@,
                to@,
                amount,
                fee,
            )),
            r is Ok <==> spec_view_transfer(
                spec_ledger_view(old(self).wallets@),
                from@,
                to@,
                amount,
                fee,
            ) is Some,
            r is Ok ==> spec_view_transfer(
                spec_ledger_view(old(self).wallets@),
                from@,
                to@,
                amount,
                fee,
            ) == Option::Some(spec_ledger_view(final(self).wallets@)),
            final(self).mempool@ == old(self).mempool@,
            final(self).metrics == old(self).metrics,
            final(self).events@ == old(self).events@,
            final(self).block_height == old(self).block_height,
            final(self).state_root@ == old(self).state_root@,
    {
        proof {
            lemma_view_index_agrees(self.wallets@, from@);
        }
        let i = match self.find_wallet(from) {
            Option::None => {
                return Result::Err(StateError::WalletNotFound);
            },
            Option::Some(i) => i,
        };
        proof {
            lemma_wallet_index_spec(self.wallets@, from@);
        }
        let balance = self.wallets[i].balance;
        if balance < amount || balance - amount < fee {
            return Result::Err(StateError::InsufficientFunds);
        }
        let ghost before = self.wallets@;
        let mut sender = self.wallets.remove(i);
        sender.balance = balance - amount - fee;
        self.wallets.insert(i, sender);
        proof {
            assert(self.wallets@ =~= before.update(i as int, self.wallets@[i as int]));
        }
        match self.find_wallet(to) {
            Option::Some(j) => {
                let ghost mid = self.wallets@;
                let mut recipient = self.wallets.remove(j);
                recipient.balance = if recipient.balance <= u64::MAX - amount {
                    recipient.balance + amount
                } else {
                    u64::MAX
                };
                self.wallets.insert(j, recipient);
                proof {
                    assert(self.wallets@ =~= mid.update(j as int, self.wallets@[j as int]));
                }
            },
            Option::None => {
                let ghost ws1 = self.wallets@;
                self.wallets.push(
                    WalletAccount { wallet_id: to.clone(), balance: amount, staked_amount: 0 },
                );
                proof {
                    assert(self.wallets@.subrange(0, ws1.len() as int) =~= ws1);
                }
            },
        }
        proof {
            assert(spec_transfer_result(old(self).wallets@, self.wallets@, from@, to@, amount, fee));
            lemma_transfer_result_view(
                old(self).wallets@,
                self.wallets@,
                from@,
                to@,
                amount,
                fee,
            );
        }
        Result::Ok(())
    }

    /// Applies a block's transfers to the ledger, in list order.
    /// Succeeds exactly when the whole list folds over the observable
    /// ledger; the first transfer that cannot apply stops the walk
    /// with its error, leaving the earlier transfers applied — the
    /// design's known atomicity gap. Mempool, metrics, events, height
    /// and root are untouched either way.
    pub fn apply_transfers(&mut self, txs: &Vec<QuantumTransaction>) -> (r: Result<
        (),
        StateError,
    >)
        ensures
            r is Ok <==> spec_view_apply(spec_ledger_view(old(self).wallets@), txs@) is Some,
            r is Ok ==> spec_view_apply(spec_ledger_view(old(self).wallets@), txs@)
                == Option::Some(spec_ledger_view(final(self).wallets@)),
            final(self).mempool@ == old(self).mempool@,
            final(self).metrics == old(self).metrics,
            final(self).events@ == old(self).events@,
            final(self).block_height == old(self).block_height,
            final(self).state_root@ == old(self).state_root@,
    {
        let ghost vs0 = spec_ledger_view(old(self).wallets@);
        let mut i: usize = 0;
        while i < txs.len()
            invariant
                i <= txs@.len(),
                vs0 == spec_ledger_view(old(self).wallets@),
                spec_view_apply(vs0, txs@.subrange(0, i as int)) == Option::Some(
                    spec_ledger_view(self.wallets@),
                ),
                self.mempool@ == old(self).mempool@,
                self.metrics == old(self).metrics,
                self.events@ == old(self).events@,
                self.block_height == old(self).block_height,
                self.state_root@ == old(self).state_root@,
            decreases txs@.len() - i,
        {
            let ghost cur = spec_ledger_view(self.wallets@);
            let ghost prefix = txs@.subrange(0, i as int);
            let tx = &txs[i];
            match self.apply_transfer(&tx.from, &tx.to, tx.amount, tx.fee) {
                Result::Err(e) => {
                    proof {
                        assert(txs@ =~= prefix + txs@.skip(i as int));
                        lemma_view_apply_concat(vs0, prefix, txs@.skip(i as int));
                        assert(txs@.skip(i as int).first() == txs@[i as int]);
                        assert(spec_view_apply(cur, txs@.skip(i as int)) is None);
                        assert(spec_view_apply(vs0, txs@) is None);
                    }
                    return Result::Err(e);
                },
                Result::Ok(_) => {
                    proof {
                        let step = txs@.subrange(0, i + 1);
                        assert(step =~= prefix + seq![txs@[i as int]]);
                        lemma_view_apply_concat(vs0, prefix, seq![txs@[i as int]]);
                        assert(seq![txs@[i as int]].first() == txs@[i as int]);
                        assert(seq![txs@[i as int]].drop_first() =~= Seq::<
                            QuantumTransaction,
                        >::empty());
                        assert(spec_view_transfer(
                            cur,
                            txs@[i as int].from@,
                            txs@[i as int].to@,
                            txs@[i as int].amount,
                            txs@[i as int].fee,
                        ) == Option::Some(spec_ledger_view(self.wallets@)));
                        assert(spec_view_apply(
                            spec_ledger_view(self.wallets@),
                            Seq::<QuantumTransaction>::empty(),
                        ) == Option::Some(spec_ledger_view(self.wallets@)));
                        assert(spec_view_apply(cur, seq![txs@[i as int]]) == Option::Some(
                            spec_ledger_view(self.wallets@),
                        ));
                        assert(spec_view_apply(vs0, step) == Option::Some(
                            spec_ledger_view(self.wallets@),
                        ));
                    }
                },
            }
            i = i + 1;
        }
        proof {
            assert(txs@.subrange(0, txs@.len() as int) =~= txs@);
        }
        Result::Ok(())
    }

    /// Appends a transaction to the mempool, refreshes the load
    /// figures, and records a mempool event carrying the new size and
    /// average fee.
    pub fn add_mempool_transaction(&mut self, tx: MempoolTransaction, now: u64)
        ensures
            final(self).mempool@ == old(self).mempool@ + seq![tx],
            final(self).wallets@ == old(self).wallets@,
            final(self).events@.len() == old(self).events@.len() + 1,
            final(self).events@.last() matches StateEvent::MempoolChange { size, avg_fee }
                && size == final(self).mempool@.len() && avg_fee as int == spec_avg_fee(
                final(self).mempool@,
            ),
            final(self).metrics.last_updated == now,
            final(self).block_height == old(self).block_height,
    {
        self.mempool.push(tx);
        let avg = self.calculate_average_fee();
        let size = self.mempool.len();
        self.metrics.last_updated = now;
        self.events.push(StateEvent::MempoolChange { size, avg_fee: avg });
    }

    /// The average fee over the mempool, rounded down; zero when the
    /// mempool is empty.
    pub fn calculate_average_fee(&self) -> (r: u64)
        ensures
            r as int == spec_avg_fee(self.mempool@),
    {
        let n = self.mempool.len();
        if n == 0 {
            return 0;
        }
        let mut total: u128 = 0;
        let mut i: usize = 0;
        while i < n
            invariant
                n == self.mempool@.len(),
                i <= n,
                total == spec_total_fees(self.mempool@.subrange(0, i as int)),
                total <= (i as int) * (u64::MAX as int),
            decreases n - i,
        {
            let ghost prefix = self.mempool@.subrange(0, i as int);
            let fee = self.mempool[i].fee;
            proof {
                assert((i as int) * (u64::MAX as int) + (u64::MAX as int) == ((i + 1) as int) * (
                u64::MAX as int)) by (nonlinear_arith);
                assert(((i + 1) as int) * (u64::MAX as int) <= u128::MAX) by (nonlinear_arith)
                    requires
                        0 <= i,
                        i + 1 <= usize::MAX,
                ;
            }
            total = total + (fee as u128);
            i = i + 1;
            proof {
                assert(self.mempool@.subrange(0, i as int).drop_last() =~= prefix);
                assert(self.mempool@.subrange(0, i as int).last() == self.mempool@[i - 1]);
            }
        }
        assert(self.mempool@.subrange(0, n as int) =~= self.mempool@);
        let avg: u128 = total / (n as u128);
        proof {
            lemma_fee_le_total(self.mempool@, 0);
            assert(total <= (n as int) * (u64::MAX as int));
            vstd::arithmetic::div_mod::lemma_div_is_ordered(
                total as int,
                (n as int) * (u64::MAX as int),
                n as int,
            );
            vstd::arithmetic::div_mod::lemma_div_multiples_vanish(u64::MAX as int, n as int);
            vstd::arithmetic::mul::lemma_mul_is_commutative(n as int, u64::MAX as int);
        }
        avg as u64
    }

    /// Recomputes the state root over the current wallets, mempool and
    /// metrics.
    #[verifier::rlimit(60)]
    pub fn update_state_root(&mut self)
        ensures
            final(self).state_root@ == spec_state_root(
                old(self).wallets@,
                old(self).mempool@,
                old(self).metrics,
            ),
            final(self).wallets@ == old(self).wallets@,
            final(self).mempool@ == old(self).mempool@,
            final(self).metrics == old(self).metrics,
            final(self).events@ == old(self).events@,
            final(self).block_height == old(self).block_height,
    {
        let mut enc: Vec<u8> = Vec::new();
        let mut i: usize = 0;
        while i < self.wallets.len()
            invariant
                i <= self.wallets@.len(),
                enc@ == spec_wallets_enc(self.wallets@.subrange(0, i as int)),
            decreases self.wallets@.len() - i,
        {
            let ghost prefix = self.wallets@.subrange(0, i as int);
            let w = &self.wallets[i];
            push_str_enc(&mut enc, w.wallet_id.as_str());
            push_u64_le(&mut enc, w.balance);
            push_u64_le(&mut enc, w.staked_amount);
            i = i + 1;
            proof {
                assert(self.wallets@.subrange(0, i as int).drop_last() =~= prefix);
                assert(self.wallets@.subrange(0, i as int).last() == self.wallets@[i - 1]);
                assert(enc@ =~= spec_wallets_enc(prefix) + spec_wallet_enc(self.wallets@[i - 1]));
            }
        }
        assert(self.wallets@.subrange(0, self.wallets@.len() as int) =~= self.wallets@);
        let mut j: usize = 0;
        let ghost wenc = enc@;
        while j < self.mempool.len()
            invariant
                j <= self.mempool@.len(),
                enc@ == wenc + spec_mempool_enc(self.mempool@.subrange(0, j as int)),
            decreases self.mempool@.len() - j,
        {
            let ghost prefix = self.mempool@.subrange(0, j as int);
            let t = &self.mempool[j];
            crate::block::push_digest(&mut enc, &t.hash);
            push_str_enc(&mut enc, t.from.as_str());
            push_str_enc(&mut enc, t.to.as_str());
            push_u64_le(&mut enc, t.amount);
            push_u64_le(&mut enc, t.fee);
            push_u64_le(&mut enc, t.timestamp);
            j = j + 1;
            proof {
                assert(self.mempool@.subrange(0, j as int).drop_last() =~= prefix);
                assert(self.mempool@.subrange(0, j as int).last() == self.mempool@[j - 1]);
                assert(enc@ =~= wenc + (spec_mempool_enc(prefix) + spec_mempool_tx_enc(
                    self.mempool@[j - 1],
                )));
            }
        }
        assert(self.mempool@.subrange(0, self.mempool@.len() as int) =~= self.mempool@);
        push_u64_le(&mut enc, self.metrics.current_tps);
        push_u64_le(&mut enc, self.metrics.predicted_tps);
        push_u64_le(&mut enc, self.metrics.block_time_milli);
        push_u64_le(&mut enc, self.metrics.network_load_milli);
        push_u64_le(&mut enc, self.metrics.total_staked);
        push_u64_le(&mut enc, self.metrics.active_validators as u64);
        push_u64_le(&mut enc, self.metrics.last_updated);
        assert(enc@ =~= spec_state_enc(self.wallets@, self.mempool@, self.metrics));
        self.state_root = HashDigest::compute(enc.as_slice());
    }

    /// Records one accepted block: the tracked height moves to the
    /// block's and a typed new-block event is appended; everything
    /// else stays.
    pub fn record_new_block(&mut self, height: u64, block_hash: HashDigest)
        ensures
            final(self).block_height == height,
            final(self).events@.len() == old(self).events@.len() + 1,
            final(self).events@.subrange(0, old(self).events@.len() as int) == old(self).events@,
            (final(self).events@.last() matches StateEvent::NewBlock { height: h, block_hash: b }
                && h == height && b@ == block_hash@),
            final(self).wallets@ == old(self).wallets@,
            final(self).mempool@ == old(self).mempool@,
            final(self).metrics == old(self).metrics,
            final(self).state_root@ == old(self).state_root@,
    {
        self.block_height = height;
        self.events.push(StateEvent::NewBlock { height, block_hash });
        assert(self.events@.subrange(0, old(self).events@.len() as int) =~= old(self).events@);
    }

    /// Captures height, root, time and metrics as one value.
    pub fn take_snapshot(&self, now: u64) -> (r: StateSnapshot)
        ensures
            r.block_height == self.block_height,
            r.state_root@ == self.state_root@,
            r.timestamp == now,
            r.metrics == self.metrics,
    {
        StateSnapshot {
            block_height: self.block_height,
            state_root: self.state_root.clone(),
            timestamp: now,
            metrics: self.metrics,
        }
    }

    /// Restores only the state root and the metrics from a snapshot;
    /// accounts and mempool keep their current contents. The restore
    /// is partial by design.
    pub fn restore_from_snapshot(&mut self, snapshot: StateSnapshot)
        ensures
            final(self).state_root@ == snapshot.state_root@,
            final(self).metrics == snapshot.metrics,
            final(self).wallets@ == old(self).wallets@,
            final(self).mempool@ == old(self).mempool@,
            final(self).events@ == old(self).events@,
            final(self).block_height == old(self).block_height,
    {
        self.state_root = snapshot.state_root;
        self.metrics = snapshot.metrics;
    }

    /// Hands out the events recorded so far and clears the feed; the
    /// caller forwards them to subscribers.
    pub fn drain_events(&mut self) -> (r: Vec<StateEvent>)
        ensures
            r@ == old(self).events@,
            final(self).events@.len() == 0,
            final(self).wallets@ == old(self).wallets@,
            final(self).mempool@ == old(self).mempool@,
            final(self).metrics == old(self).metrics,
            final(self).block_height == old(self).block_height,
            final(self).state_root@ == old(self).state_root@,
    {
        let mut drained: Vec<StateEvent> = Vec::new();
        core::mem::swap(&mut drained, &mut self.events);
        drained
    }
}

} // verus!
