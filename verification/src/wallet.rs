//! Wallets: the holder of a post-quantum key pair, an address derived
//! from the public keys, balances, staking, and transaction history.
//!
//! Signing then verifying with the same wallet always succeeds; the
//! signature covers the transaction's signing digest, so any signed
//! field mutated afterwards makes verification fail.

use vstd::prelude::*;

use crate::crypto::{
    dilithium_keypair, dilithium_keypair_ok, dilithium_sig_of, dilithium_signs, dilithium_verify,
    hex_encode, kyber_keypair, spec_hex_of, HashDigest, DILITHIUM_PK_LEN, DILITHIUM_SK_LEN,
    KYBER_PK_LEN,
};
use crate::transaction::{spec_signing_digest, OperationType, QuantumTransaction};

verus! {

/// How many bytes of the combined public keys flow into the address.
pub const ADDRESS_KEY_BYTES: usize = 20;

/// A wallet's staking position.
#[derive(Clone, Copy, PartialEq, Eq, Structural, Debug)]
pub struct StakingInfo {
    pub staked_amount: u64,
    pub rewards_earned: u64,
    pub last_updated: u64,
}

/// The direction of a recorded wallet operation.
#[derive(Clone, Copy, PartialEq, Eq, Structural, Debug)]
pub enum WalletTransactionType {
    Send,
    Receive,
    Stake,
    Unstake,
    BridgeAsset,
    SyncIdentity,
}

/// Where a recorded wallet operation stands.
#[derive(Clone, Copy, PartialEq, Eq, Structural, Debug)]
pub enum WalletTransactionStatus {
    Pending,
    Confirmed,
    Failed,
}

/// One entry of the wallet's history.
pub struct TransactionRecord {
    pub hash: HashDigest,
    pub timestamp: u64,
    pub amount: u64,
    pub transaction_type: WalletTransactionType,
    pub status: WalletTransactionStatus,
    pub gas_used: u64,
}

/// Wallet-level failures, one variant per cause.
#[derive(Clone, Copy, PartialEq, Eq, Structural, Debug)]
pub enum WalletError {
    InsufficientFunds,
    InsufficientStake,
}

/// A wallet: address, identifier, funds and the key material that
/// signs for them.
pub struct QuantumWallet {
    pub address: String,
    pub did: String,
    pub balance: u64,
    pub staking_info: StakingInfo,
    pub transaction_history: Vec<TransactionRecord>,
    pub last_sync: u64,
    pub dilithium_pk: Vec<u8>,
    pub dilithium_sk: Vec<u8>,
    pub kyber_pk: Vec<u8>,
    pub kyber_sk: Vec<u8>,
}

impl QuantumWallet {
    /// The wallet's key material works: the keys have their documented
    /// sizes and everything signed with the secret key verifies under
    /// the public one.
    pub open spec fn wf(&self) -> bool {
        &&& dilithium_keypair_ok(self.dilithium_pk@, self.dilithium_sk@)
        &&& self.kyber_pk@.len() == KYBER_PK_LEN
    }

    /// Whether `tx` carries exactly this wallet's signature over its
    /// own signing digest.
    pub open spec fn spec_signed_by(&self, tx: QuantumTransaction) -> bool {
        tx.signature matches Option::Some(sig) && sig@ == dilithium_sig_of(
            spec_signing_digest(tx),
            self.dilithium_sk@,
        )
    }

    /// Whether this wallet's public key accepts the signature on `tx`.
    pub open spec fn spec_verifies(&self, tx: QuantumTransaction) -> bool {
        tx.signature matches Option::Some(sig) && dilithium_signs(
            sig@,
            spec_signing_digest(tx),
            self.dilithium_pk@,
        )
    }

    /// A fresh wallet: new Dilithium and Kyber key pairs, the address
    /// derived from the first bytes of the combined public keys,
    /// rendered as `qf` plus hex, and the identifier as `did:qf:` plus
    /// the address.
    pub fn new(now: u64) -> (r: Result<QuantumWallet, WalletError>)
        ensures
            r matches Result::Ok(w) && w.wf() && w.balance == 0 && w.staking_info.staked_amount
                == 0 && w.transaction_history@.len() == 0 && w.address@ == "qf"@ + spec_hex_of(
                (w.spec_dilithium_pk() + w.spec_kyber_pk()).subrange(
                    0,
                    ADDRESS_KEY_BYTES as int,
                ),
            ) && w.did@ == "did:qf:"@ + w.address@,
    {
        let (dpk, dsk) = dilithium_keypair();
        let (kpk, ksk) = kyber_keypair();
        let mut combined: Vec<u8> = Vec::new();
        let mut i: usize = 0;
        while i < dpk.len()
            invariant
                i <= dpk@.len(),
                combined@ =~= dpk@.subrange(0, i as int),
            decreases dpk@.len() - i,
        {
            combined.push(dpk[i]);
            i = i + 1;
            assert(combined@ =~= dpk@.subrange(0, i as int));
        }
        assert(dpk@.subrange(0, dpk@.len() as int) =~= dpk@);
        let mut j: usize = 0;
        while j < kpk.len()
            invariant
                j <= kpk@.len(),
                combined@ =~= dpk@ + kpk@.subrange(0, j as int),
            decreases kpk@.len() - j,
        {
            combined.push(kpk[j]);
            j = j + 1;
            assert(combined@ =~= dpk@ + kpk@.subrange(0, j as int));
        }
        assert(kpk@.subrange(0, kpk@.len() as int) =~= kpk@);
        let mut prefix: Vec<u8> = Vec::new();
        let mut k: usize = 0;
        while k < ADDRESS_KEY_BYTES
            invariant
                k <= ADDRESS_KEY_BYTES,
                combined@ == dpk@ + kpk@,
                combined@.len() == DILITHIUM_PK_LEN + KYBER_PK_LEN,
                prefix@ =~= combined@.subrange(0, k as int),
            decreases ADDRESS_KEY_BYTES - k,
        {
            prefix.push(combined[k]);
            k = k + 1;
            assert(prefix@ =~= combined@.subrange(0, k as int));
        }
        let hex = hex_encode(prefix.as_slice());
        let address = String::from_str("qf").concat(hex.as_str());
        let did = String::from_str("did:qf:").concat(address.as_str());
        Result::Ok(
            QuantumWallet {
                address,
                did,
                balance: 0,
                staking_info: StakingInfo { staked_amount: 0, rewards_earned: 0, last_updated: now },
                transaction_history: Vec::new(),
                last_sync: now,
                dilithium_pk: dpk,
                dilithium_sk: dsk,
                kyber_pk: kpk,
                kyber_sk: ksk,
            },
        )
    }

    /// The wallet's Dilithium public key, for speaking of the address
    /// derivation.
    pub open spec fn spec_dilithium_pk(&self) -> Seq<u8> {
        self.dilithium_pk@
    }

    /// The wallet's Kyber public key, for speaking of the address
    /// derivation.
    pub open spec fn spec_kyber_pk(&self) -> Seq<u8> {
        self.kyber_pk@
    }

    /// Signs the transaction with the wallet's key: afterwards the
    /// transaction carries exactly this wallet's signature and its
    /// recomputed hash.
    pub fn sign_transaction(&self, transaction: &mut QuantumTransaction)
        requires
            self.wf(),
        ensures
            self.spec_signed_by(*final(transaction)),
            final(transaction).from == old(transaction).from,
            final(transaction).to == old(transaction).to,
            final(transaction).amount == old(transaction).amount,
            final(transaction).fee == old(transaction).fee,
            final(transaction).timestamp == old(transaction).timestamp,
            final(transaction).wf(),
            spec_signing_digest(*final(transaction)) == spec_signing_digest(*old(transaction)),
    {
        proof {
            assert(self.dilithium_sk@.len() == DILITHIUM_SK_LEN);
        }
        transaction.sign_with(&self.dilithium_sk);
    }

    /// Whether the wallet's public key accepts the transaction's
    /// signature; an unsigned transaction is never accepted.
    pub fn verify_transaction(&self, transaction: &QuantumTransaction) -> (r: bool)
        requires
            self.wf(),
        ensures
            r == self.spec_verifies(*transaction),
    {
        proof {
            assert(self.dilithium_pk@.len() == DILITHIUM_PK_LEN);
        }
        match &transaction.signature {
            Option::None => false,
            Option::Some(sig) => {
                let digest = transaction.signing_digest();
                dilithium_verify(sig.as_slice(), digest.as_slice(), self.dilithium_pk.as_slice())
            },
        }
    }

    /// Signing then verifying with the same wallet succeeds: any
    /// transaction carrying this wallet's signature over its signing
    /// digest is accepted by this wallet's public key.
    pub proof fn lemma_sign_then_verify(&self, tx: QuantumTransaction)
        requires
            self.wf(),
            self.spec_signed_by(tx),
        ensures
            self.spec_verifies(tx),
    {
    }

    /// Builds, signs and records a staking transaction. Fails exactly
    /// when the wallet's balance cannot cover the amount; on success
    /// the balance drops and the staked amount grows (saturating) by
    /// the amount, and the signed transaction comes back verifiable.
    pub fn stake(&mut self, amount: u64, now: u64) -> (r: Result<QuantumTransaction, WalletError>)
        requires
            old(self).wf(),
        ensures
            final(self).wf(),
            amount > old(self).balance ==> r == Result::<QuantumTransaction, WalletError>::Err(
                WalletError::InsufficientFunds,
            ) && *final(self) == *old(self),
            amount <= old(self).balance ==> (r matches Result::Ok(tx) && final(self).balance
                == old(self).balance - amount && final(self).staking_info.staked_amount as int
                == crate::consensus::spec_saturate_u64(
                old(self).staking_info.staked_amount + amount,
            ) && final(self).spec_signed_by(tx) && final(self).spec_verifies(tx) && tx.amount
                == amount && tx.from == old(self).address
                && final(self).transaction_history@.len() == old(self).transaction_history@.len()
                + 1 && final(self).transaction_history@.last().amount == amount
                && final(self).transaction_history@.last().transaction_type
                == WalletTransactionType::Stake
                && final(self).transaction_history@.last().hash@
                == crate::transaction::spec_tx_hash(tx)),
    {
        if amount > self.balance {
            return Result::Err(WalletError::InsufficientFunds);
        }
        let mut tx = QuantumTransaction::new_at(
            self.address.clone(),
            String::from_str("STAKING_CONTRACT"),
            amount,
            0,
            OperationType::Stake,
            50000,
            now,
        );
        self.sign_transaction(&mut tx);
        proof {
            self.lemma_sign_then_verify(tx);
        }
        self.balance = self.balance - amount;
        self.staking_info.staked_amount = if self.staking_info.staked_amount <= u64::MAX - amount {
            self.staking_info.staked_amount + amount
        } else {
            u64::MAX
        };
        self.staking_info.last_updated = now;
        self.transaction_history.push(
            TransactionRecord {
                hash: tx.hash.clone(),
                timestamp: now,
                amount,
                transaction_type: WalletTransactionType::Stake,
                status: WalletTransactionStatus::Pending,
                gas_used: tx.gas_used,
            },
        );
        Result::Ok(tx)
    }

    /// Builds, signs and records an unstaking transaction. Fails
    /// exactly when the staked amount cannot cover the ask; on success
    /// the staked amount drops and the balance grows (saturating) by
    /// the amount.
    pub fn unstake(&mut self, amount: u64, now: u64) -> (r: Result<
        QuantumTransaction,
        WalletError,
    >)
        requires
            old(self).wf(),
        ensures
            final(self).wf(),
            amount > old(self).staking_info.staked_amount ==> r == Result::<
                QuantumTransaction,
                WalletError,
            >::Err(WalletError::InsufficientStake) && *final(self) == *old(self),
            amount <= old(self).staking_info.staked_amount ==> (r matches Result::Ok(tx) && final(self).staking_info.staked_amount == old(self).staking_info.staked_amount - amount && final(self).balance as int == crate::consensus::spec_saturate_u64(old(self).balance + amount)
                && final(self).spec_signed_by(tx) && final(self).spec_verifies(tx) && tx.amount
                == amount && tx.to == old(self).address
                && final(self).transaction_history@.len() == old(self).transaction_history@.len()
                + 1 && final(self).transaction_history@.last().amount == amount
                && final(self).transaction_history@.last().transaction_type
                == WalletTransactionType::Unstake
                && final(self).transaction_history@.last().hash@
                == crate::transaction::spec_tx_hash(tx)),
    {
        if amount > self.staking_info.staked_amount {
            return Result::Err(WalletError::InsufficientStake);
        }
        let mut tx = QuantumTransaction::new_at(
            String::from_str("STAKING_CONTRACT"),
            self.address.clone(),
            amount,
            0,
            OperationType::Unstake,
            50000,
            now,
        );
        self.sign_transaction(&mut tx);
        proof {
            self.lemma_sign_then_verify(tx);
        }
        self.staking_info.staked_amount = self.staking_info.staked_amount - amount;
        self.balance = if self.balance <= u64::MAX - amount {
            self.balance + amount
        } else {
            u64::MAX
        };
        self.staking_info.last_updated = now;
        self.transaction_history.push(
            TransactionRecord {
                hash: tx.hash.clone(),
                timestamp: now,
                amount,
                transaction_type: WalletTransactionType::Unstake,
                status: WalletTransactionStatus::Pending,
                gas_used: tx.gas_used,
            },
        );
        Result::Ok(tx)
    }

    /// Stamps the wallet as synchronized.
    pub fn sync_with_network(&mut self, now: u64)
        ensures
            final(self).last_sync == now,
            final(self).balance == old(self).balance,
            final(self).staking_info == old(self).staking_info,
    {
        self.last_sync = now;
    }

    /// The wallet's spendable balance.
    pub fn get_balance(&self) -> (r: u64)
        ensures
            r == self.balance,
    {
        self.balance
    }

    /// The wallet's staking position.
    pub fn get_staking_info(&self) -> (r: &StakingInfo)
        ensures
            r == self.staking_info,
    {
        &self.staking_info
    }

    /// The wallet's recorded history.
    pub fn get_transaction_history(&self) -> (r: &Vec<TransactionRecord>)
        ensures
            r@ == self.transaction_history@,
    {
        &self.transaction_history
    }

    /// The wallet's public verification key.
    pub fn public_key(&self) -> (r: &Vec<u8>)
        requires
            self.wf(),
        ensures
            r@ == self.spec_dilithium_pk(),
            r@.len() == DILITHIUM_PK_LEN,
    {
        &self.dilithium_pk
    }
}

} // verus!
