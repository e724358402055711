//! The cross-chain bridge: entanglement records between chains, the
//! transfer life cycle, the post-quantum signing backend and the
//! backend selector.
//!
//! A transfer walks a fixed ladder of states — initiated, locked, in
//! transit, completed — and never moves backwards.

use vstd::prelude::*;

use crate::crypto::{
    dilithium_sig_of, new_id, random_bytes, DILITHIUM_SK_LEN,
};
use crate::crypto::dilithium_sign as dilithium_sign_bytes;

verus! {

/// One chain the bridge talks to.
pub struct ChainInfo {
    pub chain_id: String,
    pub network_type: NetworkType,
    pub endpoint: String,
    pub latest_block: u64,
    pub bridge_contract: String,
}

/// The network family of a chain.
pub enum NetworkType {
    QuantumFuse,
    Ethereum,
    Polkadot,
    Cosmos,
    Custom(String),
}

/// Where a bridge node stands.
#[derive(Clone, Copy, PartialEq, Eq, Structural, Debug)]
pub enum NodeStatus {
    Active,
    Inactive,
    Maintenance,
}

/// Where an entanglement stands.
pub enum EntanglementStatus {
    Pending,
    Active,
    Verified,
    Failed(String),
}

/// A recorded pairing of two chains with its shared randomness.
pub struct Entanglement {
    pub id: String,
    pub chain_a: ChainInfo,
    pub chain_b: ChainInfo,
    pub status: EntanglementStatus,
    pub created_at: u64,
    pub quantum_state: Vec<u8>,
}

/// The signature schemes the signing backend can be asked for.
#[derive(Clone, Copy, PartialEq, Eq, Structural, Debug)]
pub enum PQCAlgorithm {
    Dilithium2,
    Kyber512,
    SphincsPlus,
}

/// An asset the bridge can carry.
pub struct BridgeAsset {
    pub asset_id: String,
    pub name: String,
    pub source_contract: String,
    pub target_contract: String,
    pub decimals: u8,
}

/// Where a transfer stands on its ladder.
#[derive(Clone, Copy, PartialEq, Eq, Structural, Debug)]
pub enum TransferStatus {
    Initiated,
    Locked,
    InTransit,
    Completed,
    Failed,
}

/// One asset transfer across the bridge.
pub struct BridgeTransfer {
    pub transfer_id: String,
    pub source_chain: String,
    pub target_chain: String,
    pub asset: BridgeAsset,
    pub amount: u64,
    pub status: TransferStatus,
    pub timestamp: u64,
}

/// The kinds of backend the selector can hand out.
#[derive(Clone, Copy, PartialEq, Eq, Structural, Debug)]
pub enum BackendType {
    PQC,
    Quantum,
    Storage,
    Network,
}

/// Bridge-level failures, one variant per cause.
#[derive(Clone, Copy, PartialEq, Eq, Structural, Debug)]
pub enum BridgeError {
    EntanglementNotFound,
    UnsupportedAlgorithm,
    InvalidKey,
    TransferAlreadySettled,
}

/// The bridge: its entanglement records.
pub struct QuantumBridge {
    pub entanglements: Vec<Entanglement>,
}

/// The signing backend: the configured scheme.
pub struct PQCWrapper {
    pub algorithm: PQCAlgorithm,
    pub operations_count: u64,
}

/// The bridge with its in-flight transfers.
pub struct QuantumBridgeWrapper {
    pub bridge: QuantumBridge,
    pub active_transfers: Vec<BridgeTransfer>,
}

/// The backend selector: one endpoint per backend kind.
pub struct BackendSelector {
    pub active_backends: Vec<(BackendType, String)>,
}

/// One rung up the transfer ladder: initiated locks, locked goes in
/// transit, in transit completes; completed and failed transfers stay
/// where they are.
pub open spec fn spec_next_transfer_status(s: TransferStatus) -> TransferStatus {
    match s {
        TransferStatus::Initiated => TransferStatus::Locked,
        TransferStatus::Locked => TransferStatus::InTransit,
        TransferStatus::InTransit => TransferStatus::Completed,
        TransferStatus::Completed => TransferStatus::Completed,
        TransferStatus::Failed => TransferStatus::Failed,
    }
}

/// A transfer never moves backwards: stepping the ladder from any
/// state either advances it or leaves a settled transfer where it is,
/// and a completed transfer stays completed no matter how often the
/// step is taken.
pub proof fn lemma_transfer_ladder_monotonic()
    ensures
        forall|s: TransferStatus|
            spec_next_transfer_status(#[trigger] spec_next_transfer_status(s)) != (
            TransferStatus::Initiated),
        spec_next_transfer_status(TransferStatus::Completed) == TransferStatus::Completed,
        spec_next_transfer_status(TransferStatus::Failed) == TransferStatus::Failed,
{
    assert forall|s: TransferStatus|
        spec_next_transfer_status(#[trigger] spec_next_transfer_status(s)) != (
        TransferStatus::Initiated) by {
        match s {
            TransferStatus::Initiated => {},
            TransferStatus::Locked => {},
            TransferStatus::InTransit => {},
            TransferStatus::Completed => {},
            TransferStatus::Failed => {},
        }
    }
}

impl QuantumBridge {
    /// A bridge with no entanglements yet.
    pub fn new() -> (r: QuantumBridge)
        ensures
            r.entanglements@.len() == 0,
    {
        QuantumBridge { entanglements: Vec::new() }
    }

    /// Pairs two chains: a fresh identifier, 32 bytes of shared
    /// randomness, recorded pending.
    pub fn create_entanglement(&mut self, chain_a: ChainInfo, chain_b: ChainInfo, now: u64) -> (r:
        String)
        ensures
            final(self).entanglements@.len() == old(self).entanglements@.len() + 1,
            final(self).entanglements@.last().id == r,
            r@.len() == 36,
            final(self).entanglements@.last().quantum_state@.len() == 32,
            final(self).entanglements@.last().created_at == now,
            final(self).entanglements@.last().status is Pending,
    {
        let id = new_id();
        let entanglement = Entanglement {
            id: id.clone(),
            chain_a,
            chain_b,
            status: EntanglementStatus::Pending,
            created_at: now,
            quantum_state: random_bytes(32),
        };
        self.entanglements.push(entanglement);
        id
    }

    /// Looks the entanglement up and checks its shared randomness:
    /// `Ok(true)` exactly when a record carries the identifier and a
    /// full 32 bytes of state; a missing record is the lookup error.
    pub fn validate_entanglement(&self, entanglement_id: &String) -> (r: Result<
        bool,
        BridgeError,
    >)
        ensures
            (exists|i: int|
                0 <= i < self.entanglements@.len() && (#[trigger] self.entanglements@[i]).id@
                    == entanglement_id@) ==> (r matches Result::Ok(ok) && ok == exists|i: int|
                0 <= i < self.entanglements@.len() && (#[trigger] self.entanglements@[i]).id@
                    == entanglement_id@ && self.entanglements@[i].quantum_state@.len() == 32),
            !(exists|i: int|
                0 <= i < self.entanglements@.len() && (#[trigger] self.entanglements@[i]).id@
                    == entanglement_id@) ==> r == Result::<bool, BridgeError>::Err(
                BridgeError::EntanglementNotFound,
            ),
    {
        let mut i: usize = 0;
        let mut found: bool = false;
        let mut full: bool = false;
        while i < self.entanglements.len()
            invariant
                i <= self.entanglements@.len(),
                found == exists|k: int|
                    0 <= k < i && (#[trigger] self.entanglements@[k]).id@ == entanglement_id@,
                full == exists|k: int|
                    0 <= k < i && (#[trigger] self.entanglements@[k]).id@ == entanglement_id@
                        && self.entanglements@[k].quantum_state@.len() == 32,
            decreases self.entanglements@.len() - i,
        {
            if self.entanglements[i].id == *entanglement_id {
                found = true;
                if self.entanglements[i].quantum_state.len() == 32 {
                    full = true;
                }
            }
            i = i + 1;
        }
        if found {
            Result::Ok(full)
        } else {
            Result::Err(BridgeError::EntanglementNotFound)
        }
    }
}

impl PQCWrapper {
    /// A signing backend for the given scheme.
    pub fn new(algorithm: PQCAlgorithm) -> (r: PQCWrapper)
        ensures
            r.algorithm == algorithm,
            r.operations_count == 0,
    {
        PQCWrapper { algorithm, operations_count: 0 }
    }

    /// Signs under the configured scheme. Only the Dilithium scheme
    /// signs here; the others are key-encapsulation or unavailable and
    /// answer `UnsupportedAlgorithm`. A key of the wrong size is
    /// refused.
    pub fn sign_message(&mut self, private_key: &Vec<u8>, message: &Vec<u8>) -> (r: Result<
        Vec<u8>,
        BridgeError,
    >)
        ensures
            old(self).algorithm != PQCAlgorithm::Dilithium2 ==> r == Result::<
                Vec<u8>,
                BridgeError,
            >::Err(BridgeError::UnsupportedAlgorithm),
            old(self).algorithm == PQCAlgorithm::Dilithium2 && private_key@.len()
                != DILITHIUM_SK_LEN ==> r == Result::<Vec<u8>, BridgeError>::Err(
                BridgeError::InvalidKey,
            ),
            old(self).algorithm == PQCAlgorithm::Dilithium2 && private_key@.len()
                == DILITHIUM_SK_LEN
                ==> (r matches Result::Ok(sig) && sig@ == dilithium_sig_of(
                message@,
                private_key@,
            )),
            final(self).algorithm == old(self).algorithm,
    {
        match self.algorithm {
            PQCAlgorithm::Dilithium2 => {
                if private_key.len() != DILITHIUM_SK_LEN {
                    return Result::Err(BridgeError::InvalidKey);
                }
                let sig = dilithium_sign_bytes(message.as_slice(), private_key.as_slice());
                if self.operations_count < u64::MAX {
                    self.operations_count = self.operations_count + 1;
                }
                Result::Ok(sig)
            },
            _ => Result::Err(BridgeError::UnsupportedAlgorithm),
        }
    }
}

impl QuantumBridgeWrapper {
    /// A bridge wrapper with no transfers in flight.
    pub fn new() -> (r: QuantumBridgeWrapper)
        ensures
            r.active_transfers@.len() == 0,
    {
        QuantumBridgeWrapper { bridge: QuantumBridge::new(), active_transfers: Vec::new() }
    }

    /// Opens a transfer at the bottom of the ladder and returns its
    /// fresh identifier.
    pub fn initiate_transfer(
        &mut self,
        source_chain: String,
        target_chain: String,
        asset: BridgeAsset,
        amount: u64,
        now: u64,
    ) -> (r: String)
        ensures
            final(self).active_transfers@.len() == old(self).active_transfers@.len() + 1,
            final(self).active_transfers@.last().transfer_id == r,
            r@.len() == 36,
            final(self).active_transfers@.last().status == TransferStatus::Initiated,
            final(self).active_transfers@.last().amount == amount,
            final(self).active_transfers@.last().timestamp == now,
    {
        let transfer_id = new_id();
        let transfer = BridgeTransfer {
            transfer_id: transfer_id.clone(),
            source_chain,
            target_chain,
            asset,
            amount,
            status: TransferStatus::Initiated,
            timestamp: now,
        };
        self.active_transfers.push(transfer);
        transfer_id
    }

    /// Takes the transfer at `index` one rung up its ladder.
    pub fn advance_transfer(&mut self, index: usize) -> (r: Result<TransferStatus, BridgeError>)
        requires
            index < old(self).active_transfers@.len(),
        ensures
            final(self).active_transfers@.len() == old(self).active_transfers@.len(),
            final(self).active_transfers@[index as int].status == spec_next_transfer_status(
                old(self).active_transfers@[index as int].status,
            ),
            final(self).active_transfers@[index as int].transfer_id == old(
                self,
            ).active_transfers@[index as int].transfer_id,
            forall|k: int|
                0 <= k < final(self).active_transfers@.len() && k != index ==> (#[trigger] final(self).active_transfers@[k]) == old(self).active_transfers@[k],
            r matches Result::Ok(s) && s == final(self).active_transfers@[index as int].status,
    {
        let ghost before = self.active_transfers@;
        let mut transfer = self.active_transfers.remove(index);
        let next = match transfer.status {
            TransferStatus::Initiated => TransferStatus::Locked,
            TransferStatus::Locked => TransferStatus::InTransit,
            TransferStatus::InTransit => TransferStatus::Completed,
            TransferStatus::Completed => TransferStatus::Completed,
            TransferStatus::Failed => TransferStatus::Failed,
        };
        transfer.status = next;
        self.active_transfers.insert(index, transfer);
        proof {
            assert(self.active_transfers@ =~= before.update(
                index as int,
                self.active_transfers@[index as int],
            ));
        }
        Result::Ok(next)
    }
}

impl BackendSelector {
    /// A selector with no backends registered.
    pub fn new() -> (r: BackendSelector)
        ensures
            r.active_backends@.len() == 0,
    {
        BackendSelector { active_backends: Vec::new() }
    }

    /// Registers an endpoint for a backend kind.
    pub fn register(&mut self, kind: BackendType, endpoint: String)
        ensures
            final(self).active_backends@ == old(self).active_backends@ + seq![(kind, endpoint)],
    {
        self.active_backends.push((kind, endpoint));
    }

    /// The first endpoint registered for the kind, if any.
    pub fn get_backend(&self, kind: BackendType) -> (r: Option<&String>)
        ensures
            r is Some <==> exists|i: int|
                0 <= i < self.active_backends@.len() && (#[trigger] self.active_backends@[i]).0
                    == kind,
    {
        let mut i: usize = 0;
        while i < self.active_backends.len()
            invariant
                i <= self.active_backends@.len(),
                forall|k: int| 0 <= k < i ==> (#[trigger] self.active_backends@[k]).0 != kind,
            decreases self.active_backends@.len() - i,
        {
            if self.active_backends[i].0 == kind {
                return Option::Some(&self.active_backends[i].1);
            }
            i = i + 1;
        }
        Option::None
    }
}

} // verus!
