//! Domain services over the ledger: node configuration, teleportation
//! and key-distribution session records, fiat on-ramping, medical and
//! supply-chain records, tokenized property, and streaming payments.
//!
//! The network, device and database sides of these services are
//! input/output and live outside the library; what stands here is the
//! record keeping and the arithmetic.

use vstd::prelude::*;

verus! {

/// Configuration of one node.
pub struct NodeConfig {
    pub node_id: String,
    pub api_port: u16,
    pub p2p_port: u16,
    pub bootstrap_nodes: Vec<String>,
    pub quantum_backend: String,
    pub pqc_backend: String,
    pub storage_path: String,
    pub log_level: String,
    pub metrics_enabled: bool,
}

/// The outcome an interface call reports.
pub enum ResponseStatus {
    Success,
    Error(String),
}

/// Where a teleportation request stands.
pub enum TeleportationStatus {
    Pending,
    InProgress,
    Completed,
    Failed(String),
}

/// Configuration of the teleportation service.
#[derive(Clone, Copy, PartialEq, Eq, Structural, Debug)]
pub struct TeleportationConfig {
    pub buffer_size: usize,
    pub timeout_seconds: u64,
    pub retry_attempts: u32,
    pub quantum_security_level: u8,
}

/// Where a key-distribution session stands.
pub enum SessionStatus {
    Active,
    Completed,
    Failed(String),
}

/// One sealed medical record.
pub struct MedicalRecord {
    pub patient_id: String,
    pub encrypted_data: Vec<u8>,
    pub digital_signature: Vec<u8>,
    pub timestamp: u64,
}

/// One sealed supply-chain event.
pub struct SupplyChainEvent {
    pub participant: String,
    pub encrypted_data: Vec<u8>,
    pub digital_signature: Vec<u8>,
    pub timestamp: u64,
}

/// Where a tokenized property stands.
#[derive(Clone, Copy, PartialEq, Eq, Structural, Debug)]
pub enum PropertyStatus {
    Available,
    Sold,
    Rented,
    Fractionalized,
}

/// A message the streaming-payments contract accepts.
pub enum ExecuteMsg {
    StreamNFT { nft_id: String },
}

/// The running stream count of one token.
pub struct StreamRecord {
    pub nft_id: String,
    pub artist: String,
    pub streams: u64,
}

/// One supported fiat currency: its conversion rate to tokens in
/// parts per thousand.
pub struct CurrencyConfig {
    pub code: String,
    pub rate_milli: u64,
    pub enabled: bool,
}

/// The tokens a fiat amount converts to at a rate given in parts per
/// thousand, rounded down and saturating at the integer range.
pub open spec fn spec_fiat_to_tokens(amount: u64, rate_milli: u64) -> int {
    let v = amount * rate_milli / 1000;
    if v <= u64::MAX {
        v
    } else {
        u64::MAX as int
    }
}

/// Converts a fiat amount to tokens at the given rate.
pub fn fiat_to_tokens(amount: u64, rate_milli: u64) -> (r: u64)
    ensures
        r as int == spec_fiat_to_tokens(amount, rate_milli),
{
    assert((amount as u128) * (rate_milli as u128) <= u128::MAX) by (nonlinear_arith)
        requires
            amount <= u64::MAX,
            rate_milli <= u64::MAX,
    ;
    let wide: u128 = (amount as u128) * (rate_milli as u128) / 1000u128;
    if wide > u64::MAX as u128 {
        u64::MAX
    } else {
        wide as u64
    }
}

impl StreamRecord {
    /// A fresh counter for a token.
    pub fn new(nft_id: String, artist: String) -> (r: StreamRecord)
        ensures
            r.nft_id == nft_id,
            r.artist == artist,
            r.streams == 0,
    {
        StreamRecord { nft_id, artist, streams: 0 }
    }

    /// Counts one stream, saturating at the integer limit.
    pub fn record_stream(&mut self)
        ensures
            final(self).streams as int == crate::consensus::spec_saturate_u64(
                old(self).streams + 1,
            ),
            final(self).nft_id == old(self).nft_id,
            final(self).artist == old(self).artist,
    {
        if self.streams < u64::MAX {
            self.streams = self.streams + 1;
        }
    }
}

/// The record book of one medical ledger: providers may file, one
/// sealed record per patient entry.
pub struct MedicalRecordBook {
    pub authorized_providers: Vec<String>,
    pub records: Vec<MedicalRecord>,
}

impl MedicalRecordBook {
    /// An empty book.
    pub fn new() -> (r: MedicalRecordBook)
        ensures
            r.authorized_providers@.len() == 0,
            r.records@.len() == 0,
    {
        MedicalRecordBook { authorized_providers: Vec::new(), records: Vec::new() }
    }

    /// Authorizes a provider to file records.
    pub fn authorize_provider(&mut self, provider_id: String)
        ensures
            final(self).authorized_providers@ == old(self).authorized_providers@ + seq![
                provider_id,
            ],
            final(self).records@ == old(self).records@,
    {
        self.authorized_providers.push(provider_id);
    }

    /// Whether the provider may file records.
    pub fn is_authorized(&self, provider_id: &String) -> (r: bool)
        ensures
            r == exists|i: int|
                0 <= i < self.authorized_providers@.len() && (
                #[trigger] self.authorized_providers@[i])@ == provider_id@,
    {
        let mut i: usize = 0;
        while i < self.authorized_providers.len()
            invariant
                i <= self.authorized_providers@.len(),
                forall|k: int|
                    0 <= k < i ==> !((#[trigger] self.authorized_providers@[k])@ == provider_id@),
            decreases self.authorized_providers@.len() - i,
        {
            if self.authorized_providers[i] == *provider_id {
                return true;
            }
            i = i + 1;
        }
        false
    }

    /// Files a sealed record: accepted exactly when the filing
    /// provider is authorized; an unauthorized filing changes
    /// nothing.
    pub fn add_record(&mut self, provider_id: &String, record: MedicalRecord) -> (r: bool)
        ensures
            r == exists|i: int|
                0 <= i < old(self).authorized_providers@.len() && (#[trigger] old(
                    self,
                ).authorized_providers@[i])@ == provider_id@,
            r ==> final(self).records@ == old(self).records@ + seq![record],
            !r ==> *final(self) == *old(self),
            final(self).authorized_providers@ == old(self).authorized_providers@,
    {
        if self.is_authorized(provider_id) {
            self.records.push(record);
            true
        } else {
            false
        }
    }
}

} // verus!
