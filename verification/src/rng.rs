//! The randomness service: an entropy buffer over a software CSPRNG
//! source, quantum-resistant mixing through the content hash, and a
//! crude serial-correlation proxy for entropy quality.
//!
//! Hardware randomness devices are outside input/output; the software
//! source stands in for them here, and nothing is assumed of the
//! values it returns, only of their count.

use vstd::prelude::*;

use crate::crypto::{
    blake3_hash, blake3_of, dilithium_keypair, dilithium_keypair_ok, random_bytes,
};

verus! {

/// Seconds after which the entropy buffer is considered stale.
pub const ENTROPY_REFRESH_SECONDS: u64 = 300;

/// The quality floor, in parts per thousand, under which the buffer is
/// refreshed.
pub const ENTROPY_QUALITY_FLOOR_MILLI: u64 = 800;

/// Configuration of the randomness service; ratios in parts per
/// thousand.
#[derive(Clone, Copy, PartialEq, Eq, Structural, Debug)]
pub struct QRNGConfig {
    pub buffer_size: usize,
    pub refresh_interval: u64,
    pub min_entropy_quality_milli: u64,
    pub fallback_threshold_milli: u64,
    pub quantum_security_level: u8,
}

/// The kind of randomness device a deployment may attach.
#[derive(Clone, Copy, PartialEq, Eq, Structural, Debug)]
pub enum QuantumDeviceType {
    PhotonicQRNG,
    SuperconductingQRNG,
    RadioactiveDecayQRNG,
    AtomicQRNG,
    Hybrid,
}

/// Where a randomness device stands.
pub enum DeviceStatus {
    Active,
    Calibrating,
    Error(String),
    Inactive,
}

/// Where a portion of entropy came from.
#[derive(Clone, Copy, PartialEq, Eq, Structural, Debug)]
pub enum EntropySourceType {
    Quantum,
    Environmental,
    Hardware,
    Hybrid,
}

/// The software randomness source.
pub struct SoftwareQRNG {
    pub seed: Vec<u8>,
    pub algorithm: String,
    pub iterations: u64,
}

/// The backend: the declared device kind and the software source that
/// answers for it.
pub struct QRNGBackend {
    pub device_type: QuantumDeviceType,
    pub software_fallback: SoftwareQRNG,
    pub status: DeviceStatus,
}

/// The buffered entropy with its freshness and quality.
pub struct EntropyBuffer {
    pub buffer: Vec<u8>,
    pub last_refresh: u64,
    pub entropy_quality_milli: u64,
}

/// Running figures of the randomness service.
#[derive(Clone, Copy, PartialEq, Eq, Structural, Debug)]
pub struct QRNGMetrics {
    pub bytes_generated: u64,
    pub keypairs_generated: u64,
    pub last_generation: u64,
}

/// The randomness service.
pub struct QuantumRNG {
    pub backend: QRNGBackend,
    pub buffer: EntropyBuffer,
    pub metrics: QRNGMetrics,
    pub config: QRNGConfig,
}

/// How many adjacent byte pairs of the data differ.
pub open spec fn spec_transitions(data: Seq<u8>) -> int
    decreases data.len(),
{
    if data.len() < 2 {
        0
    } else {
        spec_transitions(data.drop_last()) + if data[data.len() - 2] != data.last() {
            1int
        } else {
            0int
        }
    }
}

/// The quality proxy: the share of adjacent byte pairs that differ,
/// in parts per thousand; zero for data shorter than two bytes.
pub open spec fn spec_entropy_quality_milli(data: Seq<u8>) -> int {
    if data.len() < 2 {
        0
    } else {
        spec_transitions(data) * 1000 / (data.len() - 1)
    }
}

/// The transition count never exceeds the number of adjacent pairs.
proof fn lemma_transitions_bound(data: Seq<u8>)
    ensures
        0 <= spec_transitions(data),
        data.len() >= 1 ==> spec_transitions(data) <= data.len() - 1,
    decreases data.len(),
{
    if data.len() >= 2 {
        lemma_transitions_bound(data.drop_last());
    }
}

impl SoftwareQRNG {
    /// A fresh software source with a random seed.
    pub fn new() -> (r: SoftwareQRNG)
        ensures
            r.seed@.len() == 32,
            r.iterations == 0,
    {
        SoftwareQRNG {
            seed: random_bytes(32),
            algorithm: String::from_str("ChaCha20"),
            iterations: 0,
        }
    }

    /// `length` bytes from the thread-local CSPRNG; nothing holds of
    /// the values, only of the count.
    pub fn generate_entropy(&self, length: usize) -> (r: Vec<u8>)
        ensures
            r@.len() == length,
    {
        random_bytes(length)
    }
}

impl EntropyBuffer {
    /// An empty buffer stamped with the given time.
    pub fn new(now: u64) -> (r: EntropyBuffer)
        ensures
            r.buffer@.len() == 0,
            r.last_refresh == now,
            r.entropy_quality_milli == 1000,
    {
        EntropyBuffer { buffer: Vec::new(), last_refresh: now, entropy_quality_milli: 1000 }
    }

    /// Whether the buffer must be refilled: it is empty, stale, or of
    /// poor quality.
    pub fn needs_refresh(&self, now: u64) -> (r: bool)
        ensures
            r == (self.buffer@.len() == 0 || (now >= self.last_refresh && now - self.last_refresh
                > ENTROPY_REFRESH_SECONDS) || self.entropy_quality_milli
                < ENTROPY_QUALITY_FLOOR_MILLI),
    {
        self.buffer.len() == 0 || (now >= self.last_refresh && now - self.last_refresh
            > ENTROPY_REFRESH_SECONDS) || self.entropy_quality_milli < ENTROPY_QUALITY_FLOOR_MILLI
    }
}

impl QuantumRNG {
    /// A fresh service: a filled buffer of the configured size over
    /// the software source.
    pub fn new(config: QRNGConfig, now: u64) -> (r: QuantumRNG)
        ensures
            r.buffer.buffer@.len() == config.buffer_size,
            r.config == config,
            r.metrics.bytes_generated == 0,
    {
        let backend = QRNGBackend {
            device_type: QuantumDeviceType::PhotonicQRNG,
            software_fallback: SoftwareQRNG::new(),
            status: DeviceStatus::Active,
        };
        let entropy = backend.software_fallback.generate_entropy(config.buffer_size);
        QuantumRNG {
            backend,
            buffer: EntropyBuffer { buffer: entropy, last_refresh: now, entropy_quality_milli: 1000 },
            metrics: QRNGMetrics { bytes_generated: 0, keypairs_generated: 0, last_generation: now },
            config,
        }
    }

    /// Refills the buffer from the software source and restamps it.
    pub fn refresh_entropy_buffer(&mut self, now: u64)
        ensures
            final(self).buffer.buffer@.len() == old(self).config.buffer_size,
            final(self).buffer.last_refresh == now,
            final(self).config == old(self).config,
            final(self).metrics == old(self).metrics,
    {
        let entropy = self.backend.software_fallback.generate_entropy(self.config.buffer_size);
        let quality = QuantumRNG::estimate_entropy_quality(entropy.as_slice());
        self.buffer.buffer = entropy;
        self.buffer.last_refresh = now;
        self.buffer.entropy_quality_milli = quality;
    }

    /// Exactly `length` random bytes, drawn from the buffer and
    /// refilled from the source as needed; the byte counter advances
    /// (saturating).
    pub fn generate_random_bytes(&mut self, length: usize, now: u64) -> (r: Vec<u8>)
        ensures
            r@.len() == length,
            final(self).metrics.bytes_generated as int == crate::consensus::spec_saturate_u64(
                old(self).metrics.bytes_generated + length,
            ),
            final(self).config == old(self).config,
    {
        let mut result: Vec<u8> = Vec::new();
        while result.len() < length
            invariant
                result@.len() <= length,
                self.config == old(self).config,
                self.metrics == old(self).metrics,
            decreases length - result@.len(),
        {
            if self.buffer.buffer.len() == 0 {
                self.refresh_entropy_buffer(now);
            }
            match self.buffer.buffer.pop() {
                Option::Some(byte) => {
                    result.push(byte);
                },
                Option::None => {
                    let extra = random_bytes(1);
                    result.push(extra[0]);
                },
            }
        }
        self.metrics.bytes_generated = if self.metrics.bytes_generated <= u64::MAX - (
        length as u64) {
            self.metrics.bytes_generated + (length as u64)
        } else {
            u64::MAX
        };
        self.metrics.last_generation = now;
        result
    }

    /// A fresh signing key pair, counted in the metrics.
    pub fn generate_keypair(&mut self, now: u64) -> (r: (Vec<u8>, Vec<u8>))
        ensures
            dilithium_keypair_ok(r.0@, r.1@),
            final(self).metrics.keypairs_generated as int == crate::consensus::spec_saturate_u64(
                old(self).metrics.keypairs_generated + 1,
            ),
    {
        let pair = dilithium_keypair();
        self.metrics.keypairs_generated = if self.metrics.keypairs_generated < u64::MAX {
            self.metrics.keypairs_generated + 1
        } else {
            u64::MAX
        };
        self.metrics.last_generation = now;
        pair
    }

    /// Mixes outside entropy into the buffer: the new buffer is the
    /// digest of the old buffer followed by the added bytes, and the
    /// quality is re-estimated over it.
    pub fn mix_entropy(&mut self, additional_entropy: &[u8]) -> (r: Result<(), ()>)
        ensures
            r is Ok,
            final(self).buffer.buffer@ == blake3_of(
                old(self).buffer.buffer@ + additional_entropy@,
            ),
            final(self).buffer.entropy_quality_milli as int == spec_entropy_quality_milli(
                final(self).buffer.buffer@,
            ),
            final(self).config == old(self).config,
            final(self).metrics == old(self).metrics,
    {
        let mut combined: Vec<u8> = Vec::new();
        let mut i: usize = 0;
        while i < self.buffer.buffer.len()
            invariant
                i <= self.buffer.buffer@.len(),
                combined@ =~= self.buffer.buffer@.subrange(0, i as int),
                self.buffer.buffer@ == old(self).buffer.buffer@,
            decreases self.buffer.buffer@.len() - i,
        {
            combined.push(self.buffer.buffer[i]);
            i = i + 1;
            assert(combined@ =~= self.buffer.buffer@.subrange(0, i as int));
        }
        assert(self.buffer.buffer@.subrange(0, self.buffer.buffer@.len() as int)
            =~= self.buffer.buffer@);
        let mut j: usize = 0;
        while j < additional_entropy.len()
            invariant
                j <= additional_entropy@.len(),
                combined@ =~= old(self).buffer.buffer@ + additional_entropy@.subrange(0, j as int),
                self.buffer.buffer@ == old(self).buffer.buffer@,
            decreases additional_entropy@.len() - j,
        {
            combined.push(additional_entropy[j]);
            j = j + 1;
            assert(combined@ =~= old(self).buffer.buffer@ + additional_entropy@.subrange(
                0,
                j as int,
            ));
        }
        assert(additional_entropy@.subrange(0, additional_entropy@.len() as int)
            =~= additional_entropy@);
        let mixed = blake3_hash(combined.as_slice());
        let quality = QuantumRNG::estimate_entropy_quality(mixed.as_slice());
        self.buffer.buffer = mixed;
        self.buffer.entropy_quality_milli = quality;
        Result::Ok(())
    }

    /// The quality proxy over the data, in parts per thousand: the
    /// share of adjacent byte pairs that differ. Constant data scores
    /// zero; alternating data scores a thousand.
    pub fn estimate_entropy_quality(data: &[u8]) -> (r: u64)
        ensures
            r as int == spec_entropy_quality_milli(data@),
            r <= 1000,
    {
        let n = data.len();
        if n < 2 {
            return 0;
        }
        let mut transitions: u64 = 0;
        let mut i: usize = 1;
        while i < n
            invariant
                n == data@.len(),
                2 <= n <= u64::MAX,
                1 <= i <= n,
                transitions as int == spec_transitions(data@.subrange(0, i as int)),
                transitions < i,
            decreases n - i,
        {
            let ghost prefix = data@.subrange(0, i as int);
            if data[i - 1] != data[i] {
                transitions = transitions + 1;
            }
            i = i + 1;
            proof {
                let sub = data@.subrange(0, i as int);
                assert(sub.drop_last() =~= prefix);
                assert(sub.last() == data@[i - 1]);
                assert(sub[sub.len() - 2] == data@[i - 2]);
            }
        }
        assert(data@.subrange(0, n as int) =~= data@);
        proof {
            lemma_transitions_bound(data@);
        }
        let wide: u128 = (transitions as u128) * 1000u128 / ((n - 1) as u128);
        proof {
            vstd::arithmetic::mul::lemma_mul_inequality(
                spec_transitions(data@),
                (n - 1) as int,
                1000int,
            );
            vstd::arithmetic::div_mod::lemma_div_is_ordered(
                spec_transitions(data@) * 1000,
                ((n - 1) as int) * 1000,
                (n - 1) as int,
            );
            vstd::arithmetic::div_mod::lemma_div_multiples_vanish(1000int, (n - 1) as int);
            vstd::arithmetic::mul::lemma_mul_is_commutative((n - 1) as int, 1000int);
            vstd::arithmetic::div_mod::lemma_div_pos_is_pos(
                spec_transitions(data@) * 1000,
                (n - 1) as int,
            );
            vstd::arithmetic::mul::lemma_mul_nonnegative(spec_transitions(data@), 1000int);
        }
        wide as u64
    }
}

} // verus!
