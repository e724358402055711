//! Cryptographic primitives of the chain: the BLAKE3 content hash, the
//! Dilithium post-quantum signature scheme, hex and base-58 rendering of
//! key material, and the sources of randomness and time.
//!
//! Every call into an outside library stands behind a trusted wrapper
//! here; the rest of the crate is verified against the contracts of these
//! wrappers alone.

use vstd::prelude::*;

verus! {

/// Bytes of a Dilithium2 public key.
pub const DILITHIUM_PK_LEN: usize = 1312;

/// Bytes of a Dilithium2 secret key.
pub const DILITHIUM_SK_LEN: usize = 2560;

/// Bytes of a Dilithium2 detached signature.
pub const DILITHIUM_SIG_LEN: usize = 2420;

/// Bytes of a Kyber512 public key.
pub const KYBER_PK_LEN: usize = 800;

/// Bytes of a Kyber512 secret key.
pub const KYBER_SK_LEN: usize = 1632;

/// The BLAKE3 digest of a byte string. The digest is a pure function of
/// the input, so equal inputs always give equal digests; nothing else is
/// assumed of it.
pub uninterp spec fn blake3_of(bytes: Seq<u8>) -> Seq<u8>;

/// The detached Dilithium2 signature on `msg` under the secret key `sk`.
/// The scheme signs deterministically, so the signature is a pure
/// function of message and key.
pub uninterp spec fn dilithium_sig_of(msg: Seq<u8>, sk: Seq<u8>) -> Seq<u8>;

/// Whether `sig` is a Dilithium2 signature on `msg` that the public key
/// `pk` accepts.
pub uninterp spec fn dilithium_signs(sig: Seq<u8>, msg: Seq<u8>, pk: Seq<u8>) -> bool;

/// A public/secret key pair under which signing works: every message
/// signed with `sk` verifies under `pk`.
pub open spec fn dilithium_keypair_ok(pk: Seq<u8>, sk: Seq<u8>) -> bool {
    &&& pk.len() == DILITHIUM_PK_LEN
    &&& sk.len() == DILITHIUM_SK_LEN
    &&& forall|msg: Seq<u8>|
        #[trigger] dilithium_signs(dilithium_sig_of(msg, sk), msg, pk)
}

/// Relies on blake3::hash: a 32-byte digest that depends on the input
/// bytes alone.
#[verifier::external_body]
pub fn blake3_hash(bytes: &[u8]) -> (r: Vec<u8>)
    ensures
        r@ == blake3_of(bytes@),
        r@.len() == 32,
{
    blake3::hash(bytes).as_bytes().to_vec()
}

/// Relies on pqcrypto_dilithium::dilithium2::keypair: a fresh key pair of
/// the documented sizes, under which signing then verifying succeeds (the
/// crate documents keypair/sign/open as a working round trip).
#[verifier::external_body]
pub fn dilithium_keypair() -> (r: (Vec<u8>, Vec<u8>))
    ensures
        dilithium_keypair_ok(r.0@, r.1@),
{
    let (pk, sk) = pqcrypto_dilithium::dilithium2::keypair();
    (
        pqcrypto_traits::sign::PublicKey::as_bytes(&pk).to_vec(),
        pqcrypto_traits::sign::SecretKey::as_bytes(&sk).to_vec(),
    )
}

/// Relies on pqcrypto_dilithium::dilithium2::detached_sign: the PQClean
/// implementation signs deterministically, so the result depends on the
/// message and the key alone.
#[verifier::external_body]
pub fn dilithium_sign(msg: &[u8], sk: &[u8]) -> (r: Vec<u8>)
    requires
        sk@.len() == DILITHIUM_SK_LEN,
    ensures
        r@ == dilithium_sig_of(msg@, sk@),
        r@.len() == DILITHIUM_SIG_LEN,
{
    let key = pqcrypto_traits::sign::SecretKey::from_bytes(sk).unwrap();
    let sig: pqcrypto_dilithium::dilithium2::DetachedSignature =
        pqcrypto_dilithium::dilithium2::detached_sign(msg, &key);
    pqcrypto_traits::sign::DetachedSignature::as_bytes(&sig).to_vec()
}

/// Relies on pqcrypto_dilithium::dilithium2::verify_detached_signature:
/// acceptance depends on signature, message and public key alone. A byte
/// string too long to be a signature is never accepted.
#[verifier::external_body]
pub fn dilithium_verify(sig: &[u8], msg: &[u8], pk: &[u8]) -> (r: bool)
    requires
        pk@.len() == DILITHIUM_PK_LEN,
    ensures
        r == dilithium_signs(sig@, msg@, pk@),
{
    let key = pqcrypto_traits::sign::PublicKey::from_bytes(pk).unwrap();
    match pqcrypto_traits::sign::DetachedSignature::from_bytes(sig) {
        Ok(s) => pqcrypto_dilithium::dilithium2::verify_detached_signature(&s, msg, &key).is_ok(),
        Err(_) => false,
    }
}

/// Relies on pqcrypto_kyber::kyber512::keypair: a fresh key-encapsulation
/// pair of the documented sizes.
#[verifier::external_body]
pub fn kyber_keypair() -> (r: (Vec<u8>, Vec<u8>))
    ensures
        r.0@.len() == KYBER_PK_LEN,
        r.1@.len() == KYBER_SK_LEN,
{
    let (pk, sk) = pqcrypto_kyber::kyber512::keypair();
    (
        pqcrypto_traits::kem::PublicKey::as_bytes(&pk).to_vec(),
        pqcrypto_traits::kem::SecretKey::as_bytes(&sk).to_vec(),
    )
}

/// Relies on pqcrypto_kyber::kyber512::encapsulate: a ciphertext for a
/// fresh shared secret under `pk`; the result is randomized, so only its
/// size is stated (768 ciphertext bytes, as documented).
#[verifier::external_body]
pub fn kyber_encapsulate(pk: &[u8]) -> (r: Vec<u8>)
    requires
        pk@.len() == KYBER_PK_LEN,
    ensures
        r@.len() == 768,
{
    let key = pqcrypto_traits::kem::PublicKey::from_bytes(pk).unwrap();
    let (_shared, ct) = pqcrypto_kyber::kyber512::encapsulate(&key);
    pqcrypto_traits::kem::Ciphertext::as_bytes(&ct).to_vec()
}

/// Relies on rand::fill: fills the buffer with bytes from the thread-local
/// CSPRNG. Nothing holds of the values, only of the length.
#[verifier::external_body]
pub fn random_bytes(n: usize) -> (r: Vec<u8>)
    ensures
        r@.len() == n,
{
    let mut buf = vec![0u8; n];
    rand::fill(buf.as_mut_slice());
    buf
}

/// Relies on chrono::Utc::now: the wall clock as seconds since the Unix
/// epoch. Nothing holds of the value.
#[verifier::external_body]
pub fn now_unix() -> (r: i64) {
    chrono::Utc::now().timestamp()
}

/// Relies on uuid::Uuid::new_v4: a fresh random identifier, rendered in
/// the documented 36-character hyphenated form.
#[verifier::external_body]
pub fn new_id() -> (r: String)
    ensures
        r@.len() == 36,
{
    uuid::Uuid::new_v4().to_string()
}

/// The wall clock clamped to unsigned seconds; times before the epoch
/// read as zero.
pub fn now_seconds() -> (r: u64) {
    let t = now_unix();
    if t < 0 {
        0u64
    } else {
        t as u64
    }
}

/// The sixteen lower-case hex digits.
pub open spec fn spec_hex_digits() -> Seq<char> {
    seq!['0', '1', '2', '3', '4', '5', '6', '7', '8', '9', 'a', 'b', 'c', 'd', 'e', 'f']
}

/// The lower-case hex rendering of a byte string: two digits per byte,
/// high nibble first.
pub open spec fn spec_hex_of(bytes: Seq<u8>) -> Seq<char>
    decreases bytes.len(),
{
    if bytes.len() == 0 {
        Seq::<char>::empty()
    } else {
        seq![
            spec_hex_digits()[(bytes.first() >> 4) as int],
            spec_hex_digits()[(bytes.first() & 0x0f) as int],
        ] + spec_hex_of(bytes.drop_first())
    }
}

/// Relies on hex::encode: the lower-case hex rendering of the input.
#[verifier::external_body]
pub fn hex_encode(bytes: &[u8]) -> (r: String)
    ensures
        r@ == spec_hex_of(bytes@),
{
    hex::encode(bytes)
}

/// A 32-byte content digest: the identity of blocks, transactions and
/// state commitments.
pub struct HashDigest {
    bytes: Vec<u8>,
}

impl View for HashDigest {
    type V = Seq<u8>;

    closed spec fn view(&self) -> Seq<u8> {
        self.bytes@
    }
}

/// The all-zero digest, used where the chain has nothing to commit to
/// yet (the genesis parent, an empty state).
pub open spec fn spec_zero_digest() -> Seq<u8> {
    Seq::<u8>::new(32, |i: int| 0u8)
}

impl HashDigest {
    /// A digest is well formed when it has exactly 32 bytes.
    pub open spec fn wf(&self) -> bool {
        self@.len() == 32
    }

    /// The digest of the given byte string.
    pub fn compute(bytes: &[u8]) -> (r: HashDigest)
        ensures
            r@ == blake3_of(bytes@),
            r.wf(),
    {
        HashDigest { bytes: blake3_hash(bytes) }
    }

    /// The all-zero digest.
    pub fn zero() -> (r: HashDigest)
        ensures
            r@ == spec_zero_digest(),
            r.wf(),
    {
        let mut bytes: Vec<u8> = Vec::new();
        let mut i: usize = 0;
        while i < 32
            invariant
                i <= 32,
                bytes@ =~= spec_zero_digest().subrange(0, i as int),
            decreases 32 - i,
        {
            bytes.push(0u8);
            i = i + 1;
            assert(bytes@ =~= spec_zero_digest().subrange(0, i as int));
        }
        assert(spec_zero_digest().subrange(0, 32) =~= spec_zero_digest());
        HashDigest { bytes }
    }

    /// Wraps 32 raw bytes as a digest; anything of another length is
    /// refused.
    pub fn from_bytes(bytes: Vec<u8>) -> (r: Option<HashDigest>)
        ensures
            match r {
                Some(d) => d@ == bytes@ && d.wf(),
                None => bytes@.len() != 32,
            },
    {
        if bytes.len() == 32 {
            Some(HashDigest { bytes })
        } else {
            None
        }
    }

    /// The digest's bytes.
    pub fn as_bytes(&self) -> (r: &Vec<u8>)
        ensures
            r@ == self@,
    {
        &self.bytes
    }

    /// Whether two digests hold the same bytes.
    pub fn eq_digest(&self, other: &HashDigest) -> (r: bool)
        ensures
            r == (self@ == other@),
    {
        let mut i: usize = 0;
        if self.bytes.len() != other.bytes.len() {
            return false;
        }
        while i < self.bytes.len()
            invariant
                i <= self.bytes@.len(),
                self.bytes@.len() == other.bytes@.len(),
                forall|j: int| 0 <= j < i ==> self.bytes@[j] == other.bytes@[j],
            decreases self.bytes@.len() - i,
        {
            if self.bytes[i] != other.bytes[i] {
                return false;
            }
            i = i + 1;
        }
        assert(self.bytes@ =~= other.bytes@);
        true
    }

    /// The digest rendered as lower-case hex, for logs and interfaces.
    pub fn to_hex(&self) -> (r: String)
        ensures
            r@ == spec_hex_of(self@),
    {
        hex_encode(self.bytes.as_slice())
    }
}

impl Clone for HashDigest {
    /// A clone holds the same bytes.
    fn clone(&self) -> (r: HashDigest)
        ensures
            r@ == self@,
    {
        let mut bytes: Vec<u8> = Vec::new();
        let mut i: usize = 0;
        while i < self.bytes.len()
            invariant
                i <= self.bytes@.len(),
                bytes@ =~= self.bytes@.subrange(0, i as int),
            decreases self.bytes@.len() - i,
        {
            bytes.push(self.bytes[i]);
            i = i + 1;
            assert(bytes@ =~= self.bytes@.subrange(0, i as int));
        }
        assert(self.bytes@.subrange(0, self.bytes@.len() as int) =~= self.bytes@);
        HashDigest { bytes }
    }
}

} // verus!
