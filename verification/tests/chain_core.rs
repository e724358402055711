//! Block, transaction, wallet and token behaviour on concrete values.

use quantumfuse_core::block::{BlockSignature, QuantumBlock, Validator, ValidatorSet, BlockError};
use quantumfuse_core::coin::{QFCError, QuantumFuseCoin};
use quantumfuse_core::crypto::{dilithium_keypair, hex_encode, random_bytes, HashDigest};
use quantumfuse_core::transaction::{OperationType, QuantumTransaction};
use quantumfuse_core::wallet::QuantumWallet;

const NOW: u64 = 1700000000;

fn sample_transaction() -> QuantumTransaction {
    QuantumTransaction::new_at(
        "sender".to_string(),
        "receiver".to_string(),
        100,
        1,
        OperationType::Transfer,
        21000,
        NOW,
    )
}

fn sample_block(height: u64) -> QuantumBlock {
    QuantumBlock::new_with(
        HashDigest::zero(),
        vec![sample_transaction()],
        HashDigest::zero(),
        ValidatorSet::new(),
        height,
        NOW,
        vec![0u8; 32],
    )
    .unwrap()
}

#[test]
fn test_block_creation() {
    let parent_hash = HashDigest::zero();
    let transactions = vec![sample_transaction()];
    let state_root = HashDigest::zero();
    let validator_set = ValidatorSet::new();

    let block =
        QuantumBlock::new(parent_hash, transactions, state_root, validator_set, 1).unwrap();

    assert_eq!(block.header.height, 1);
    assert!(block.header.prev_hash.eq_digest(&HashDigest::zero()));
}

#[test]
fn test_block_validation() {
    let block = sample_block(1);
    assert!(block.validate_at(NOW).unwrap());
}

#[test]
fn test_block_execution() {
    let block = sample_block(1);
    let execution_result = block.execute();
    assert_eq!(execution_result.height, 1);
    assert_eq!(execution_result.receipts.len(), 1);
}

#[test]
fn test_quantum_randomness() {
    let random = random_bytes(32);
    assert_eq!(random.len(), 32);
}

#[test]
fn test_block_validation_errors() {
    let mut block = sample_block(1);
    block.header.version = 0;
    assert_eq!(block.validate_at(NOW).unwrap_err(), BlockError::InvalidVersion);

    let mut block = sample_block(1);
    block.header.timestamp = NOW + 10;
    assert_eq!(block.validate_at(NOW).unwrap_err(), BlockError::FutureTimestamp);

    let mut block = sample_block(1);
    block.quantum_random_beacon = vec![0u8; 31];
    assert_eq!(block.validate_at(NOW).unwrap_err(), BlockError::InvalidRandomBeacon);

    let mut block = sample_block(1);
    block.header.transactions_root = HashDigest::zero();
    assert_eq!(block.validate_at(NOW).unwrap_err(), BlockError::InvalidTransactionsRoot);

    let mut block = sample_block(1);
    block.consensus_data.difficulty = 0;
    assert_eq!(block.validate_at(NOW).unwrap_err(), BlockError::InvalidDifficulty);

    let mut block = sample_block(1);
    block.consensus_data.gas_limit = 0;
    assert_eq!(block.validate_at(NOW).unwrap_err(), BlockError::InvalidGasLimit);
}

#[test]
fn test_transactions_root_deterministic() {
    let a = sample_block(1);
    let b = sample_block(1);
    assert_eq!(a.header.transactions_root.to_hex(), b.header.transactions_root.to_hex());
}

fn keyed_validator(name: &str, stake: u64) -> (Validator, Vec<u8>) {
    let (pk, sk) = dilithium_keypair();
    (
        Validator {
            address: name.to_string(),
            public_key: pk,
            stake,
            reputation: 0,
            rewards_earned: 0,
            renewable_certified: false,
        },
        sk,
    )
}

fn multisig_block(signer_count: usize) -> QuantumBlock {
    let mut validators = Vec::new();
    let mut keys = Vec::new();
    for i in 0..4 {
        let (v, sk) = keyed_validator(&format!("validator{}", i), 1000);
        validators.push(v);
        keys.push(sk);
    }
    let mut block = QuantumBlock::new_with(
        HashDigest::zero(),
        vec![sample_transaction()],
        HashDigest::zero(),
        ValidatorSet { validators },
        1,
        NOW,
        vec![0u8; 32],
    )
    .unwrap();
    for i in 0..signer_count {
        block.sign(i, &keys[i]);
    }
    block
}

#[test]
fn test_multisig_three_of_four_passes() {
    let block = multisig_block(3);
    assert!(block.validate_at(NOW).unwrap());
}

#[test]
fn test_multisig_two_of_four_fails() {
    let block = multisig_block(2);
    assert_eq!(block.validate_at(NOW).unwrap_err(), BlockError::InsufficientSignatures);
}

#[test]
fn test_multisig_order_does_not_matter() {
    // three valid signatures, listed out of order, still pass
    let mut validators = Vec::new();
    let mut keys = Vec::new();
    for i in 0..4 {
        let (v, sk) = keyed_validator(&format!("validator{}", i), 1000);
        validators.push(v);
        keys.push(sk);
    }
    let mut block = QuantumBlock::new_with(
        HashDigest::zero(),
        vec![sample_transaction()],
        HashDigest::zero(),
        ValidatorSet { validators },
        1,
        NOW,
        vec![0u8; 32],
    )
    .unwrap();
    block.sign(2, &keys[2]);
    block.sign(0, &keys[0]);
    block.sign(3, &keys[3]);
    assert!(block.validate_at(NOW).unwrap());
}

#[test]
fn test_multisig_duplicate_signer_counted_once() {
    // one validator signing three times is one vouching validator
    let mut block = multisig_block(1);
    let digest = block.compute_signing_root();
    let first = block.signatures[0].signature.clone();
    let _ = digest;
    block.signatures.push(BlockSignature { validator_index: 0, signature: first.clone() });
    block.signatures.push(BlockSignature { validator_index: 0, signature: first });
    assert_eq!(block.validate_at(NOW).unwrap_err(), BlockError::InsufficientSignatures);
}

#[test]
fn test_block_transaction_signatures() {
    let wallet = QuantumWallet::new(NOW).unwrap();
    let mut tx = sample_transaction();
    wallet.sign_transaction(&mut tx);
    let block = QuantumBlock::new_with(
        HashDigest::zero(),
        vec![tx],
        HashDigest::zero(),
        ValidatorSet::new(),
        1,
        NOW,
        vec![0u8; 32],
    )
    .unwrap();
    let keys = vec![wallet.public_key().clone()];
    assert!(block.verify_transaction_signatures(&keys));
    let (other_pk, _sk) = dilithium_keypair();
    assert!(!block.verify_transaction_signatures(&vec![other_pk]));
}

#[test]
fn test_multisig_bad_signature_not_counted() {
    let mut block = multisig_block(2);
    // a third entry signed with a key outside the validator set
    let (_pk, stray_sk) = dilithium_keypair();
    let digest = block.compute_signing_root();
    let stray = quantumfuse_core::crypto::dilithium_sign(&digest, &stray_sk);
    block.signatures.push(BlockSignature { validator_index: 3, signature: stray });
    assert_eq!(block.validate_at(NOW).unwrap_err(), BlockError::InsufficientSignatures);
}

#[test]
fn test_transaction_creation() {
    let tx = QuantumTransaction::new(
        "sender".to_string(),
        "receiver".to_string(),
        100,
        1,
        OperationType::Transfer,
        21000,
    )
    .unwrap();

    assert_eq!(tx.version, 1);
    assert_eq!(tx.amount, 100);
    assert_eq!(tx.fee, 1);
}

#[test]
fn transaction_test_transaction_signing() {
    let (_pk, sk) = dilithium_keypair();
    let mut tx = sample_transaction();
    tx.sign_with(&sk);
    assert!(tx.signature.is_some());
}

#[test]
fn test_transaction_verification() {
    let (pk, sk) = dilithium_keypair();
    let mut tx = sample_transaction();
    tx.sign_with(&sk);
    assert!(tx.verify_at(&pk, NOW).unwrap());
}

#[test]
fn test_quantum_proof() {
    let (_dpk, dsk) = dilithium_keypair();
    let (kpk, _ksk) = quantumfuse_core::crypto::kyber_keypair();
    let mut tx = sample_transaction();
    tx.sign_with(&dsk);
    assert!(tx.add_quantum_proof(&kpk, NOW).is_ok());
    assert!(tx.quantum_proof.is_some());
}

#[test]
fn test_signature_rejects_mutation() {
    let (pk, sk) = dilithium_keypair();
    let mut tx = sample_transaction();
    tx.sign_with(&sk);
    assert!(tx.verify_at(&pk, NOW).unwrap());
    tx.amount = 101;
    assert!(!tx.verify_at(&pk, NOW).unwrap());
}

#[test]
fn test_wallet_creation() {
    let wallet = QuantumWallet::new(NOW).unwrap();
    assert!(wallet.address.starts_with("qf"));
    assert!(wallet.did.starts_with("did:qf:"));
}

#[test]
fn wallet_test_transaction_signing() {
    let wallet = QuantumWallet::new(NOW).unwrap();
    let mut tx = QuantumTransaction::new_at(
        wallet.address.clone(),
        "recipient".to_string(),
        100,
        0,
        OperationType::Transfer,
        21000,
        NOW,
    );
    wallet.sign_transaction(&mut tx);
    assert!(wallet.verify_transaction(&tx));
}

#[test]
fn test_staking() {
    let mut wallet = QuantumWallet::new(NOW).unwrap();
    wallet.balance = 1000;

    let stake_tx = wallet.stake(500, NOW).unwrap();
    assert_eq!(wallet.balance, 500);
    assert_eq!(wallet.staking_info.staked_amount, 500);
    assert!(wallet.verify_transaction(&stake_tx));
}

#[test]
fn test_wallet_rejects_other_wallets_signature() {
    let signer = QuantumWallet::new(NOW).unwrap();
    let other = QuantumWallet::new(NOW).unwrap();
    let mut tx = sample_transaction();
    signer.sign_transaction(&mut tx);
    assert!(signer.verify_transaction(&tx));
    assert!(!other.verify_transaction(&tx));
}

#[test]
fn test_token_creation() {
    let qfc = QuantumFuseCoin::new(NOW);
    assert_eq!(qfc.total_supply, 1_000_000_000);
    assert_eq!(qfc.circulating_supply, 0);
}

#[test]
fn test_token_minting() {
    let mut qfc = QuantumFuseCoin::new(NOW);
    let result = qfc.mint(&"test_wallet".to_string(), 1000, NOW);
    assert!(result.is_ok());

    let balance = qfc.balance_of(&"test_wallet".to_string()).unwrap();
    assert_eq!(balance.available, 1000);
}

#[test]
fn test_token_transfer() {
    let mut qfc = QuantumFuseCoin::new(NOW);
    assert!(qfc.mint(&"sender".to_string(), 1000, NOW).is_ok());

    let result = qfc.transfer(&"sender".to_string(), &"recipient".to_string(), 500, NOW);
    assert!(result.is_ok());

    let sender_balance = qfc.balance_of(&"sender".to_string()).unwrap();
    let recipient_balance = qfc.balance_of(&"recipient".to_string()).unwrap();

    assert_eq!(sender_balance.available, 500);
    assert_eq!(recipient_balance.available, 500);
}

#[test]
fn test_vesting_schedule() {
    let mut qfc = QuantumFuseCoin::new(NOW);
    let result = qfc.create_vesting_schedule(&"test_wallet".to_string(), 1000, 2, NOW);
    assert!(result.is_ok());

    let schedule = result.unwrap();
    assert_eq!(schedule.total_amount, 1000);
    assert_eq!(schedule.released_amount, 0);
}

#[test]
fn test_token_error_variants() {
    let mut qfc = QuantumFuseCoin::new(NOW);
    assert!(matches!(qfc.mint(&"w".to_string(), 0, NOW), Err(QFCError::InvalidAmount)));
    assert!(matches!(
        qfc.mint(&"w".to_string(), 1_000_000_001, NOW),
        Err(QFCError::ExceedsTotalSupply)
    ));
    assert!(matches!(
        qfc.transfer(&"ghost".to_string(), &"w".to_string(), 5, NOW),
        Err(QFCError::InsufficientBalance)
    ));
    assert!(qfc.mint(&"w".to_string(), 10, NOW).is_ok());
    assert!(matches!(
        qfc.transfer(&"w".to_string(), &"x".to_string(), 11, NOW),
        Err(QFCError::InsufficientBalance)
    ));
    assert!(matches!(qfc.stake(&"w".to_string(), 0, NOW), Err(QFCError::InvalidAmount)));
}

#[test]
fn test_token_staking_moves_balance() {
    let mut qfc = QuantumFuseCoin::new(NOW);
    assert!(qfc.mint(&"w".to_string(), 100, NOW).is_ok());
    assert!(qfc.stake(&"w".to_string(), 40, NOW).is_ok());
    let balance = qfc.balance_of(&"w".to_string()).unwrap();
    assert_eq!(balance.available, 60);
    assert_eq!(balance.staked, 40);
    assert_eq!(qfc.get_metrics().total_staked, 40);
    assert_eq!(qfc.circulating_supply, 100);
}

#[test]
fn test_claim_vested_tokens() {
    let mut qfc = QuantumFuseCoin::new(NOW);
    qfc.create_vesting_schedule(&"w".to_string(), 1000, 2, NOW).unwrap();
    // before the next release nothing can be claimed
    assert!(matches!(
        qfc.claim_vested_tokens(&"w".to_string(), NOW + 1000),
        Err(QFCError::VestingNotReady)
    ));
    // half way through two years: half the total is claimable and minted
    let halfway = NOW + 31536000;
    let rec = qfc.claim_vested_tokens(&"w".to_string(), halfway).unwrap();
    assert_eq!(rec.amount, 500);
    assert_eq!(qfc.circulating_supply, 500);
    assert_eq!(qfc.balance_of(&"w".to_string()).unwrap().available, 500);
    // a holder without a schedule is refused
    assert!(matches!(
        qfc.claim_vested_tokens(&"ghost".to_string(), halfway),
        Err(QFCError::NoVestingSchedule)
    ));
}

#[test]
fn test_vested_amount_linear() {
    let mut qfc = QuantumFuseCoin::new(NOW);
    let schedule = qfc.create_vesting_schedule(&"w".to_string(), 1000, 2, NOW).unwrap();
    // before the cliff nothing is claimable
    assert_eq!(qfc.calculate_vested_amount(&schedule, NOW + 1000), 0);
    // exactly half way through two years: half the total
    let halfway = NOW + 31536000;
    assert_eq!(qfc.calculate_vested_amount(&schedule, halfway), 500);
    // long after the end: everything
    assert_eq!(qfc.calculate_vested_amount(&schedule, NOW + 10 * 31536000), 1000);
}

#[test]
fn test_blake3_wrapper_matches_library() {
    let digest = HashDigest::compute(b"hello world");
    let expected = blake3::hash(b"hello world");
    assert_eq!(digest.to_hex(), expected.to_hex().to_string());
}

#[test]
fn test_hex_wrapper_known_value() {
    assert_eq!(hex_encode(&[0x00, 0xff, 0x10]), "00ff10");
    assert_eq!(hex_encode(&[0x00, 0xff, 0x10]), hex::encode([0x00u8, 0xff, 0x10]));
}

#[test]
fn test_dilithium_wrapper_round_trip() {
    let (pk, sk) = dilithium_keypair();
    let sig = quantumfuse_core::crypto::dilithium_sign(b"message", &sk);
    assert!(quantumfuse_core::crypto::dilithium_verify(&sig, b"message", &pk));
    assert!(!quantumfuse_core::crypto::dilithium_verify(&sig, b"other message", &pk));
}
