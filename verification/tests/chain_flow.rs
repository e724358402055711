//! Chain-level flows: chain construction, block appending, shard
//! routing, state management, consensus switching, and the services.

use quantumfuse_core::audio::{play_music, AudioBackend};
use quantumfuse_core::block::{QuantumBlock, Validator, ValidatorSet};
use quantumfuse_core::blockchain::{BlockchainConfig, BlockchainError, QuantumBlockchain};
use quantumfuse_core::bridge::{BridgeError, PQCAlgorithm, PQCWrapper, QuantumBridgeWrapper,
    BridgeAsset, TransferStatus,
};
use quantumfuse_core::consensus::{
    select_mechanism, ConsensusConfig, ConsensusType, QPoSConsensus,
};
use quantumfuse_core::crypto::{dilithium_keypair, HashDigest};
use quantumfuse_core::governance::{JudicialCase, JudicialStatus, Proposal, VoteType};
use quantumfuse_core::rng::{QRNGConfig, QuantumRNG};
use quantumfuse_core::services::{fiat_to_tokens, MedicalRecord, MedicalRecordBook};
use quantumfuse_core::shard::{QuantumShard, ShardAllocator, ShardConfig};
use quantumfuse_core::state::{MempoolTransaction, QuantumStateManager, WalletAccount};
use quantumfuse_core::transaction::{OperationType, QuantumTransaction};
use quantumfuse_core::wallet::QuantumWallet;

const NOW: u64 = 1700000000;

fn chain_config(shards: u64) -> BlockchainConfig {
    BlockchainConfig {
        network_id: 1,
        chain_id: 1,
        version: "1.0.0".to_string(),
        block_time: 5,
        max_block_size: 1000000,
        max_transactions_per_block: 1000,
        minimum_stake: 1000,
        quantum_security_level: 3,
        shard_count: shards,
    }
}

fn consensus_config() -> ConsensusConfig {
    ConsensusConfig {
        min_validators: 4,
        block_time: 5,
        epoch_length: 100,
        minimum_stake: 1000,
        quantum_security_level: 3,
        fault_tolerance_milli: 330,
    }
}

#[test]
fn test_blockchain_creation() {
    let blockchain = QuantumBlockchain::new(chain_config(4), consensus_config(), NOW);
    assert_eq!(blockchain.blocks.len(), 1);
    assert_eq!(blockchain.shards.len(), 4);
    assert_eq!(blockchain.blocks[0].header.height, 0);
}

fn staked_chain() -> (QuantumBlockchain, String) {
    let mut chain = QuantumBlockchain::new(chain_config(4), consensus_config(), NOW);
    let (pk, _sk) = dilithium_keypair();
    let proposer = "validator1".to_string();
    let added = chain.consensus_engine.qpos.add_validator(Validator {
        address: proposer.clone(),
        public_key: pk,
        stake: 5000,
        reputation: 0,
        rewards_earned: 0,
        renewable_certified: false,
    });
    assert!(added);
    (chain, proposer)
}

fn next_block(chain: &QuantumBlockchain, txs: Vec<QuantumTransaction>) -> QuantumBlock {
    QuantumBlock::new_with(
        chain.tip_hash(),
        txs,
        HashDigest::zero(),
        ValidatorSet::new(),
        chain.blocks.len() as u64,
        NOW,
        vec![0u8; 32],
    )
    .unwrap()
}

fn simple_tx(from: &str, amount: u64, fee: u64) -> QuantumTransaction {
    QuantumTransaction::new_at(
        from.to_string(),
        "receiver".to_string(),
        amount,
        fee,
        OperationType::Transfer,
        21000,
        NOW,
    )
}

#[test]
fn test_block_addition() {
    let (mut chain, proposer) = staked_chain();
    chain
        .state_manager
        .insert_wallet(WalletAccount { wallet_id: "sender".to_string(), balance: 500, staked_amount: 0 });
    let block = next_block(&chain, vec![simple_tx("sender", 100, 1)]);
    chain.add_block(block, &proposer, NOW).unwrap();
    assert_eq!(chain.blocks.len(), 2);
}

#[test]
fn test_chain_rejects_height_gap() {
    let (mut chain, proposer) = staked_chain();
    let mut block = next_block(&chain, vec![simple_tx("sender", 100, 1)]);
    block.header.height = 5;
    assert_eq!(chain.add_block(block, &proposer, NOW).unwrap_err(), BlockchainError::InvalidHeight);
    assert_eq!(chain.blocks.len(), 1);
}

#[test]
fn test_chain_rejects_parent_mismatch() {
    let (mut chain, proposer) = staked_chain();
    let mut block = next_block(&chain, vec![simple_tx("sender", 100, 1)]);
    block.header.prev_hash = HashDigest::zero();
    assert_eq!(
        chain.add_block(block, &proposer, NOW).unwrap_err(),
        BlockchainError::InvalidPreviousHash
    );
    assert_eq!(chain.blocks.len(), 1);
}

#[test]
fn test_transaction_processing() {
    let (mut chain, _proposer) = staked_chain();
    chain
        .state_manager
        .insert_wallet(WalletAccount { wallet_id: "alice".to_string(), balance: 500, staked_amount: 0 });
    let wallet = QuantumWallet::new(NOW).unwrap();
    let mut tx = simple_tx("alice", 100, 1);
    wallet.sign_transaction(&mut tx);
    let hash = chain.process_transaction(tx, wallet.public_key(), NOW).unwrap();
    assert_eq!(hash.as_bytes().len(), 32);
    assert_eq!(chain.state_manager.get_balance(&"alice".to_string()).unwrap(), 399);
}

#[test]
fn test_chain_state() {
    let blockchain = QuantumBlockchain::new(chain_config(4), consensus_config(), NOW);
    let state = blockchain.get_chain_state(NOW);
    assert_eq!(state.block_height, 0);
}

#[test]
fn test_shard_assignment_deterministic() {
    let chain = QuantumBlockchain::new(chain_config(4), consensus_config(), NOW);
    let a = chain.calculate_shard_id("alice").unwrap();
    let b = chain.calculate_shard_id("alice").unwrap();
    assert_eq!(a, b);
    let digest = blake3::hash(b"alice");
    let mut first_eight = [0u8; 8];
    first_eight.copy_from_slice(&digest.as_bytes()[0..8]);
    let expected = u64::from_le_bytes(first_eight) % 4;
    assert_eq!(a, expected);
}

#[test]
fn test_end_to_end_scenario() {
    // a 4-shard chain with its genesis block at height 0
    let (mut chain, proposer) = staked_chain();
    assert_eq!(chain.get_chain_state(NOW).block_height, 0);
    chain
        .state_manager
        .insert_wallet(WalletAccount { wallet_id: "alice".to_string(), balance: 500, staked_amount: 0 });
    let root_before = chain.state_manager.state_root.to_hex();

    // submit a transaction from "alice": amount 100, fee 1, gas limit 21000
    let wallet = QuantumWallet::new(NOW).unwrap();
    let mut tx = simple_tx("alice", 100, 1);
    wallet.sign_transaction(&mut tx);
    let expected_shard = chain.calculate_shard_id("alice").unwrap() as usize;
    chain.process_transaction(tx, wallet.public_key(), NOW).unwrap();
    assert_eq!(chain.shards[expected_shard].transactions.len(), 1);

    // mine and append a block carrying a transaction from alice
    chain
        .state_manager
        .insert_wallet(WalletAccount { wallet_id: "bob".to_string(), balance: 300, staked_amount: 0 });
    let block = next_block(&chain, vec![simple_tx("bob", 10, 1)]);
    chain.add_block(block, &proposer, NOW).unwrap();

    assert_eq!(chain.get_chain_state(NOW).block_height, 1);
    assert_ne!(chain.state_manager.state_root.to_hex(), root_before);
}

#[test]
fn test_transaction_rejected_without_shards() {
    let mut chain = QuantumBlockchain::new(chain_config(0), consensus_config(), NOW);
    let wallet = QuantumWallet::new(NOW).unwrap();
    let mut tx = simple_tx("alice", 10, 1);
    wallet.sign_transaction(&mut tx);
    assert!(matches!(
        chain.process_transaction(tx, wallet.public_key(), NOW),
        Err(BlockchainError::ShardNotFound)
    ));
}

#[test]
fn test_add_block_emits_new_block_event() {
    let (mut chain, proposer) = staked_chain();
    chain
        .state_manager
        .insert_wallet(WalletAccount { wallet_id: "sender".to_string(), balance: 500, staked_amount: 0 });
    let block = next_block(&chain, vec![simple_tx("sender", 100, 1)]);
    chain.add_block(block, &proposer, NOW).unwrap();
    assert_eq!(chain.state_manager.block_height, 1);
    let events = chain.state_manager.drain_events();
    assert!(events
        .iter()
        .any(|e| matches!(e, quantumfuse_core::state::StateEvent::NewBlock { height: 1, .. })));
}

#[test]
fn test_balance_update() {
    let mut state_manager = QuantumStateManager::new(NOW);
    let wallet_id = "test_wallet".to_string();
    state_manager.insert_wallet(WalletAccount {
        wallet_id: wallet_id.clone(),
        balance: 0,
        staked_amount: 0,
    });

    assert!(state_manager.update_balance(&wallet_id, 100, NOW).is_ok());
    assert_eq!(state_manager.get_balance(&wallet_id).unwrap(), 100);
}

#[test]
fn test_stake_update() {
    let mut state_manager = QuantumStateManager::new(NOW);
    let wallet_id = "test_wallet".to_string();
    state_manager.insert_wallet(WalletAccount {
        wallet_id: wallet_id.clone(),
        balance: 0,
        staked_amount: 0,
    });

    assert!(state_manager.update_stake(&wallet_id, 50, NOW).is_ok());
    assert_eq!(state_manager.metrics.total_staked, 50);
}

#[test]
fn state_manager_test_state_snapshot() {
    let state_manager = QuantumStateManager::new(NOW);
    let snapshot = state_manager.take_snapshot(NOW);
    assert_eq!(snapshot.block_height, 0);
    assert_eq!(snapshot.timestamp, NOW);
}

#[test]
fn state_manager_test_mempool_transaction() {
    let mut state_manager = QuantumStateManager::new(NOW);
    let tx = MempoolTransaction {
        hash: HashDigest::zero(),
        from: "sender".to_string(),
        to: "receiver".to_string(),
        amount: 10,
        fee: 1,
        timestamp: NOW,
    };

    state_manager.add_mempool_transaction(tx, NOW);
    assert_eq!(state_manager.mempool.len(), 1);
}

#[test]
fn test_state_unknown_wallet_errors() {
    let mut state_manager = QuantumStateManager::new(NOW);
    assert!(state_manager.update_balance(&"ghost".to_string(), 5, NOW).is_err());
    assert!(state_manager
        .apply_transfer(&"ghost".to_string(), &"other".to_string(), 1, 0)
        .is_err());
}

fn shard_config() -> ShardConfig {
    ShardConfig {
        min_shards: 1,
        max_shards: 16,
        target_load_milli: 750,
        reallocation_threshold_milli: 850,
        min_validators_per_shard: 3,
        quantum_security_threshold: 3,
    }
}

#[test]
fn test_shard_creation() {
    let shard = QuantumShard::new(0, &shard_config(), NOW).unwrap();
    assert_eq!(shard.shard_id, 0);
    assert!(shard.validators.is_empty());
}

#[test]
fn test_transaction_addition() {
    let mut shard = QuantumShard::new(0, &shard_config(), NOW).unwrap();
    let transaction = simple_tx("sender", 100, 1);
    assert!(shard.add_transaction(transaction, NOW).is_ok());
    assert_eq!(shard.transactions.len(), 1);
}

#[test]
fn test_cross_shard_link() {
    let mut shard = QuantumShard::new(0, &shard_config(), NOW).unwrap();
    let transaction = simple_tx("sender", 100, 1);
    shard.add_transaction(transaction, NOW).unwrap();

    let reference = &shard.transactions[0];
    let link_tx = QuantumTransaction::new_at(
        "sender".to_string(),
        "receiver".to_string(),
        100,
        1,
        OperationType::Transfer,
        21000,
        NOW,
    );
    assert!(reference.hash.eq_digest(&link_tx.hash));
    let link = shard.create_cross_shard_link(1, &link_tx, NOW);
    assert_eq!(link.source_shard_id, 0);
    assert_eq!(link.target_shard_id, 1);
    assert!(shard.verify_cross_shard_link(&link));
}

#[test]
fn test_shard_allocation() {
    let mut allocator = ShardAllocator::new(shard_config());
    let shard_id = allocator.add_shard(NOW).unwrap();
    assert_eq!(shard_id, 0);
    assert!(allocator.optimize_shard_allocation(NOW).is_ok());
}

#[test]
fn test_consensus_creation() {
    let engine = quantumfuse_core::consensus::QuantumFuseConsensus::new(consensus_config(), NOW);
    assert_eq!(engine.hybrid.current_mechanism, ConsensusType::Hybrid);
    assert_eq!(engine.qpow.difficulty, 1);
}

#[test]
fn test_consensus_switching() {
    let mut engine =
        quantumfuse_core::consensus::QuantumFuseConsensus::new(consensus_config(), NOW);
    engine.observe_metrics(950, 800, 800);
    engine.adjust_parameters(NOW);
    assert_eq!(engine.hybrid.current_mechanism, ConsensusType::QDPOS);
}

#[test]
fn test_hybrid_selection_table() {
    // heavy load wins whatever the other metrics say
    assert_eq!(select_mechanism(950, 0, 0), ConsensusType::QDPOS);
    assert_eq!(select_mechanism(950, 1000, 1000), ConsensusType::QDPOS);
    // low security without overload
    assert_eq!(select_mechanism(500, 600, 1000), ConsensusType::QPOW);
    // low efficiency with load and security in range
    assert_eq!(select_mechanism(500, 800, 400), ConsensusType::GPOW);
    // everything in range
    assert_eq!(select_mechanism(500, 800, 600), ConsensusType::QPOS);
}

#[test]
fn test_rewards_distribution_proportional() {
    let mut qpos = QPoSConsensus::new(1000, NOW);
    let (pk_a, _) = dilithium_keypair();
    let (pk_b, _) = dilithium_keypair();
    assert!(qpos.add_validator(Validator {
        address: "a".to_string(),
        public_key: pk_a,
        stake: 100,
        reputation: 0,
        rewards_earned: 0,
        renewable_certified: false,
    }));
    assert!(qpos.add_validator(Validator {
        address: "b".to_string(),
        public_key: pk_b,
        stake: 300,
        reputation: 0,
        rewards_earned: 0,
        renewable_certified: false,
    }));
    qpos.distribute_rewards(100, NOW);
    assert_eq!(qpos.validators[0].rewards_earned, 25);
    assert_eq!(qpos.validators[1].rewards_earned, 75);
    assert_eq!(qpos.validators[0].stake, 100);
    assert_eq!(qpos.total_stake, 400);
}

#[test]
fn test_random_generation() {
    let config = QRNGConfig {
        buffer_size: 1024,
        refresh_interval: 300,
        min_entropy_quality_milli: 800,
        fallback_threshold_milli: 900,
        quantum_security_level: 3,
    };
    let mut qrng = QuantumRNG::new(config, NOW);
    let random = qrng.generate_random_bytes(32, NOW);
    assert_eq!(random.len(), 32);
}

#[test]
fn test_entropy_quality() {
    let constant = vec![0u8; 1024];
    assert_eq!(QuantumRNG::estimate_entropy_quality(&constant), 0);
    let alternating: Vec<u8> = (0..1024).map(|i| (i % 2) as u8).collect();
    assert_eq!(QuantumRNG::estimate_entropy_quality(&alternating), 1000);
}

#[test]
fn test_entropy_mixing() {
    let config = QRNGConfig {
        buffer_size: 64,
        refresh_interval: 300,
        min_entropy_quality_milli: 800,
        fallback_threshold_milli: 900,
        quantum_security_level: 3,
    };
    let mut qrng = QuantumRNG::new(config, NOW);
    let additional = vec![1u8; 32];
    assert!(qrng.mix_entropy(&additional).is_ok());
    assert_eq!(qrng.buffer.buffer.len(), 32);
}

#[test]
fn test_bridge_transfer_ladder() {
    let mut bridge = QuantumBridgeWrapper::new();
    let asset = BridgeAsset {
        asset_id: "qfc".to_string(),
        name: "QuantumFuse Coin".to_string(),
        source_contract: "0xsource".to_string(),
        target_contract: "0xtarget".to_string(),
        decimals: 9,
    };
    let id = bridge.initiate_transfer("chainA".to_string(), "chainB".to_string(), asset, 10, NOW);
    assert_eq!(id.len(), 36);
    assert_eq!(bridge.advance_transfer(0).unwrap(), TransferStatus::Locked);
    assert_eq!(bridge.advance_transfer(0).unwrap(), TransferStatus::InTransit);
    assert_eq!(bridge.advance_transfer(0).unwrap(), TransferStatus::Completed);
    // a settled transfer stays settled
    assert_eq!(bridge.advance_transfer(0).unwrap(), TransferStatus::Completed);
}

#[test]
fn test_pqc_wrapper_sign() {
    let (_pk, sk) = dilithium_keypair();
    let mut signer = PQCWrapper::new(PQCAlgorithm::Dilithium2);
    assert!(signer.sign_message(&sk, &b"payload".to_vec()).is_ok());
    let mut kem = PQCWrapper::new(PQCAlgorithm::Kyber512);
    assert_eq!(
        kem.sign_message(&sk, &b"payload".to_vec()).unwrap_err(),
        BridgeError::UnsupportedAlgorithm
    );
}

#[test]
fn test_judicial_case_resolution() {
    let mut case = JudicialCase::new(
        "case-1".to_string(),
        "claimant".to_string(),
        "respondent".to_string(),
        "a contract dispute".to_string(),
    );
    case.submit_evidence("exhibit-a".to_string());
    assert_eq!(case.status, JudicialStatus::InReview);
    assert!(case.resolve("settled".to_string()));
    assert_eq!(case.status, JudicialStatus::VerdictGiven);
    assert!(!case.resolve("second verdict".to_string()));
}

#[test]
fn test_dynamic_voting_reputation_scaling() {
    let mut proposal = Proposal::new("prop-1".to_string());
    proposal.vote_with_reputation(95, VoteType::For);
    proposal.vote_with_reputation(75, VoteType::For);
    proposal.vote_with_reputation(10, VoteType::Against);
    assert_eq!(proposal.votes_for, 5);
    assert_eq!(proposal.votes_against, 1);
}

#[test]
fn test_play_music_backend_choice() {
    assert_eq!(play_music(true, true), Some(AudioBackend::Alsa));
    assert_eq!(play_music(false, true), Some(AudioBackend::Rodio));
    assert_eq!(play_music(false, false), Some(AudioBackend::Rodio));
    assert_eq!(play_music(true, false), None);
}

#[test]
fn test_fiat_conversion() {
    // 100 fiat units at a rate of 2.5 tokens per unit
    assert_eq!(fiat_to_tokens(100, 2500), 250);
    assert_eq!(fiat_to_tokens(3, 500), 1);
}

#[test]
fn test_medical_record_authorization() {
    let mut book = MedicalRecordBook::new();
    let record = MedicalRecord {
        patient_id: "patient-1".to_string(),
        encrypted_data: vec![1, 2, 3],
        digital_signature: vec![4, 5, 6],
        timestamp: NOW,
    };
    assert!(!book.add_record(
        &"unknown".to_string(),
        MedicalRecord {
            patient_id: "patient-1".to_string(),
            encrypted_data: vec![],
            digital_signature: vec![],
            timestamp: NOW,
        }
    ));
    book.authorize_provider("doctor".to_string());
    assert!(book.add_record(&"doctor".to_string(), record));
    assert_eq!(book.records.len(), 1);
}
