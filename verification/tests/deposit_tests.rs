use block_replay::block::{Deposit, DepositData, SignedBlock};
use block_replay::bytes::encode_u64_le;
use block_replay::config::ChainConfig;
use block_replay::deposit::{get_existing_validator_index, is_valid_deposit_signature,
    verify_deposit_merkle_proof};
use block_replay::errors::DepositInvalid;
use block_replay::merkle::{merkle_root_from_branch, verify_merkle_proof};
use block_replay::replay::BlockReplayer;
use block_replay::roots::{deposit_data_tree_root, deposit_signing_root};
use block_replay::state::ChainState;

const DST: &[u8] = b"BLS_SIG_BLS12381G2_XMD:SHA-256_SSWU_RO_POP_";

fn test_cfg() -> ChainConfig {
    ChainConfig {
        deposit_contract_tree_depth: 2,
        slots_per_epoch: 8,
        fork_version: vec![0u8; 4],
    }
}

fn keypair(seed: u8) -> (blst::min_pk::SecretKey, Vec<u8>) {
    let ikm = [seed; 32];
    let sk = blst::min_pk::SecretKey::key_gen(&ikm, &[]).expect("key generation");
    let pk = sk.sk_to_pk().compress().to_vec();
    (sk, pk)
}

fn base_state(slot: u64, validator_pk: Vec<u8>) -> ChainState {
    ChainState {
        slot,
        latest_block_slot: 0,
        latest_block_root: vec![0u8; 32],
        registry_root: vec![0u8; 32],
        validators: vec![validator_pk],
        balances: vec![32_000_000_000],
        eth1_deposit_root: vec![0u8; 32],
        eth1_deposit_index: 0,
        state_roots: vec![],
    }
}

/// A deposit whose signature genuinely covers its data.
fn signed_deposit_data(seed: u8, amount: u64) -> DepositData {
    let (sk, pk) = keypair(seed);
    let mut data = DepositData {
        pubkey: pk,
        withdrawal_credentials: vec![seed; 32],
        amount,
        signature: vec![0u8; 96],
    };
    let msg = deposit_signing_root(&data, &test_cfg());
    data.signature = sk.sign(&msg, DST, &[]).compress().to_vec();
    data
}

/// Commit `data` as the only deposit: the inclusion branch (all-zero
/// siblings plus the count level) and the matching root.
fn commit_single_deposit(data: &DepositData) -> (Vec<Vec<u8>>, Vec<u8>) {
    let depth = test_cfg().deposit_contract_tree_depth + 1;
    let mut branch: Vec<Vec<u8>> = Vec::new();
    for level in 0..depth {
        if level + 1 == depth {
            // The deposit-count mixing level: one deposit.
            let mut count = encode_u64_le(1);
            count.resize(32, 0);
            branch.push(count);
        } else {
            branch.push(vec![0u8; 32]);
        }
    }
    let leaf = deposit_data_tree_root(data);
    let root = merkle_root_from_branch(&leaf, &branch, 0);
    (branch, root)
}

#[test]
fn valid_deposit_signature_accepted() {
    let data = signed_deposit_data(11, 32_000_000_000);
    assert_eq!(is_valid_deposit_signature(&data, &test_cfg()), Ok(()));
}

#[test]
fn tampered_signature_rejected() {
    let (sk, pk) = keypair(11);
    let mut data = DepositData {
        pubkey: pk,
        withdrawal_credentials: vec![11; 32],
        amount: 32_000_000_000,
        signature: vec![0u8; 96],
    };
    // A well-formed signature over the wrong message must fail
    // verification, not decoding.
    data.signature = sk.sign(b"some other message", DST, &[]).compress().to_vec();
    assert_eq!(
        is_valid_deposit_signature(&data, &test_cfg()),
        Err(DepositInvalid::BadSignature)
    );
}

#[test]
fn malformed_bls_bytes_rejected() {
    let mut data = signed_deposit_data(11, 32_000_000_000);
    data.signature = vec![1u8; 96];
    assert_eq!(
        is_valid_deposit_signature(&data, &test_cfg()),
        Err(DepositInvalid::BadBlsBytes)
    );

    let mut data = signed_deposit_data(11, 32_000_000_000);
    data.pubkey = vec![2u8; 48];
    assert_eq!(
        is_valid_deposit_signature(&data, &test_cfg()),
        Err(DepositInvalid::BadBlsBytes)
    );
}

#[test]
fn merkle_inclusion_accepts_committed_deposit() {
    let data = signed_deposit_data(5, 1_000_000_000);
    let (branch, root) = commit_single_deposit(&data);
    let (_, pk) = keypair(1);
    let mut state = base_state(10, pk);
    state.eth1_deposit_root = root;
    let deposit = Deposit { proof: branch, data };
    assert_eq!(verify_deposit_merkle_proof(&state, &deposit, 0, &test_cfg()), Ok(()));
}

#[test]
fn tampered_leaf_fails_merkle() {
    let data = signed_deposit_data(5, 1_000_000_000);
    let (branch, root) = commit_single_deposit(&data);
    let (_, pk) = keypair(1);
    let mut state = base_state(10, pk);
    state.eth1_deposit_root = root;
    // One bit flipped in the deposit's data.
    let mut tampered = data.clone();
    tampered.amount ^= 1;
    let deposit = Deposit { proof: branch, data: tampered };
    assert_eq!(
        verify_deposit_merkle_proof(&state, &deposit, 0, &test_cfg()),
        Err(DepositInvalid::BadMerkleProof)
    );
}

#[test]
fn wrong_position_fails_merkle() {
    let data = signed_deposit_data(5, 1_000_000_000);
    let (branch, root) = commit_single_deposit(&data);
    let (_, pk) = keypair(1);
    let mut state = base_state(10, pk);
    state.eth1_deposit_root = root;
    let deposit = Deposit { proof: branch, data };
    assert_eq!(
        verify_deposit_merkle_proof(&state, &deposit, 1, &test_cfg()),
        Err(DepositInvalid::BadMerkleProof)
    );
}

#[test]
fn proof_length_must_match_depth() {
    let data = signed_deposit_data(5, 1_000_000_000);
    let (branch, root) = commit_single_deposit(&data);
    let leaf = deposit_data_tree_root(&data);
    assert!(verify_merkle_proof(&leaf, &branch, 3, 0, &root));
    let short = vec![vec![0u8; 32]; 2];
    assert!(!verify_merkle_proof(&leaf, &short, 3, 0, &root));
}

#[test]
fn existing_validator_index_lookup() {
    let (_, pk_a) = keypair(21);
    let (_, pk_b) = keypair(22);
    let (_, pk_c) = keypair(23);
    let mut state = base_state(0, pk_a.clone());
    state.validators.push(pk_b.clone());
    state.balances.push(1);
    assert_eq!(get_existing_validator_index(&state, &pk_a), Some(0));
    assert_eq!(get_existing_validator_index(&state, &pk_b), Some(1));
    assert_eq!(get_existing_validator_index(&state, &pk_c), None);
}

#[test]
fn block_deposit_registers_new_validator() {
    let (_, proposer_pk) = keypair(1);
    let data = signed_deposit_data(31, 7_000_000_000);
    let (branch, root) = commit_single_deposit(&data);
    let mut state = base_state(10, proposer_pk);
    state.eth1_deposit_root = root;
    let new_pk = data.pubkey.clone();
    let block = SignedBlock {
        slot: 11,
        proposer_index: 0,
        parent_root: vec![0u8; 32],
        state_root: vec![0u8; 32],
        deposits: vec![Deposit { proof: branch, data }],
        signature: vec![0u8; 96],
    };
    let result = BlockReplayer::new(state, test_cfg())
        .no_signature_verification()
        .apply_blocks(vec![block], None)
        .expect("block with valid deposit must apply")
        .into_state();
    assert_eq!(result.validators.len(), 2);
    assert_eq!(result.validators[1], new_pk);
    assert_eq!(result.balances[1], 7_000_000_000);
    assert_eq!(result.eth1_deposit_index, 1);
}

#[test]
fn invalid_deposit_signature_is_counted_not_applied() {
    let (_, proposer_pk) = keypair(1);
    let mut data = signed_deposit_data(31, 7_000_000_000);
    data.signature = vec![1u8; 96];
    let (branch, root) = commit_single_deposit(&data);
    let mut state = base_state(10, proposer_pk);
    state.eth1_deposit_root = root;
    let block = SignedBlock {
        slot: 11,
        proposer_index: 0,
        parent_root: vec![0u8; 32],
        state_root: vec![0u8; 32],
        deposits: vec![Deposit { proof: branch, data }],
        signature: vec![0u8; 96],
    };
    let result = BlockReplayer::new(state, test_cfg())
        .no_signature_verification()
        .apply_blocks(vec![block], None)
        .expect("a bad deposit signature does not fail the block")
        .into_state();
    // The deposit is counted but creates no validator.
    assert_eq!(result.validators.len(), 1);
    assert_eq!(result.eth1_deposit_index, 1);
}

#[test]
fn block_deposit_tops_up_existing_validator() {
    let (_, proposer_pk) = keypair(1);
    // The deposit's key is the proposer's own key: an existing validator.
    let (sk, pk) = keypair(1);
    let mut data = DepositData {
        pubkey: pk,
        withdrawal_credentials: vec![9; 32],
        amount: 5_000_000_000,
        signature: vec![0u8; 96],
    };
    let msg = deposit_signing_root(&data, &test_cfg());
    data.signature = sk.sign(&msg, DST, &[]).compress().to_vec();
    let (branch, root) = commit_single_deposit(&data);
    let mut state = base_state(10, proposer_pk);
    state.eth1_deposit_root = root;
    let block = SignedBlock {
        slot: 11,
        proposer_index: 0,
        parent_root: vec![0u8; 32],
        state_root: vec![0u8; 32],
        deposits: vec![Deposit { proof: branch, data }],
        signature: vec![0u8; 96],
    };
    let result = BlockReplayer::new(state, test_cfg())
        .no_signature_verification()
        .apply_blocks(vec![block], None)
        .expect("top-up deposit must apply")
        .into_state();
    assert_eq!(result.validators.len(), 1);
    assert_eq!(result.balances[0], 37_000_000_000);
    assert_eq!(result.eth1_deposit_index, 1);
}

#[test]
fn encode_u64_le_layout() {
    assert_eq!(encode_u64_le(1), vec![1, 0, 0, 0, 0, 0, 0, 0]);
    assert_eq!(
        encode_u64_le(0x0102030405060708),
        vec![8, 7, 6, 5, 4, 3, 2, 1]
    );
}
