use block_replay::block::{ConsensusContext, SignedBlock};
use block_replay::config::{ChainConfig, EpochSummary};
use block_replay::errors::{BlockProcessingError, BlockReplayError, SlotProcessingError,
    StateAccessError};
use block_replay::hooks::{PostBlockRecorder, PostSlotRecorder, PreBlockRecorder, PreSlotRecorder};
use block_replay::replay::BlockReplayer;
use block_replay::resolver::SlotRoot;
use block_replay::roots::block_root;
use block_replay::state::ChainState;
use block_replay::transition::per_slot_processing;

const DST: &[u8] = b"BLS_SIG_BLS12381G2_XMD:SHA-256_SSWU_RO_POP_";

fn test_cfg() -> ChainConfig {
    ChainConfig {
        deposit_contract_tree_depth: 4,
        slots_per_epoch: 8,
        fork_version: vec![0u8; 4],
    }
}

fn keypair(seed: u8) -> (blst::min_pk::SecretKey, Vec<u8>) {
    let ikm = [seed; 32];
    let sk = blst::min_pk::SecretKey::key_gen(&ikm, &[]).expect("key generation");
    let pk = sk.sk_to_pk().compress().to_vec();
    (sk, pk)
}

fn base_state(slot: u64, validator_pk: Vec<u8>) -> ChainState {
    ChainState {
        slot,
        latest_block_slot: 0,
        latest_block_root: vec![0u8; 32],
        registry_root: vec![0u8; 32],
        validators: vec![validator_pk],
        balances: vec![32_000_000_000],
        eth1_deposit_root: vec![0u8; 32],
        eth1_deposit_index: 0,
        state_roots: vec![],
    }
}

fn unsigned_block(slot: u64, parent_root: Vec<u8>) -> SignedBlock {
    SignedBlock {
        slot,
        proposer_index: 0,
        parent_root,
        state_root: vec![0u8; 32],
        deposits: vec![],
        signature: vec![0u8; 96],
    }
}

fn sign_block(block: &mut SignedBlock, sk: &blst::min_pk::SecretKey) {
    let msg = block_root(block);
    block.signature = sk.sign(&msg, DST, &[]).compress().to_vec();
}

#[test]
fn empty_blocks_reach_target_all_skipped() {
    let (_, pk) = keypair(1);
    let state = base_state(5, pk);
    let rep = BlockReplayer::new(state, test_cfg())
        .post_slot_hook(PostSlotRecorder::new())
        .apply_blocks(vec![], Some(9))
        .expect("empty replay to target must succeed");
    assert_eq!(rep.post_slot.slots, vec![6, 7, 8, 9]);
    assert_eq!(rep.post_slot.skipped, vec![true, true, true, true]);
    assert_eq!(rep.into_state().slot, 9);
}

#[test]
fn miss_flag_set_without_source() {
    let (_, pk) = keypair(1);
    let state = base_state(5, pk);
    let rep = BlockReplayer::new(state, test_cfg())
        .apply_blocks(vec![], Some(7))
        .expect("replay must succeed");
    assert!(rep.state_root_miss());
}

#[test]
fn miss_flag_clear_with_source() {
    let (_, pk) = keypair(1);
    let state = base_state(5, pk);
    let entries: Vec<SlotRoot> = (5..7)
        .map(|s| SlotRoot { root: vec![s as u8; 32], slot: s })
        .collect();
    let rep = BlockReplayer::new(state, test_cfg())
        .state_root_iter(entries)
        .apply_blocks(vec![], Some(7))
        .expect("replay must succeed");
    assert!(!rep.state_root_miss());
}

#[test]
fn prev_block_root_avoids_miss() {
    let (_, pk) = keypair(1);
    let state = base_state(10, pk);
    // The first block targets the state's slot: it is skipped entirely and
    // serves only to supply the root for advancing past slot 10.
    let mut root_block = unsigned_block(10, vec![0u8; 32]);
    root_block.state_root = vec![0xab; 32];
    let rep = BlockReplayer::new(state, test_cfg())
        .no_signature_verification()
        .pre_slot_hook(PreSlotRecorder::new())
        .apply_blocks(vec![root_block], Some(11))
        .expect("replay must succeed");
    assert!(!rep.state_root_miss());
    assert_eq!(rep.pre_slot.roots, vec![vec![0xab; 32]]);
}

#[test]
fn first_block_skipped_entirely() {
    let (_, pk) = keypair(1);
    let state = base_state(10, pk);
    let b0 = unsigned_block(10, vec![7u8; 32]);
    let b1 = unsigned_block(11, vec![0u8; 32]);
    let rep = BlockReplayer::new(state, test_cfg())
        .no_signature_verification()
        .pre_block_hook(PreBlockRecorder::new())
        .post_block_hook(PostBlockRecorder::new())
        .apply_blocks(vec![b0, b1], None)
        .expect("replay must succeed");
    // Neither block hook ever fires for the skipped index-0 block.
    assert_eq!(rep.pre_block.block_slots, vec![11]);
    assert_eq!(rep.post_block.block_slots, vec![11]);
    let state = rep.into_state();
    assert_eq!(state.slot, 11);
    assert_eq!(state.latest_block_slot, 11);
}

#[test]
fn duplicate_slot_block_fails() {
    let (_, pk) = keypair(1);
    let state = base_state(10, pk.clone());
    let b0 = unsigned_block(11, vec![0u8; 32]);
    let b1 = unsigned_block(13, block_root(&b0));
    let b2 = unsigned_block(13, block_root(&b1));

    // The valid prefix advances through skipped slot 12 and applies the
    // slot-11 and first slot-13 block, leaving the state at slot 13.
    let rep = BlockReplayer::new(state.clone(), test_cfg())
        .no_signature_verification()
        .post_slot_hook(PostSlotRecorder::new())
        .apply_blocks(vec![b0.clone(), b1.clone()], None)
        .expect("valid prefix must apply");
    assert_eq!(rep.post_slot.slots, vec![11, 12, 13]);
    assert_eq!(rep.post_slot.skipped, vec![false, true, false]);
    let reached = rep.into_state();
    assert_eq!(reached.slot, 13);
    assert_eq!(reached.latest_block_slot, 13);

    // With the duplicate in the list, replay fails on it with a
    // block-processing failure and advances no further.
    let err = BlockReplayer::new(state, test_cfg())
        .no_signature_verification()
        .apply_blocks(vec![b0, b1, b2], None)
        .err()
        .expect("duplicate slot must fail");
    assert_eq!(err, BlockReplayError::BlockProcessing(BlockProcessingError::StaleBlock));
}

#[test]
fn policy_does_not_change_outcome() {
    let (sk, pk) = keypair(3);
    let state = base_state(10, pk);
    let mut b0 = unsigned_block(11, vec![0u8; 32]);
    sign_block(&mut b0, &sk);
    let mut b1 = unsigned_block(12, block_root(&b0));
    sign_block(&mut b1, &sk);

    let strict = BlockReplayer::new(state.clone(), test_cfg())
        .apply_blocks(vec![b0.clone(), b1.clone()], None)
        .expect("replay with full verification must succeed")
        .into_state();
    let lax = BlockReplayer::new(state, test_cfg())
        .no_signature_verification()
        .minimal_block_root_verification()
        .apply_blocks(vec![b0, b1], None)
        .expect("replay without verification must succeed")
        .into_state();
    assert_eq!(strict, lax);
}

#[test]
fn root_source_is_transparent() {
    let (_, pk) = keypair(4);
    let state = base_state(10, pk);
    let b0 = unsigned_block(11, vec![0u8; 32]);
    let b1 = unsigned_block(12, block_root(&b0));
    let blocks = vec![b0, b1];

    let bare = BlockReplayer::new(state.clone(), test_cfg())
        .no_signature_verification()
        .pre_slot_hook(PreSlotRecorder::new())
        .apply_blocks(blocks.clone(), Some(14))
        .expect("replay without source must succeed");
    assert!(bare.state_root_miss());
    let entries: Vec<SlotRoot> = bare
        .pre_slot
        .roots
        .iter()
        .zip(bare.pre_slot.slots.iter())
        .map(|(root, slot)| SlotRoot { root: root.clone(), slot: *slot })
        .collect();
    let bare_state = bare.into_state();

    let sourced = BlockReplayer::new(state, test_cfg())
        .no_signature_verification()
        .state_root_iter(entries)
        .apply_blocks(blocks, Some(14))
        .expect("replay with source must succeed");
    assert!(!sourced.state_root_miss());
    assert_eq!(sourced.into_state(), bare_state);
}

#[test]
fn builder_defaults() {
    let (_, pk) = keypair(1);
    let state = base_state(3, pk);
    let rep = BlockReplayer::new(state.clone(), test_cfg()).no_state_root_iter();
    assert!(!rep.state_root_miss());
    assert_eq!(rep.into_state(), state);
}

#[test]
fn error_conversions_preserve_cause() {
    assert_eq!(
        BlockReplayError::from(SlotProcessingError::SlotOverflow),
        BlockReplayError::SlotProcessing(SlotProcessingError::SlotOverflow)
    );
    assert_eq!(
        BlockReplayError::from(BlockProcessingError::SlotMismatch),
        BlockReplayError::BlockProcessing(BlockProcessingError::SlotMismatch)
    );
    assert_eq!(
        BlockReplayError::from(StateAccessError::RegistryMismatch),
        BlockReplayError::BeaconState(StateAccessError::RegistryMismatch)
    );
}

#[test]
fn slot_processing_reports_epoch_summary() {
    let (_, pk) = keypair(1);
    let mut state = base_state(7, pk);
    let root = vec![9u8; 32];
    let summary = per_slot_processing(&mut state, &root, &test_cfg())
        .expect("slot processing must succeed");
    assert_eq!(summary, Some(EpochSummary { epoch: 1 }));
    assert_eq!(state.slot, 8);
    assert_eq!(state.state_roots, vec![vec![9u8; 32]]);

    let summary = per_slot_processing(&mut state, &root, &test_cfg())
        .expect("slot processing must succeed");
    assert_eq!(summary, None);
    assert_eq!(state.slot, 9);
}

#[test]
fn slot_counter_cannot_overflow() {
    let (_, pk) = keypair(1);
    let mut state = base_state(u64::MAX, pk);
    let root = vec![0u8; 32];
    let err = per_slot_processing(&mut state, &root, &test_cfg());
    assert_eq!(err, Err(SlotProcessingError::SlotOverflow));
    assert_eq!(state.slot, u64::MAX);
}

#[test]
fn consensus_context_builders() {
    let ctxt = ConsensusContext::new(42);
    assert_eq!(ctxt.slot, 42);
    assert_eq!(ctxt.proposer_index, None);
    let ctxt = ctxt.set_proposer_index(7);
    assert_eq!(ctxt.proposer_index, Some(7));
}
