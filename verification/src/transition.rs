use vstd::prelude::*;

use crate::bls::bls_signature_check;
use crate::bls::{bls_pubkey_decodes, bls_signature_decodes, bls_verifies, SignatureCheck};
use crate::block::{BlockModel, ConsensusContext, DepositModel, SignedBlock};
use crate::bytes::{bytes_eq, chunk32, take_chunk32};
use crate::config::{ChainConfig, ChainConfigModel, EpochSummary, BlockSignatureStrategy,
    VerifyBlockRoot};
use crate::deposit::{deposit_merkle_ok, deposit_signature_valid, is_valid_deposit_signature,
    get_existing_validator_index, spec_validator_index, verify_deposit_merkle_proof};
use crate::errors::{BlockProcessingError, DepositInvalid, SlotProcessingError, StateAccessError};
use crate::hashing::{hash_pair, hash_pair_of};
use crate::roots::{block_root, block_root_of, deposit_data_root_of, deposit_data_tree_root,
    u64_chunk, u64_to_chunk};
use crate::state::{ChainState, StateModel};

verus! {

/// The canonical root of a state: the commitment recomputed from the
/// state itself when no cheaper source is available.
pub open spec fn spec_state_root(s: StateModel) -> Seq<u8> {
    hash_pair_of(
        hash_pair_of(u64_chunk(s.slot), chunk32(s.latest_block_root, 0)),
        hash_pair_of(
            chunk32(s.registry_root, 0),
            hash_pair_of(u64_chunk(s.eth1_deposit_index), chunk32(s.eth1_deposit_root, 0)),
        ),
    )
}

/// Recompute the state's canonical root from the state alone: the
/// expensive fallback of state-root resolution.
pub fn compute_state_root(state: &ChainState) -> (r: Vec<u8>)
    ensures
        r@ == spec_state_root(state@),
{
    hash_pair(
        &hash_pair(&u64_to_chunk(state.slot), &take_chunk32(&state.latest_block_root, 0)),
        &hash_pair(
            &take_chunk32(&state.registry_root, 0),
            &hash_pair(
                &u64_to_chunk(state.eth1_deposit_index),
                &take_chunk32(&state.eth1_deposit_root, 0),
            ),
        ),
    )
}

/// The single-slot transition: record the resolved root, advance the slot
/// by exactly one. Fails only when the slot counter cannot advance.
pub open spec fn spec_slot_tx(s: StateModel, root: Seq<u8>) -> Result<
    StateModel,
    SlotProcessingError,
> {
    if s.slot == u64::MAX {
        Err(SlotProcessingError::SlotOverflow)
    } else {
        Ok(
            StateModel {
                slot: (s.slot + 1) as u64,
                state_roots: s.state_roots.push(root),
                ..s
            },
        )
    }
}

/// The epoch summary owed after reaching `new_slot`: present exactly when
/// the slot opens a new epoch.
pub open spec fn spec_epoch_summary(new_slot: u64, cfg: ChainConfigModel) -> Option<EpochSummary>
    recommends
        cfg.well_formed(),
{
    if new_slot as int % cfg.slots_per_epoch as int == 0 {
        Some(EpochSummary { epoch: (new_slot as int / cfg.slots_per_epoch as int) as u64 })
    } else {
        None
    }
}

/// Advance the state by exactly one slot, recording `state_root` for the
/// slot being left, and report an epoch summary at epoch boundaries.
pub fn per_slot_processing(
    state: &mut ChainState,
    state_root: &Vec<u8>,
    cfg: &ChainConfig,
) -> (r: Result<Option<EpochSummary>, SlotProcessingError>)
    requires
        cfg@.well_formed(),
    ensures
        spec_slot_tx(old(state)@, state_root@) matches Ok(m) ==> {
            &&& final(state)@ == m
            &&& r == Ok::<Option<EpochSummary>, SlotProcessingError>(
                spec_epoch_summary(m.slot, cfg@),
            )
        },
        spec_slot_tx(old(state)@, state_root@) matches Err(e) ==> {
            &&& r == Err::<Option<EpochSummary>, SlotProcessingError>(e)
            &&& final(state)@ == old(state)@
        },
{
    if state.slot == u64::MAX {
        return Err(SlotProcessingError::SlotOverflow);
    }
    state.state_roots.push(state_root.clone());
    state.slot = state.slot + 1;
    proof {
        let m = spec_slot_tx(old(state)@, state_root@)->Ok_0;
        assert(state.state_roots.deep_view() =~~= old(state).state_roots.deep_view().push(
            state_root@,
        ));
        assert(state@ =~~= m);
    }
    let summary = if state.slot % cfg.slots_per_epoch == 0 {
        Some(EpochSummary { epoch: state.slot / cfg.slots_per_epoch })
    } else {
        None
    };
    Ok(summary)
}

/// The proposer's key signed the block's root.
pub open spec fn block_signature_valid(s: StateModel, b: BlockModel, proposer: u64) -> bool {
    &&& bls_pubkey_decodes(s.validators[proposer as int])
    &&& bls_signature_decodes(b.signature)
    &&& bls_verifies(s.validators[proposer as int], b.signature, block_root_of(b))
}

/// Apply one deposit at the state's current deposit index: its inclusion
/// proof must check out; a deposit whose own signature is invalid is then
/// counted but not applied, while a valid one tops up the balance of an
/// existing validator or registers a new one.
pub open spec fn spec_apply_deposit(s: StateModel, d: DepositModel, cfg: ChainConfigModel) -> Result<
    StateModel,
    BlockProcessingError,
> {
    if !deposit_merkle_ok(s, d, s.eth1_deposit_index, cfg) {
        Err(BlockProcessingError::InvalidDeposit(DepositInvalid::BadMerkleProof))
    } else if s.eth1_deposit_index == u64::MAX {
        Err(BlockProcessingError::StateAccess(StateAccessError::DepositCountOverflow))
    } else {
        let s1 = StateModel { eth1_deposit_index: (s.eth1_deposit_index + 1) as u64, ..s };
        if !deposit_signature_valid(d.data, cfg) {
            Ok(s1)
        } else {
            let root1 = hash_pair_of(s.registry_root, deposit_data_root_of(d.data));
            match spec_validator_index(s.validators, d.data.pubkey) {
                Some(i) => {
                    if i >= s.balances.len() {
                        Err(BlockProcessingError::StateAccess(StateAccessError::RegistryMismatch))
                    } else if s.balances[i] + d.data.amount > u64::MAX {
                        Err(BlockProcessingError::StateAccess(StateAccessError::BalanceOverflow))
                    } else {
                        Ok(
                            StateModel {
                                balances: s1.balances.update(
                                    i,
                                    (s.balances[i] + d.data.amount) as u64,
                                ),
                                registry_root: root1,
                                ..s1
                            },
                        )
                    }
                },
                None => Ok(
                    StateModel {
                        validators: s1.validators.push(d.data.pubkey),
                        balances: s1.balances.push(d.data.amount),
                        registry_root: root1,
                        ..s1
                    },
                ),
            }
        }
    }
}

/// Apply a block's deposits in order, stopping at the first failure.
pub open spec fn spec_apply_deposits(
    s: StateModel,
    deps: Seq<DepositModel>,
    cfg: ChainConfigModel,
) -> Result<StateModel, BlockProcessingError>
    decreases deps.len(),
{
    if deps.len() == 0 {
        Ok(s)
    } else {
        match spec_apply_deposit(s, deps[0], cfg) {
            Err(e) => Err(e),
            Ok(s1) => spec_apply_deposits(s1, deps.drop_first(), cfg),
        }
    }
}

/// The per-block transition. The checks come first — slot match, block
/// freshness, optionally the parent link and the proposer signature —
/// then the deposits are applied and the block is recorded as the latest.
/// Which checks run depends on the strategy and the root decision; what
/// the transition does to the state does not.
pub open spec fn spec_block_tx(
    s: StateModel,
    b: BlockModel,
    strategy: BlockSignatureStrategy,
    decision: VerifyBlockRoot,
    ctxt: ConsensusContext,
    cfg: ChainConfigModel,
) -> Result<StateModel, BlockProcessingError> {
    if b.slot != s.slot || ctxt.slot != b.slot {
        Err(BlockProcessingError::SlotMismatch)
    } else if b.slot <= s.latest_block_slot {
        Err(BlockProcessingError::StaleBlock)
    } else if decision is True && b.parent_root != s.latest_block_root {
        Err(BlockProcessingError::ParentRootMismatch)
    } else {
        let proposer = match ctxt.proposer_index {
            Some(p) => p,
            None => b.proposer_index,
        };
        if proposer >= s.validators.len() {
            Err(BlockProcessingError::UnknownProposer)
        } else if strategy is VerifyBulk && !block_signature_valid(s, b, proposer) {
            Err(BlockProcessingError::ProposerSignatureInvalid)
        } else {
            match spec_apply_deposits(s, b.deposits, cfg) {
                Err(e) => Err(e),
                Ok(s1) => Ok(
                    StateModel {
                        latest_block_slot: b.slot,
                        latest_block_root: block_root_of(b),
                        ..s1
                    },
                ),
            }
        }
    }
}

/// Validate `block` against the state and apply it.
///
/// On failure the error is returned at once and the state is left at
/// whatever point it reached: no partial rollback is performed.
pub fn per_block_processing(
    state: &mut ChainState,
    block: &SignedBlock,
    strategy: BlockSignatureStrategy,
    decision: VerifyBlockRoot,
    ctxt: &ConsensusContext,
    cfg: &ChainConfig,
) -> (r: Result<(), BlockProcessingError>)
    requires
        old(state)@.well_formed(),
        cfg@.well_formed(),
    ensures
        spec_block_tx(old(state)@, block@, strategy, decision, *ctxt, cfg@) matches Ok(m) ==> {
            &&& r is Ok
            &&& final(state)@ == m
        },
        spec_block_tx(old(state)@, block@, strategy, decision, *ctxt, cfg@) matches Err(e) ==> r
            == Err::<(), BlockProcessingError>(e),
        final(state)@.well_formed(),
        final(state)@.slot == old(state)@.slot,
{
    if block.slot != state.slot || ctxt.slot != block.slot {
        return Err(BlockProcessingError::SlotMismatch);
    }
    if block.slot <= state.latest_block_slot {
        return Err(BlockProcessingError::StaleBlock);
    }
    if matches!(decision, VerifyBlockRoot::True) {
        if !bytes_eq(&block.parent_root, &state.latest_block_root) {
            return Err(BlockProcessingError::ParentRootMismatch);
        }
    }
    let proposer = match ctxt.proposer_index {
        Some(p) => p,
        None => block.proposer_index,
    };
    if proposer >= state.validators.len() as u64 {
        proof {
            assert(state@.validators.len() == state.validators@.len());
        }
        return Err(BlockProcessingError::UnknownProposer);
    }
    if matches!(strategy, BlockSignatureStrategy::VerifyBulk) {
        let root = block_root(block);
        let pk = &state.validators[proposer as usize];
        proof {
            assert(state@.validators[proposer as int] == state.validators@[proposer as int]@);
        }
        match bls_signature_check(pk, &block.signature, &root) {
            SignatureCheck::Valid => {},
            _ => {
                return Err(BlockProcessingError::ProposerSignatureInvalid);
            },
        }
    }
    let mut i: usize = 0;
    proof {
        assert(block@.deposits.skip(0) =~= block@.deposits);
    }
    while i < block.deposits.len()
        invariant
            i <= block.deposits.len(),
            block@.deposits.len() == block.deposits@.len(),
            state@.well_formed(),
            state@.slot == old(state)@.slot,
            cfg@.well_formed(),
            spec_block_tx(old(state)@, block@, strategy, decision, *ctxt, cfg@) == match
                spec_apply_deposits(state@, block@.deposits.skip(i as int), cfg@) {
                Err(e) => Err::<StateModel, BlockProcessingError>(e),
                Ok(s1) => Ok(
                    StateModel {
                        latest_block_slot: block@.slot,
                        latest_block_root: block_root_of(block@),
                        ..s1
                    },
                ),
            },
        decreases block.deposits.len() - i,
    {
        proof {
            assert(block@.deposits.skip(i as int)[0] == block.deposits@[i as int]@);
            assert(block@.deposits.skip(i as int).drop_first() =~= block@.deposits.skip(
                i as int + 1,
            ));
        }
        match apply_one_deposit(state, &block.deposits[i], cfg) {
            Ok(()) => {},
            Err(e) => {
                return Err(e);
            },
        }
        i += 1;
    }
    proof {
        assert(block@.deposits.skip(block@.deposits.len() as int).len() == 0);
    }
    state.latest_block_slot = block.slot;
    state.latest_block_root = block_root(block);
    proof {
        let m = spec_block_tx(old(state)@, block@, strategy, decision, *ctxt, cfg@)->Ok_0;
        assert(state@ =~~= m);
    }
    Ok(())
}

/// Apply a single deposit at the state's current deposit index, exactly
/// as `spec_apply_deposit` describes.
fn apply_one_deposit(state: &mut ChainState, deposit: &crate::block::Deposit, cfg: &ChainConfig) -> (r:
    Result<(), BlockProcessingError>)
    requires
        old(state)@.well_formed(),
        cfg@.well_formed(),
    ensures
        spec_apply_deposit(old(state)@, deposit@, cfg@) matches Ok(m) ==> {
            &&& r is Ok
            &&& final(state)@ == m
        },
        spec_apply_deposit(old(state)@, deposit@, cfg@) matches Err(e) ==> {
            &&& r == Err::<(), BlockProcessingError>(e)
            &&& final(state)@ == old(state)@
        },
        final(state)@.well_formed(),
        final(state)@.slot == old(state)@.slot,
{
    match verify_deposit_merkle_proof(state, deposit, state.eth1_deposit_index, cfg) {
        Ok(()) => {},
        Err(_) => {
            return Err(
                BlockProcessingError::InvalidDeposit(DepositInvalid::BadMerkleProof),
            );
        },
    }
    if state.eth1_deposit_index == u64::MAX {
        return Err(BlockProcessingError::StateAccess(StateAccessError::DepositCountOverflow));
    }
    let ghost s0 = state@;
    match is_valid_deposit_signature(&deposit.data, cfg) {
        Err(_) => {
            state.eth1_deposit_index = state.eth1_deposit_index + 1;
            proof {
                assert(state@ =~~= spec_apply_deposit(s0, deposit@, cfg@)->Ok_0);
            }
            Ok(())
        },
        Ok(()) => {
            let new_root = hash_pair(&state.registry_root, &deposit_data_tree_root(&deposit.data));
            match get_existing_validator_index(state, &deposit.data.pubkey) {
                Some(idx) => {
                    if idx >= state.balances.len() as u64 {
                        proof {
                            assert(state@.balances.len() == state.balances@.len());
                        }
                        return Err(
                            BlockProcessingError::StateAccess(StateAccessError::RegistryMismatch),
                        );
                    }
                    let cur = state.balances[idx as usize];
                    if cur > u64::MAX - deposit.data.amount {
                        return Err(
                            BlockProcessingError::StateAccess(StateAccessError::BalanceOverflow),
                        );
                    }
                    state.balances.set(idx as usize, cur + deposit.data.amount);
                    state.registry_root = new_root;
                    state.eth1_deposit_index = state.eth1_deposit_index + 1;
                    proof {
                        assert(state@.balances =~= spec_apply_deposit(s0, deposit@, cfg@)->Ok_0
                            .balances);
                        assert(state@ =~~= spec_apply_deposit(s0, deposit@, cfg@)->Ok_0);
                    }
                    Ok(())
                },
                None => {
                    state.validators.push(deposit.data.pubkey.clone());
                    state.balances.push(deposit.data.amount);
                    state.registry_root = new_root;
                    state.eth1_deposit_index = state.eth1_deposit_index + 1;
                    proof {
                        assert(state@.validators =~~= spec_apply_deposit(s0, deposit@, cfg@)->Ok_0
                            .validators);
                        assert(state@ =~~= spec_apply_deposit(s0, deposit@, cfg@)->Ok_0);
                    }
                    Ok(())
                },
            }
        },
    }
}

} // verus!
