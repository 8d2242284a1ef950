use vstd::prelude::*;

use crate::config::EpochSummary;
use crate::errors::BlockReplayError;
use crate::block::SignedBlock;
use crate::replay::{PostBlockHook, PostSlotHook, PreBlockHook, PreSlotHook};
use crate::state::ChainState;

verus! {

/// A pre-slot hook that records every resolved root and the slot it was
/// resolved for.
#[derive(Debug, Clone, PartialEq, Eq)]
pub struct PreSlotRecorder {
    /// Roots handed to the hook, in order.
    pub roots: Vec<Vec<u8>>,
    /// The state's slot at each call.
    pub slots: Vec<u64>,
}

impl PreSlotRecorder {
    /// An empty recorder.
    pub fn new() -> (r: Self)
        ensures
            r.roots@.len() == 0,
            r.slots@.len() == 0,
    {
        PreSlotRecorder { roots: Vec::new(), slots: Vec::new() }
    }
}

impl PreSlotHook for PreSlotRecorder {
    open spec fn pre_slot_never_fails(&self) -> bool {
        true
    }

    fn on_pre_slot(&mut self, root: &Vec<u8>, state: &ChainState) -> (r: Result<
        (),
        BlockReplayError,
    >) {
        self.roots.push(root.clone());
        self.slots.push(state.slot);
        Ok(())
    }
}

/// A post-slot hook that records every reached slot and whether it was
/// reported as skipped.
#[derive(Debug, Clone, PartialEq, Eq)]
pub struct PostSlotRecorder {
    /// The state's slot after each advancement.
    pub slots: Vec<u64>,
    /// The skipped flag reported alongside each advancement.
    pub skipped: Vec<bool>,
}

impl PostSlotRecorder {
    /// An empty recorder.
    pub fn new() -> (r: Self)
        ensures
            r.slots@.len() == 0,
            r.skipped@.len() == 0,
    {
        PostSlotRecorder { slots: Vec::new(), skipped: Vec::new() }
    }
}

impl PostSlotHook for PostSlotRecorder {
    open spec fn post_slot_never_fails(&self) -> bool {
        true
    }

    fn on_post_slot(
        &mut self,
        state: &ChainState,
        summary: &Option<EpochSummary>,
        is_skipped_slot: bool,
    ) -> (r: Result<(), BlockReplayError>) {
        self.slots.push(state.slot);
        self.skipped.push(is_skipped_slot);
        Ok(())
    }
}

/// A post-block hook that records the slot of every block applied.
#[derive(Debug, Clone, PartialEq, Eq)]
pub struct PostBlockRecorder {
    /// The slot of each block, in application order.
    pub block_slots: Vec<u64>,
}

impl PostBlockRecorder {
    /// An empty recorder.
    pub fn new() -> (r: Self)
        ensures
            r.block_slots@.len() == 0,
    {
        PostBlockRecorder { block_slots: Vec::new() }
    }
}

impl PostBlockHook for PostBlockRecorder {
    open spec fn post_block_never_fails(&self) -> bool {
        true
    }

    fn on_post_block(&mut self, state: &ChainState, block: &SignedBlock) -> (r: Result<
        (),
        BlockReplayError,
    >) {
        self.block_slots.push(block.slot);
        Ok(())
    }
}

/// A pre-block hook that records the slot of every block about to be
/// applied.
#[derive(Debug, Clone, PartialEq, Eq)]
pub struct PreBlockRecorder {
    /// The slot of each block, in order.
    pub block_slots: Vec<u64>,
}

impl PreBlockRecorder {
    /// An empty recorder.
    pub fn new() -> (r: Self)
        ensures
            r.block_slots@.len() == 0,
    {
        PreBlockRecorder { block_slots: Vec::new() }
    }
}

impl PreBlockHook for PreBlockRecorder {
    open spec fn pre_block_never_fails(&self) -> bool {
        true
    }

    fn on_pre_block(&mut self, state: &ChainState, block: &SignedBlock) -> (r: Result<
        (),
        BlockReplayError,
    >) {
        self.block_slots.push(block.slot);
        Ok(())
    }
}

} // verus!
