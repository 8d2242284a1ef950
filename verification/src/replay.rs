use vstd::prelude::*;

use crate::block::{BlockModel, ConsensusContext, SignedBlock};
use crate::config::{BlockSignatureStrategy, ChainConfig, ChainConfigModel, EpochSummary,
    VerifyBlockRoot};
use crate::errors::BlockReplayError;
use crate::resolver::{scan_entries, spec_resolve_root, RootCursor, RootSource, SlotRoot,
    SlotRootModel};
use crate::state::{ChainState, StateModel};
use crate::transition::{compute_state_root, per_block_processing, per_slot_processing,
    spec_block_tx, spec_slot_tx};

verus! {

/// Runs immediately before slot processing advances the state, with the
/// resolved state root.
pub trait PreSlotHook {
    /// This hook never returns an error (and stays that way).
    spec fn pre_slot_never_fails(&self) -> bool;

    fn on_pre_slot(&mut self, root: &Vec<u8>, state: &ChainState) -> (r: Result<
        (),
        BlockReplayError,
    >)
        ensures
            old(self).pre_slot_never_fails() ==> r is Ok && final(self).pre_slot_never_fails(),
    ;
}

/// Runs immediately after slot processing has advanced the state, with
/// the epoch summary and a flag saying whether the reached slot is
/// skipped (no block will be applied at it).
pub trait PostSlotHook {
    /// This hook never returns an error (and stays that way).
    spec fn post_slot_never_fails(&self) -> bool;

    fn on_post_slot(
        &mut self,
        state: &ChainState,
        summary: &Option<EpochSummary>,
        is_skipped_slot: bool,
    ) -> (r: Result<(), BlockReplayError>)
        ensures
            old(self).post_slot_never_fails() ==> r is Ok && final(self).post_slot_never_fails(),
    ;
}

/// Runs immediately before each block is applied.
pub trait PreBlockHook {
    /// This hook never returns an error (and stays that way).
    spec fn pre_block_never_fails(&self) -> bool;

    fn on_pre_block(&mut self, state: &ChainState, block: &SignedBlock) -> (r: Result<
        (),
        BlockReplayError,
    >)
        ensures
            old(self).pre_block_never_fails() ==> r is Ok && final(self).pre_block_never_fails(),
    ;
}

/// Runs immediately after each block is applied.
pub trait PostBlockHook {
    /// This hook never returns an error (and stays that way).
    spec fn post_block_never_fails(&self) -> bool;

    fn on_post_block(&mut self, state: &ChainState, block: &SignedBlock) -> (r: Result<
        (),
        BlockReplayError,
    >)
        ensures
            old(self).post_block_never_fails() ==> r is Ok && final(self).post_block_never_fails(),
    ;
}

/// The do-nothing hook installed at every extension point by default.
#[derive(Debug, Clone, PartialEq, Eq)]
pub struct NoHook;

impl PreSlotHook for NoHook {
    open spec fn pre_slot_never_fails(&self) -> bool {
        true
    }

    fn on_pre_slot(&mut self, root: &Vec<u8>, state: &ChainState) -> (r: Result<
        (),
        BlockReplayError,
    >) {
        Ok(())
    }
}

impl PostSlotHook for NoHook {
    open spec fn post_slot_never_fails(&self) -> bool {
        true
    }

    fn on_post_slot(
        &mut self,
        state: &ChainState,
        summary: &Option<EpochSummary>,
        is_skipped_slot: bool,
    ) -> (r: Result<(), BlockReplayError>) {
        Ok(())
    }
}

impl PreBlockHook for NoHook {
    open spec fn pre_block_never_fails(&self) -> bool {
        true
    }

    fn on_pre_block(&mut self, state: &ChainState, block: &SignedBlock) -> (r: Result<
        (),
        BlockReplayError,
    >) {
        Ok(())
    }
}

impl PostBlockHook for NoHook {
    open spec fn post_block_never_fails(&self) -> bool {
        true
    }

    fn on_post_block(&mut self, state: &ChainState, block: &SignedBlock) -> (r: Result<
        (),
        BlockReplayError,
    >) {
        Ok(())
    }
}

/// One slot advancement as the replay model records it: the slot that was
/// left, the root resolved for it, the path that produced the root, and
/// whether the reached slot counts as skipped.
#[verifier::ext_equal]
pub struct SlotEvent {
    pub slot: u64,
    pub root: Seq<u8>,
    pub source: RootSource,
    pub skipped: bool,
}

/// The replay model's outcome: the result state (or the first error), the
/// cursor's final position, whether any root was recomputed directly, and
/// the slot advancements performed.
#[verifier::ext_equal]
pub struct ReplayOutcome {
    pub result: Result<StateModel, BlockReplayError>,
    pub pos: int,
    pub miss: bool,
    pub events: Seq<SlotEvent>,
}

/// Advance the model state slot by slot up to `to_slot`, resolving a root
/// for every step. While heading toward a block (`at_block`), a reached
/// slot is skipped exactly when it still lies before `to_slot`; past the
/// last block every advanced slot is skipped.
pub open spec fn spec_advance_to(
    s: StateModel,
    blocks: Seq<BlockModel>,
    i: int,
    entries: Option<Seq<SlotRootModel>>,
    pos: int,
    to_slot: u64,
    at_block: bool,
) -> ReplayOutcome
    decreases to_slot - s.slot,
{
    if s.slot >= to_slot {
        ReplayOutcome { result: Ok(s), pos, miss: false, events: Seq::empty() }
    } else {
        let (root, pos1, src) = spec_resolve_root(s, blocks, i, entries, pos);
        match spec_slot_tx(s, root) {
            Err(e) => ReplayOutcome {
                result: Err(BlockReplayError::SlotProcessing(e)),
                pos: pos1,
                miss: src is Computed,
                events: seq![SlotEvent { slot: s.slot, root, source: src, skipped: false }],
            },
            Ok(s1) => {
                let skipped = if at_block {
                    s1.slot < to_slot
                } else {
                    true
                };
                let ev = SlotEvent { slot: s.slot, root, source: src, skipped };
                let rest = spec_advance_to(s1, blocks, i, entries, pos1, to_slot, at_block);
                ReplayOutcome {
                    result: rest.result,
                    pos: rest.pos,
                    miss: (src is Computed) || rest.miss,
                    events: seq![ev] + rest.events,
                }
            },
        }
    }
}

/// The effective block-root verification decision for the block at index
/// `i`: the explicit policy when one is set, otherwise verify the first
/// two blocks and trust the rest.
pub open spec fn spec_root_decision(vbr: Option<VerifyBlockRoot>, i: int) -> VerifyBlockRoot {
    match vbr {
        Some(v) => v,
        None => if i <= 1 {
            VerifyBlockRoot::True
        } else {
            VerifyBlockRoot::False
        },
    }
}

/// Replay from block `i` on: advance to each block's slot, apply it, and
/// after the last block advance to the target slot if one is given.
pub open spec fn spec_apply_from(
    s: StateModel,
    blocks: Seq<BlockModel>,
    i: int,
    entries: Option<Seq<SlotRootModel>>,
    pos: int,
    strategy: BlockSignatureStrategy,
    vbr: Option<VerifyBlockRoot>,
    cfg: ChainConfigModel,
    target: Option<u64>,
) -> ReplayOutcome
    decreases blocks.len() - i,
{
    if i < 0 || i >= blocks.len() {
        match target {
            None => ReplayOutcome { result: Ok(s), pos, miss: false, events: Seq::empty() },
            Some(t) => spec_advance_to(s, blocks, blocks.len() as int, entries, pos, t, false),
        }
    } else {
        let adv = spec_advance_to(s, blocks, i, entries, pos, blocks[i].slot, true);
        match adv.result {
            Err(e) => adv,
            Ok(s1) => {
                let ctxt = ConsensusContext {
                    slot: blocks[i].slot,
                    proposer_index: Some(blocks[i].proposer_index),
                };
                match spec_block_tx(s1, blocks[i], strategy, spec_root_decision(vbr, i), ctxt,
                    cfg) {
                    Err(e) => ReplayOutcome {
                        result: Err(BlockReplayError::BlockProcessing(e)),
                        pos: adv.pos,
                        miss: adv.miss,
                        events: adv.events,
                    },
                    Ok(s2) => {
                        let rest = spec_apply_from(
                            s2,
                            blocks,
                            i + 1,
                            entries,
                            adv.pos,
                            strategy,
                            vbr,
                            cfg,
                            target,
                        );
                        ReplayOutcome {
                            result: rest.result,
                            pos: rest.pos,
                            miss: adv.miss || rest.miss,
                            events: adv.events + rest.events,
                        }
                    },
                }
            },
        }
    }
}

/// The index replay starts from: the first block is skipped entirely when
/// its slot does not lie beyond the state's — it is present only to
/// supply a state root.
pub open spec fn spec_start_index(s: StateModel, blocks: Seq<BlockModel>) -> int {
    if blocks.len() > 0 && blocks[0].slot <= s.slot {
        1
    } else {
        0
    }
}

/// The whole replay: the first block's special case, then block by block,
/// then the optional trailing advance to the target slot.
pub open spec fn spec_apply(
    s: StateModel,
    blocks: Seq<BlockModel>,
    entries: Option<Seq<SlotRootModel>>,
    pos: int,
    strategy: BlockSignatureStrategy,
    vbr: Option<VerifyBlockRoot>,
    cfg: ChainConfigModel,
    target: Option<u64>,
) -> ReplayOutcome {
    spec_apply_from(
        s,
        blocks,
        spec_start_index(s, blocks),
        entries,
        pos,
        strategy,
        vbr,
        cfg,
        target,
    )
}

/// Efficiently apply blocks to a state while configuring various
/// parameters: signature strategy, block-root verification, a state-root
/// source and four extension-point hooks.
pub struct BlockReplayer<
    PrS: PreSlotHook,
    PoS: PostSlotHook,
    PrB: PreBlockHook,
    PoB: PostBlockHook,
> {
    pub state: ChainState,
    pub cfg: ChainConfig,
    pub block_sig_strategy: BlockSignatureStrategy,
    pub verify_block_root: Option<VerifyBlockRoot>,
    pub pre_slot: PrS,
    pub post_slot: PoS,
    pub pre_block: PrB,
    pub post_block: PoB,
    pub state_root_cursor: Option<RootCursor>,
    pub state_root_miss: bool,
}

impl<
    PrS: PreSlotHook,
    PoS: PostSlotHook,
    PrB: PreBlockHook,
    PoB: PostBlockHook,
> BlockReplayer<PrS, PoS, PrB, PoB> {
    /// The engine's own well-formedness: state, config and cursor.
    pub open spec fn wf(self) -> bool {
        &&& self.state@.well_formed()
        &&& self.cfg@.well_formed()
        &&& match self.state_root_cursor {
            Some(c) => c.wf(),
            None => true,
        }
    }

    /// The configured source's entries, if a source is configured.
    pub open spec fn cursor_entries(self) -> Option<Seq<SlotRootModel>> {
        match self.state_root_cursor {
            Some(c) => Some(c.entries.deep_view()),
            None => None,
        }
    }

    /// The cursor's position within its source.
    pub open spec fn cursor_pos(self) -> int {
        match self.state_root_cursor {
            Some(c) => c.pos as int,
            None => 0,
        }
    }

    /// None of the four installed hooks ever returns an error.
    pub open spec fn hooks_never_fail(self) -> bool {
        &&& self.pre_slot.pre_slot_never_fails()
        &&& self.post_slot.post_slot_never_fails()
        &&& self.pre_block.pre_block_never_fails()
        &&& self.post_block.post_block_never_fails()
    }

    /// Set the replayer's block signature verification strategy.
    pub fn block_signature_strategy(self, block_sig_strategy: BlockSignatureStrategy) -> (r: Self)
        ensures
            r == (Self { block_sig_strategy, ..self }),
    {
        Self { block_sig_strategy, ..self }
    }

    /// Disable signature verification during replay: for states replayed
    /// from blocks already known valid, never for first-time validation.
    pub fn no_signature_verification(self) -> (r: Self)
        ensures
            r == (Self { block_sig_strategy: BlockSignatureStrategy::NoVerification, ..self }),
    {
        self.block_signature_strategy(BlockSignatureStrategy::NoVerification)
    }

    /// Verify only the block roots of the initial few blocks, and trust
    /// the rest.
    pub fn minimal_block_root_verification(self) -> (r: Self)
        ensures
            r == (Self { verify_block_root: None, ..self }),
    {
        Self { verify_block_root: None, ..self }
    }

    /// Supply a state-root source to accelerate slot processing: entries
    /// non-decreasing in slot, ideally one per slot from the state's slot
    /// through the target slot.
    pub fn state_root_iter(self, entries: Vec<SlotRoot>) -> (r: Self)
        requires
            forall|a: int, b: int|
                0 <= a < b < entries@.len() ==> entries@[a].slot <= entries@[b].slot,
        ensures
            r == (Self {
                state_root_cursor: Some(RootCursor { entries, pos: 0 }),
                ..self
            }),
            r.cursor_pos() == 0,
    {
        Self { state_root_cursor: Some(RootCursor { entries, pos: 0 }), ..self }
    }

    /// Run a function immediately before slot processing advances the
    /// state to the next slot.
    pub fn pre_slot_hook<H: PreSlotHook>(self, hook: H) -> (r: BlockReplayer<H, PoS, PrB, PoB>)
        ensures
            r.state == self.state,
            r.cfg == self.cfg,
            r.block_sig_strategy == self.block_sig_strategy,
            r.verify_block_root == self.verify_block_root,
            r.pre_slot == hook,
            r.post_slot == self.post_slot,
            r.pre_block == self.pre_block,
            r.post_block == self.post_block,
            r.state_root_cursor == self.state_root_cursor,
            r.state_root_miss == self.state_root_miss,
    {
        BlockReplayer {
            state: self.state,
            cfg: self.cfg,
            block_sig_strategy: self.block_sig_strategy,
            verify_block_root: self.verify_block_root,
            pre_slot: hook,
            post_slot: self.post_slot,
            pre_block: self.pre_block,
            post_block: self.post_block,
            state_root_cursor: self.state_root_cursor,
            state_root_miss: self.state_root_miss,
        }
    }

    /// Run a function immediately after slot processing has advanced the
    /// state to the next slot.
    pub fn post_slot_hook<H: PostSlotHook>(self, hook: H) -> (r: BlockReplayer<PrS, H, PrB, PoB>)
        ensures
            r.state == self.state,
            r.cfg == self.cfg,
            r.block_sig_strategy == self.block_sig_strategy,
            r.verify_block_root == self.verify_block_root,
            r.pre_slot == self.pre_slot,
            r.post_slot == hook,
            r.pre_block == self.pre_block,
            r.post_block == self.post_block,
            r.state_root_cursor == self.state_root_cursor,
            r.state_root_miss == self.state_root_miss,
    {
        BlockReplayer {
            state: self.state,
            cfg: self.cfg,
            block_sig_strategy: self.block_sig_strategy,
            verify_block_root: self.verify_block_root,
            pre_slot: self.pre_slot,
            post_slot: hook,
            pre_block: self.pre_block,
            post_block: self.post_block,
            state_root_cursor: self.state_root_cursor,
            state_root_miss: self.state_root_miss,
        }
    }

    /// Run a function immediately before each block that is applied.
    pub fn pre_block_hook<H: PreBlockHook>(self, hook: H) -> (r: BlockReplayer<PrS, PoS, H, PoB>)
        ensures
            r.state == self.state,
            r.cfg == self.cfg,
            r.block_sig_strategy == self.block_sig_strategy,
            r.verify_block_root == self.verify_block_root,
            r.pre_slot == self.pre_slot,
            r.post_slot == self.post_slot,
            r.pre_block == hook,
            r.post_block == self.post_block,
            r.state_root_cursor == self.state_root_cursor,
            r.state_root_miss == self.state_root_miss,
    {
        BlockReplayer {
            state: self.state,
            cfg: self.cfg,
            block_sig_strategy: self.block_sig_strategy,
            verify_block_root: self.verify_block_root,
            pre_slot: self.pre_slot,
            post_slot: self.post_slot,
            pre_block: hook,
            post_block: self.post_block,
            state_root_cursor: self.state_root_cursor,
            state_root_miss: self.state_root_miss,
        }
    }

    /// Run a function immediately after each block that is applied.
    pub fn post_block_hook<H: PostBlockHook>(self, hook: H) -> (r: BlockReplayer<PrS, PoS, PrB, H>)
        ensures
            r.state == self.state,
            r.cfg == self.cfg,
            r.block_sig_strategy == self.block_sig_strategy,
            r.verify_block_root == self.verify_block_root,
            r.pre_slot == self.pre_slot,
            r.post_slot == self.post_slot,
            r.pre_block == self.pre_block,
            r.post_block == hook,
            r.state_root_cursor == self.state_root_cursor,
            r.state_root_miss == self.state_root_miss,
    {
        BlockReplayer {
            state: self.state,
            cfg: self.cfg,
            block_sig_strategy: self.block_sig_strategy,
            verify_block_root: self.verify_block_root,
            pre_slot: self.pre_slot,
            post_slot: self.post_slot,
            pre_block: self.pre_block,
            post_block: hook,
            state_root_cursor: self.state_root_cursor,
            state_root_miss: self.state_root_miss,
        }
    }

    /// Compute the state root for the current state as cheaply as
    /// possible: the source first, then the previous block's declared
    /// root, and only then direct recomputation, which records a miss.
    fn get_state_root(&mut self, blocks: &Vec<SignedBlock>, i: usize) -> (root: Vec<u8>)
        requires
            old(self).wf(),
        ensures
            ({
                let (rt, pos1, src) = spec_resolve_root(
                    old(self).state@,
                    blocks.deep_view(),
                    i as int,
                    old(self).cursor_entries(),
                    old(self).cursor_pos(),
                );
                &&& root@ == rt
                &&& final(self).cursor_pos() == pos1
                &&& final(self).state_root_miss == (old(self).state_root_miss || src is Computed)
            }),
            final(self).cursor_entries() == old(self).cursor_entries(),
            final(self).state == old(self).state,
            final(self).cfg == old(self).cfg,
            final(self).block_sig_strategy == old(self).block_sig_strategy,
            final(self).verify_block_root == old(self).verify_block_root,
            final(self).pre_slot == old(self).pre_slot,
            final(self).post_slot == old(self).post_slot,
            final(self).pre_block == old(self).pre_block,
            final(self).post_block == old(self).post_block,
            final(self).wf(),
    {
        let slot = self.state.slot;
        let scanned: Option<(Option<Vec<u8>>, usize)> = match &self.state_root_cursor {
            Some(c) => Some(scan_entries(&c.entries, c.pos, slot)),
            None => None,
        };
        if let Some((found, npos)) = scanned {
            if let Some(c) = &mut self.state_root_cursor {
                c.pos = npos;
            }
            if let Some(root) = found {
                return root;
            }
        }
        if i >= 1 && i - 1 < blocks.len() {
            let prev = &blocks[i - 1];
            proof {
                assert(blocks.deep_view()[i - 1] == blocks@[i - 1]@);
            }
            if prev.slot == slot {
                return prev.state_root.clone();
            }
        }
        self.state_root_miss = true;
        compute_state_root(&self.state)
    }

    /// Apply `blocks` atop the engine's state, taking care of slot
    /// processing, and advance through to `target_slot` if one is given.
    ///
    /// On success the outcome is exactly what `spec_apply` gives for the
    /// engine's configuration; on failure the error is the model's first
    /// error unless a hook aborted the replay, and the state is left at
    /// whatever point it reached.
    #[verifier::rlimit(100)]
    pub fn apply_blocks(self, blocks: Vec<SignedBlock>, target_slot: Option<u64>) -> (r:
        Result<Self, BlockReplayError>)
        requires
            self.wf(),
        ensures
            ({
                let m = spec_apply(
                    self.state@,
                    blocks.deep_view(),
                    self.cursor_entries(),
                    self.cursor_pos(),
                    self.block_sig_strategy,
                    self.verify_block_root,
                    self.cfg@,
                    target_slot,
                );
                &&& (r matches Ok(rep) ==> {
                    &&& m.result == Ok::<StateModel, BlockReplayError>(rep.state@)
                    &&& rep.state_root_miss == (self.state_root_miss || m.miss)
                    &&& rep.cursor_pos() == m.pos
                    &&& rep.cursor_entries() == self.cursor_entries()
                    &&& rep.cfg == self.cfg
                    &&& rep.block_sig_strategy == self.block_sig_strategy
                    &&& rep.verify_block_root == self.verify_block_root
                    &&& rep.wf()
                })
                &&& (self.hooks_never_fail() ==> (r matches Err(e) ==> m.result == Err::<
                    StateModel,
                    BlockReplayError,
                >(e)))
            }),
    {
        let mut this = self;
        let ghost init = this;
        let ghost bv = blocks.deep_view();
        let ghost m = spec_apply(
            init.state@,
            bv,
            init.cursor_entries(),
            init.cursor_pos(),
            init.block_sig_strategy,
            init.verify_block_root,
            init.cfg@,
            target_slot,
        );
        let mut i: usize = 0;
        if blocks.len() > 0 {
            proof {
                assert(bv[0] == blocks@[0]@);
            }
            if blocks[0].slot <= this.state.slot {
                i = 1;
            }
        }
        proof {
            assert(i as int == spec_start_index(init.state@, bv));
        }
        while i < blocks.len()
            invariant
                i <= blocks@.len(),
                bv == blocks.deep_view(),
                bv.len() == blocks@.len(),
                init == self,
                this.wf(),
                this.cfg == init.cfg,
                this.block_sig_strategy == init.block_sig_strategy,
                this.verify_block_root == init.verify_block_root,
                this.cursor_entries() == init.cursor_entries(),
                init.hooks_never_fail() ==> this.hooks_never_fail(),
                m == spec_apply(
                    init.state@,
                    bv,
                    init.cursor_entries(),
                    init.cursor_pos(),
                    init.block_sig_strategy,
                    init.verify_block_root,
                    init.cfg@,
                    target_slot,
                ),
                ({
                    let tail = spec_apply_from(
                        this.state@,
                        bv,
                        i as int,
                        init.cursor_entries(),
                        this.cursor_pos(),
                        init.block_sig_strategy,
                        init.verify_block_root,
                        init.cfg@,
                        target_slot,
                    );
                    &&& m.result == tail.result
                    &&& m.pos == tail.pos
                    &&& (init.state_root_miss || m.miss) == (this.state_root_miss || tail.miss)
                }),
            decreases blocks@.len() - i,
        {
            proof {
                assert(bv[i as int] == blocks@[i as int]@);
            }
            while this.state.slot < blocks[i].slot
                invariant
                    i < blocks@.len(),
                    bv == blocks.deep_view(),
                    bv.len() == blocks@.len(),
                    bv[i as int] == blocks@[i as int]@,
                    init == self,
                    this.wf(),
                    this.cfg == init.cfg,
                    this.block_sig_strategy == init.block_sig_strategy,
                    this.verify_block_root == init.verify_block_root,
                    this.cursor_entries() == init.cursor_entries(),
                    init.hooks_never_fail() ==> this.hooks_never_fail(),
                    m == spec_apply(
                        init.state@,
                        bv,
                        init.cursor_entries(),
                        init.cursor_pos(),
                        init.block_sig_strategy,
                        init.verify_block_root,
                        init.cfg@,
                        target_slot,
                    ),
                    ({
                        let tail = spec_apply_from(
                            this.state@,
                            bv,
                            i as int,
                            init.cursor_entries(),
                            this.cursor_pos(),
                            init.block_sig_strategy,
                            init.verify_block_root,
                            init.cfg@,
                            target_slot,
                        );
                        &&& m.result == tail.result
                        &&& m.pos == tail.pos
                        &&& (init.state_root_miss || m.miss) == (this.state_root_miss
                            || tail.miss)
                    }),
                decreases bv[i as int].slot - this.state.slot,
            {
                let ghost s_pre = this.state@;
                let ghost pos_pre = this.cursor_pos();
                proof {
                    lemma_apply_from_slot_step(
                        s_pre,
                        bv,
                        i as int,
                        init.cursor_entries(),
                        pos_pre,
                        init.block_sig_strategy,
                        init.verify_block_root,
                        init.cfg@,
                        target_slot,
                    );
                }
                let root = this.get_state_root(&blocks, i);
                match this.pre_slot.on_pre_slot(&root, &this.state) {
                    Ok(()) => {},
                    Err(e) => {
                        proof {
                            assert(!init.hooks_never_fail());
                        }
                        return Err(e);
                    },
                }
                let summary = match per_slot_processing(&mut this.state, &root, &this.cfg) {
                    Ok(su) => su,
                    Err(e) => {
                        return Err(BlockReplayError::SlotProcessing(e));
                    },
                };
                let is_skipped_slot = this.state.slot < blocks[i].slot;
                match this.post_slot.on_post_slot(&this.state, &summary, is_skipped_slot) {
                    Ok(()) => {},
                    Err(e) => {
                        proof {
                            assert(!init.hooks_never_fail());
                        }
                        return Err(e);
                    },
                }
            }
            let ghost s_blk = this.state@;
            let ghost pos_blk = this.cursor_pos();
            proof {
                assert(s_blk.slot >= bv[i as int].slot);
                assert(spec_advance_to(
                    s_blk,
                    bv,
                    i as int,
                    init.cursor_entries(),
                    pos_blk,
                    bv[i as int].slot,
                    true,
                ) == (ReplayOutcome {
                    result: Ok::<StateModel, BlockReplayError>(s_blk),
                    pos: pos_blk,
                    miss: false,
                    events: Seq::empty(),
                }));
            }
            match this.pre_block.on_pre_block(&this.state, &blocks[i]) {
                Ok(()) => {},
                Err(e) => {
                    proof {
                        assert(!init.hooks_never_fail());
                    }
                    return Err(e);
                },
            }
            let decision = match this.verify_block_root {
                Some(v) => v,
                None => if i <= 1 {
                    VerifyBlockRoot::True
                } else {
                    VerifyBlockRoot::False
                },
            };
            let ctxt = ConsensusContext::new(blocks[i].slot).set_proposer_index(
                blocks[i].proposer_index,
            );
            match per_block_processing(
                &mut this.state,
                &blocks[i],
                this.block_sig_strategy,
                decision,
                &ctxt,
                &this.cfg,
            ) {
                Ok(()) => {},
                Err(e) => {
                    return Err(BlockReplayError::BlockProcessing(e));
                },
            }
            match this.post_block.on_post_block(&this.state, &blocks[i]) {
                Ok(()) => {},
                Err(e) => {
                    proof {
                        assert(!init.hooks_never_fail());
                    }
                    return Err(e);
                },
            }
            i += 1;
        }
        if let Some(t) = target_slot {
            while this.state.slot < t
                invariant
                    bv == blocks.deep_view(),
                    bv.len() == blocks@.len(),
                    target_slot == Some(t),
                    init == self,
                    this.wf(),
                    this.cfg == init.cfg,
                    this.block_sig_strategy == init.block_sig_strategy,
                    this.verify_block_root == init.verify_block_root,
                    this.cursor_entries() == init.cursor_entries(),
                    init.hooks_never_fail() ==> this.hooks_never_fail(),
                    m == spec_apply(
                        init.state@,
                        bv,
                        init.cursor_entries(),
                        init.cursor_pos(),
                        init.block_sig_strategy,
                        init.verify_block_root,
                        init.cfg@,
                        target_slot,
                    ),
                    ({
                        let tail = spec_apply_from(
                            this.state@,
                            bv,
                            bv.len() as int,
                            init.cursor_entries(),
                            this.cursor_pos(),
                            init.block_sig_strategy,
                            init.verify_block_root,
                            init.cfg@,
                            target_slot,
                        );
                        &&& m.result == tail.result
                        &&& m.pos == tail.pos
                        &&& (init.state_root_miss || m.miss) == (this.state_root_miss
                            || tail.miss)
                    }),
                decreases t - this.state.slot,
            {
                let ghost s_pre = this.state@;
                let ghost pos_pre = this.cursor_pos();
                proof {
                    lemma_apply_from_target_step(
                        s_pre,
                        bv,
                        bv.len() as int,
                        init.cursor_entries(),
                        pos_pre,
                        init.block_sig_strategy,
                        init.verify_block_root,
                        init.cfg@,
                        t,
                    );
                }
                let root = this.get_state_root(&blocks, blocks.len());
                match this.pre_slot.on_pre_slot(&root, &this.state) {
                    Ok(()) => {},
                    Err(e) => {
                        proof {
                            assert(!init.hooks_never_fail());
                        }
                        return Err(e);
                    },
                }
                let summary = match per_slot_processing(&mut this.state, &root, &this.cfg) {
                    Ok(su) => su,
                    Err(e) => {
                        return Err(BlockReplayError::SlotProcessing(e));
                    },
                };
                let is_skipped_slot = true;
                match this.post_slot.on_post_slot(&this.state, &summary, is_skipped_slot) {
                    Ok(()) => {},
                    Err(e) => {
                        proof {
                            assert(!init.hooks_never_fail());
                        }
                        return Err(e);
                    },
                }
            }
        }
        proof {
            let tail = spec_apply_from(
                this.state@,
                bv,
                bv.len() as int,
                init.cursor_entries(),
                this.cursor_pos(),
                init.block_sig_strategy,
                init.verify_block_root,
                init.cfg@,
                target_slot,
            );
            assert(tail.result == Ok::<StateModel, BlockReplayError>(this.state@));
            assert(tail.pos == this.cursor_pos());
            assert(!tail.miss);
        }
        Ok(this)
    }

    /// After block application, check whether any state root had to be
    /// recomputed directly.
    pub fn state_root_miss(&self) -> (r: bool)
        ensures
            r == self.state_root_miss,
    {
        self.state_root_miss
    }

    /// Convert the replayer into the state that was built.
    pub fn into_state(self) -> (r: ChainState)
        ensures
            r == self.state,
    {
        self.state
    }
}

impl BlockReplayer<NoHook, NoHook, NoHook, NoHook> {
    /// Create a new replayer that will apply blocks upon `state`.
    ///
    /// Defaults: bulk signature verification, full block-root
    /// verification, no state-root source, no hooks.
    pub fn new(state: ChainState, cfg: ChainConfig) -> (r: Self)
        requires
            state@.well_formed(),
            cfg@.well_formed(),
        ensures
            r.state == state,
            r.cfg == cfg,
            r.block_sig_strategy == BlockSignatureStrategy::VerifyBulk,
            r.verify_block_root == Some(VerifyBlockRoot::True),
            r.state_root_cursor is None,
            r.state_root_miss == false,
            r.pre_slot == NoHook,
            r.post_slot == NoHook,
            r.pre_block == NoHook,
            r.post_block == NoHook,
            r.wf(),
            r.hooks_never_fail(),
    {
        BlockReplayer {
            state,
            cfg,
            block_sig_strategy: BlockSignatureStrategy::VerifyBulk,
            verify_block_root: Some(VerifyBlockRoot::True),
            pre_slot: NoHook,
            post_slot: NoHook,
            pre_block: NoHook,
            post_block: NoHook,
            state_root_cursor: None,
            state_root_miss: false,
        }
    }

    /// Hint that no state-root source is desired.
    pub fn no_state_root_iter(self) -> (r: Self)
        ensures
            r == self,
    {
        self
    }
}


/// Replaying from a state that still lies before block `i`'s slot first
/// resolves a root and advances one slot; the whole tail from the
/// advanced state then agrees with the tail from the starting state.
pub proof fn lemma_apply_from_slot_step(
    s: StateModel,
    blocks: Seq<BlockModel>,
    i: int,
    entries: Option<Seq<SlotRootModel>>,
    pos: int,
    strategy: BlockSignatureStrategy,
    vbr: Option<VerifyBlockRoot>,
    cfg: ChainConfigModel,
    target: Option<u64>,
)
    requires
        0 <= i < blocks.len(),
        s.slot < blocks[i].slot,
    ensures
        ({
            let (root, pos1, src) = spec_resolve_root(s, blocks, i, entries, pos);
            let full = spec_apply_from(s, blocks, i, entries, pos, strategy, vbr, cfg, target);
            match spec_slot_tx(s, root) {
                Err(e) => {
                    &&& full.result == Err::<StateModel, BlockReplayError>(
                        BlockReplayError::SlotProcessing(e),
                    )
                    &&& full.pos == pos1
                    &&& full.miss == (src is Computed)
                },
                Ok(s1) => {
                    let rest = spec_apply_from(
                        s1,
                        blocks,
                        i,
                        entries,
                        pos1,
                        strategy,
                        vbr,
                        cfg,
                        target,
                    );
                    &&& full.result == rest.result
                    &&& full.pos == rest.pos
                    &&& full.miss == ((src is Computed) || rest.miss)
                },
            }
        }),
{
    let (root, pos1, src) = spec_resolve_root(s, blocks, i, entries, pos);
    let adv = spec_advance_to(s, blocks, i, entries, pos, blocks[i].slot, true);
    match spec_slot_tx(s, root) {
        Err(e) => {
            assert(adv.result == Err::<StateModel, BlockReplayError>(
                BlockReplayError::SlotProcessing(e),
            ));
        },
        Ok(s1) => {
            let adv1 = spec_advance_to(s1, blocks, i, entries, pos1, blocks[i].slot, true);
            assert(adv.result == adv1.result);
            assert(adv.pos == adv1.pos);
            assert(adv.miss == ((src is Computed) || adv1.miss));
        },
    }
}

/// Past the last block, advancing toward the target slot decomposes the
/// same way, one slot at a time.
pub proof fn lemma_apply_from_target_step(
    s: StateModel,
    blocks: Seq<BlockModel>,
    i: int,
    entries: Option<Seq<SlotRootModel>>,
    pos: int,
    strategy: BlockSignatureStrategy,
    vbr: Option<VerifyBlockRoot>,
    cfg: ChainConfigModel,
    t: u64,
)
    requires
        i >= blocks.len(),
        s.slot < t,
    ensures
        ({
            let (root, pos1, src) = spec_resolve_root(
                s,
                blocks,
                blocks.len() as int,
                entries,
                pos,
            );
            let full = spec_apply_from(s, blocks, i, entries, pos, strategy, vbr, cfg, Some(t));
            match spec_slot_tx(s, root) {
                Err(e) => {
                    &&& full.result == Err::<StateModel, BlockReplayError>(
                        BlockReplayError::SlotProcessing(e),
                    )
                    &&& full.pos == pos1
                    &&& full.miss == (src is Computed)
                },
                Ok(s1) => {
                    let rest = spec_apply_from(
                        s1,
                        blocks,
                        i,
                        entries,
                        pos1,
                        strategy,
                        vbr,
                        cfg,
                        Some(t),
                    );
                    &&& full.result == rest.result
                    &&& full.pos == rest.pos
                    &&& full.miss == ((src is Computed) || rest.miss)
                },
            }
        }),
{
    let (root, pos1, src) = spec_resolve_root(s, blocks, blocks.len() as int, entries, pos);
    let adv = spec_advance_to(s, blocks, blocks.len() as int, entries, pos, t, false);
    match spec_slot_tx(s, root) {
        Err(e) => {
            assert(adv.result == Err::<StateModel, BlockReplayError>(
                BlockReplayError::SlotProcessing(e),
            ));
        },
        Ok(s1) => {
            let adv1 = spec_advance_to(s1, blocks, blocks.len() as int, entries, pos1, t, false);
            assert(adv.result == adv1.result);
            assert(adv.pos == adv1.pos);
            assert(adv.miss == ((src is Computed) || adv1.miss));
        },
    }
}

} // verus!
