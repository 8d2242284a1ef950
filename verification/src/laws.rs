use vstd::prelude::*;

use crate::block::{BlockModel, ConsensusContext};
use crate::config::{BlockSignatureStrategy, ChainConfigModel, VerifyBlockRoot};
use crate::replay::{spec_advance_to, spec_apply, spec_apply_from, spec_root_decision, SlotEvent};
use crate::resolver::{spec_resolve_root, SlotRootModel};
use crate::state::StateModel;
use crate::transition::{spec_block_tx, spec_slot_tx};

verus! {

/// At least one of the recorded slot advancements recomputed its root
/// directly from the state.
pub open spec fn some_event_computed(events: Seq<SlotEvent>) -> bool {
    exists|j: int| 0 <= j < events.len() && events[j].source is Computed
}

proof fn lemma_computed_concat(a: Seq<SlotEvent>, b: Seq<SlotEvent>)
    ensures
        some_event_computed(a + b) <==> (some_event_computed(a) || some_event_computed(b)),
{
    if some_event_computed(a) {
        let j = choose|j: int| 0 <= j < a.len() && a[j].source is Computed;
        assert((a + b)[j] == a[j]);
        assert(some_event_computed(a + b));
    }
    if some_event_computed(b) {
        let j = choose|j: int| 0 <= j < b.len() && b[j].source is Computed;
        assert((a + b)[a.len() + j] == b[j]);
        assert(some_event_computed(a + b));
    }
    if some_event_computed(a + b) {
        let j = choose|j: int| 0 <= j < (a + b).len() && (a + b)[j].source is Computed;
        if j < a.len() {
            assert(a[j] == (a + b)[j]);
            assert(some_event_computed(a));
        } else {
            assert(b[j - a.len()] == (a + b)[j]);
            assert(some_event_computed(b));
        }
    }
}

proof fn lemma_advance_miss_iff(
    s: StateModel,
    blocks: Seq<BlockModel>,
    i: int,
    entries: Option<Seq<SlotRootModel>>,
    pos: int,
    to_slot: u64,
    at_block: bool,
)
    ensures
        ({
            let o = spec_advance_to(s, blocks, i, entries, pos, to_slot, at_block);
            o.miss <==> some_event_computed(o.events)
        }),
    decreases to_slot - s.slot,
{
    let o = spec_advance_to(s, blocks, i, entries, pos, to_slot, at_block);
    if s.slot >= to_slot {
    } else {
        let (root, pos1, src) = spec_resolve_root(s, blocks, i, entries, pos);
        match spec_slot_tx(s, root) {
            Err(e) => {
                if o.miss {
                    assert(o.events[0].source is Computed);
                }
            },
            Ok(s1) => {
                let skipped = if at_block {
                    s1.slot < to_slot
                } else {
                    true
                };
                let ev = SlotEvent { slot: s.slot, root, source: src, skipped };
                let rest = spec_advance_to(s1, blocks, i, entries, pos1, to_slot, at_block);
                lemma_advance_miss_iff(s1, blocks, i, entries, pos1, to_slot, at_block);
                lemma_computed_concat(seq![ev], rest.events);
                assert(some_event_computed(seq![ev]) <==> (src is Computed)) by {
                    if src is Computed {
                        assert(seq![ev][0].source is Computed);
                    }
                }
            },
        }
    }
}

proof fn lemma_apply_from_miss_iff(
    s: StateModel,
    blocks: Seq<BlockModel>,
    i: int,
    entries: Option<Seq<SlotRootModel>>,
    pos: int,
    strategy: BlockSignatureStrategy,
    vbr: Option<VerifyBlockRoot>,
    cfg: ChainConfigModel,
    target: Option<u64>,
)
    ensures
        ({
            let o = spec_apply_from(s, blocks, i, entries, pos, strategy, vbr, cfg, target);
            o.miss <==> some_event_computed(o.events)
        }),
    decreases blocks.len() - i,
{
    let o = spec_apply_from(s, blocks, i, entries, pos, strategy, vbr, cfg, target);
    if i < 0 || i >= blocks.len() {
        match target {
            None => {},
            Some(t) => {
                lemma_advance_miss_iff(s, blocks, blocks.len() as int, entries, pos, t, false);
            },
        }
    } else {
        let adv = spec_advance_to(s, blocks, i, entries, pos, blocks[i].slot, true);
        lemma_advance_miss_iff(s, blocks, i, entries, pos, blocks[i].slot, true);
        match adv.result {
            Err(e) => {},
            Ok(s1) => {
                let ctxt = ConsensusContext {
                    slot: blocks[i].slot,
                    proposer_index: Some(blocks[i].proposer_index),
                };
                match spec_block_tx(s1, blocks[i], strategy, spec_root_decision(vbr, i), ctxt,
                    cfg) {
                    Err(e) => {},
                    Ok(s2) => {
                        let rest = spec_apply_from(
                            s2,
                            blocks,
                            i + 1,
                            entries,
                            adv.pos,
                            strategy,
                            vbr,
                            cfg,
                            target,
                        );
                        lemma_apply_from_miss_iff(
                            s2,
                            blocks,
                            i + 1,
                            entries,
                            adv.pos,
                            strategy,
                            vbr,
                            cfg,
                            target,
                        );
                        lemma_computed_concat(adv.events, rest.events);
                    },
                }
            },
        }
    }
}

/// The state-root miss flag is set if and only if at least one slot
/// advancement fell through to direct recomputation.
pub proof fn lemma_state_root_miss_iff_recomputed(
    s: StateModel,
    blocks: Seq<BlockModel>,
    entries: Option<Seq<SlotRootModel>>,
    pos: int,
    strategy: BlockSignatureStrategy,
    vbr: Option<VerifyBlockRoot>,
    cfg: ChainConfigModel,
    target: Option<u64>,
)
    ensures
        ({
            let o = spec_apply(s, blocks, entries, pos, strategy, vbr, cfg, target);
            o.miss <==> some_event_computed(o.events)
        }),
{
    lemma_apply_from_miss_iff(
        s,
        blocks,
        crate::replay::spec_start_index(s, blocks),
        entries,
        pos,
        strategy,
        vbr,
        cfg,
        target,
    );
}

proof fn lemma_advance_target_ok(
    s: StateModel,
    blocks: Seq<BlockModel>,
    i: int,
    entries: Option<Seq<SlotRootModel>>,
    pos: int,
    t: u64,
)
    requires
        s.slot <= t,
    ensures
        ({
            let o = spec_advance_to(s, blocks, i, entries, pos, t, false);
            &&& o.result is Ok
            &&& o.result->Ok_0.slot == t
            &&& forall|j: int| 0 <= j < o.events.len() ==> o.events[j].skipped
        }),
    decreases t - s.slot,
{
    let o = spec_advance_to(s, blocks, i, entries, pos, t, false);
    if s.slot >= t {
    } else {
        let (root, pos1, src) = spec_resolve_root(s, blocks, i, entries, pos);
        let s1 = spec_slot_tx(s, root)->Ok_0;
        let ev = SlotEvent { slot: s.slot, root, source: src, skipped: true };
        let rest = spec_advance_to(s1, blocks, i, entries, pos1, t, false);
        lemma_advance_target_ok(s1, blocks, i, entries, pos1, t);
        assert forall|j: int| 0 <= j < o.events.len() implies o.events[j].skipped by {
            if j >= 1 {
                assert(o.events[j] == rest.events[j - 1]);
            }
        }
    }
}

/// Applying an empty block list with a target slot always succeeds and
/// produces a state at exactly the target slot, with every advanced slot
/// reported as skipped.
pub proof fn lemma_empty_blocks_reaches_target(
    s: StateModel,
    entries: Option<Seq<SlotRootModel>>,
    pos: int,
    strategy: BlockSignatureStrategy,
    vbr: Option<VerifyBlockRoot>,
    cfg: ChainConfigModel,
    t: u64,
)
    requires
        s.slot <= t,
    ensures
        ({
            let o = spec_apply(
                s,
                Seq::<BlockModel>::empty(),
                entries,
                pos,
                strategy,
                vbr,
                cfg,
                Some(t),
            );
            &&& o.result is Ok
            &&& o.result->Ok_0.slot == t
            &&& forall|j: int| 0 <= j < o.events.len() ==> o.events[j].skipped
        }),
{
    lemma_advance_target_ok(s, Seq::<BlockModel>::empty(), 0, entries, pos, t);
}

proof fn lemma_block_tx_policy(
    s: StateModel,
    b: BlockModel,
    ctxt: ConsensusContext,
    cfg: ChainConfigModel,
    strategy2: BlockSignatureStrategy,
    decision2: VerifyBlockRoot,
)
    requires
        spec_block_tx(
            s,
            b,
            BlockSignatureStrategy::VerifyBulk,
            VerifyBlockRoot::True,
            ctxt,
            cfg,
        ) is Ok,
    ensures
        spec_block_tx(s, b, strategy2, decision2, ctxt, cfg) == spec_block_tx(
            s,
            b,
            BlockSignatureStrategy::VerifyBulk,
            VerifyBlockRoot::True,
            ctxt,
            cfg,
        ),
{
}

proof fn lemma_apply_from_policy(
    s: StateModel,
    blocks: Seq<BlockModel>,
    i: int,
    entries: Option<Seq<SlotRootModel>>,
    pos: int,
    strategy2: BlockSignatureStrategy,
    vbr2: Option<VerifyBlockRoot>,
    cfg: ChainConfigModel,
    target: Option<u64>,
)
    requires
        spec_apply_from(
            s,
            blocks,
            i,
            entries,
            pos,
            BlockSignatureStrategy::VerifyBulk,
            Some(VerifyBlockRoot::True),
            cfg,
            target,
        ).result is Ok,
    ensures
        spec_apply_from(s, blocks, i, entries, pos, strategy2, vbr2, cfg, target)
            == spec_apply_from(
            s,
            blocks,
            i,
            entries,
            pos,
            BlockSignatureStrategy::VerifyBulk,
            Some(VerifyBlockRoot::True),
            cfg,
            target,
        ),
    decreases blocks.len() - i,
{
    let a = spec_apply_from(
        s,
        blocks,
        i,
        entries,
        pos,
        BlockSignatureStrategy::VerifyBulk,
        Some(VerifyBlockRoot::True),
        cfg,
        target,
    );
    let b = spec_apply_from(s, blocks, i, entries, pos, strategy2, vbr2, cfg, target);
    if i < 0 || i >= blocks.len() {
    } else {
        let adv = spec_advance_to(s, blocks, i, entries, pos, blocks[i].slot, true);
        match adv.result {
            Err(e) => {},
            Ok(s1) => {
                let ctxt = ConsensusContext {
                    slot: blocks[i].slot,
                    proposer_index: Some(blocks[i].proposer_index),
                };
                let strict = spec_block_tx(
                    s1,
                    blocks[i],
                    BlockSignatureStrategy::VerifyBulk,
                    VerifyBlockRoot::True,
                    ctxt,
                    cfg,
                );
                match strict {
                    Err(e) => {},
                    Ok(s2) => {
                        lemma_block_tx_policy(
                            s1,
                            blocks[i],
                            ctxt,
                            cfg,
                            strategy2,
                            spec_root_decision(vbr2, i),
                        );
                        lemma_apply_from_policy(
                            s2,
                            blocks,
                            i + 1,
                            entries,
                            adv.pos,
                            strategy2,
                            vbr2,
                            cfg,
                            target,
                        );
                    },
                }
            },
        }
    }
}

/// When replay of a block list succeeds under the default policy — bulk
/// signature verification and full block-root verification — then any
/// other policy, including no signature verification with an explicit
/// `False` root decision, produces the very same outcome: the strategies
/// affect verification work, not the transition outcome.
pub proof fn lemma_policy_does_not_change_outcome(
    s: StateModel,
    blocks: Seq<BlockModel>,
    entries: Option<Seq<SlotRootModel>>,
    pos: int,
    strategy2: BlockSignatureStrategy,
    vbr2: Option<VerifyBlockRoot>,
    cfg: ChainConfigModel,
    target: Option<u64>,
)
    requires
        spec_apply(
            s,
            blocks,
            entries,
            pos,
            BlockSignatureStrategy::VerifyBulk,
            Some(VerifyBlockRoot::True),
            cfg,
            target,
        ).result is Ok,
    ensures
        spec_apply(s, blocks, entries, pos, strategy2, vbr2, cfg, target) == spec_apply(
            s,
            blocks,
            entries,
            pos,
            BlockSignatureStrategy::VerifyBulk,
            Some(VerifyBlockRoot::True),
            cfg,
            target,
        ),
{
    lemma_apply_from_policy(
        s,
        blocks,
        crate::replay::spec_start_index(s, blocks),
        entries,
        pos,
        strategy2,
        vbr2,
        cfg,
        target,
    );
}

/// The per-slot roots a replay resolved, as source entries: what a
/// state-root source must supply to spare every recomputation.
pub open spec fn roots_of_events(events: Seq<SlotEvent>) -> Seq<SlotRootModel> {
    events.map_values(|e: SlotEvent| SlotRootModel { root: e.root, slot: e.slot })
}

proof fn lemma_deposits_keep_slot(
    s: StateModel,
    deps: Seq<crate::block::DepositModel>,
    cfg: ChainConfigModel,
)
    ensures
        crate::transition::spec_apply_deposits(s, deps, cfg) matches Ok(s1) ==> s1.slot == s.slot,
    decreases deps.len(),
{
    if deps.len() == 0 {
    } else {
        match crate::transition::spec_apply_deposit(s, deps[0], cfg) {
            Err(e) => {},
            Ok(sx) => {
                lemma_deposits_keep_slot(sx, deps.drop_first(), cfg);
            },
        }
    }
}

proof fn lemma_advance_event_slots(
    s: StateModel,
    blocks: Seq<BlockModel>,
    i: int,
    entries: Option<Seq<SlotRootModel>>,
    pos: int,
    to_slot: u64,
    at_block: bool,
)
    ensures
        ({
            let o = spec_advance_to(s, blocks, i, entries, pos, to_slot, at_block);
            &&& forall|j: int| 0 <= j < o.events.len() ==> o.events[j].slot >= s.slot
            &&& (o.result matches Ok(sx) ==> sx.slot >= s.slot)
        }),
    decreases to_slot - s.slot,
{
    let o = spec_advance_to(s, blocks, i, entries, pos, to_slot, at_block);
    if s.slot >= to_slot {
    } else {
        let (root, pos1, src) = spec_resolve_root(s, blocks, i, entries, pos);
        match spec_slot_tx(s, root) {
            Err(e) => {},
            Ok(s1) => {
                let rest = spec_advance_to(s1, blocks, i, entries, pos1, to_slot, at_block);
                lemma_advance_event_slots(s1, blocks, i, entries, pos1, to_slot, at_block);
                assert forall|j: int| 0 <= j < o.events.len() implies o.events[j].slot
                    >= s.slot by {
                    if j >= 1 {
                        assert(o.events[j] == rest.events[j - 1]);
                    }
                }
            },
        }
    }
}

proof fn lemma_apply_from_event_slots(
    s: StateModel,
    blocks: Seq<BlockModel>,
    i: int,
    entries: Option<Seq<SlotRootModel>>,
    pos: int,
    strategy: BlockSignatureStrategy,
    vbr: Option<VerifyBlockRoot>,
    cfg: ChainConfigModel,
    target: Option<u64>,
)
    ensures
        ({
            let o = spec_apply_from(s, blocks, i, entries, pos, strategy, vbr, cfg, target);
            forall|j: int| 0 <= j < o.events.len() ==> o.events[j].slot >= s.slot
        }),
    decreases blocks.len() - i,
{
    let o = spec_apply_from(s, blocks, i, entries, pos, strategy, vbr, cfg, target);
    if i < 0 || i >= blocks.len() {
        match target {
            None => {},
            Some(t) => {
                lemma_advance_event_slots(s, blocks, blocks.len() as int, entries, pos, t, false);
            },
        }
    } else {
        let adv = spec_advance_to(s, blocks, i, entries, pos, blocks[i].slot, true);
        lemma_advance_event_slots(s, blocks, i, entries, pos, blocks[i].slot, true);
        match adv.result {
            Err(e) => {},
            Ok(s1) => {
                let ctxt = ConsensusContext {
                    slot: blocks[i].slot,
                    proposer_index: Some(blocks[i].proposer_index),
                };
                match spec_block_tx(s1, blocks[i], strategy, spec_root_decision(vbr, i), ctxt,
                    cfg) {
                    Err(e) => {},
                    Ok(s2) => {
                        lemma_deposits_keep_slot(s1, blocks[i].deposits, cfg);
                        let rest = spec_apply_from(
                            s2,
                            blocks,
                            i + 1,
                            entries,
                            adv.pos,
                            strategy,
                            vbr,
                            cfg,
                            target,
                        );
                        lemma_apply_from_event_slots(
                            s2,
                            blocks,
                            i + 1,
                            entries,
                            adv.pos,
                            strategy,
                            vbr,
                            cfg,
                            target,
                        );
                        assert forall|j: int| 0 <= j < o.events.len() implies o.events[j].slot
                            >= s.slot by {
                            if j >= adv.events.len() {
                                assert(o.events[j] == rest.events[j - adv.events.len()]);
                            } else {
                                assert(o.events[j] == adv.events[j]);
                            }
                        }
                    },
                }
            },
        }
    }
}

proof fn lemma_advance_none_pos(
    s: StateModel,
    blocks: Seq<BlockModel>,
    i: int,
    pos: int,
    to_slot: u64,
    at_block: bool,
)
    ensures
        spec_advance_to(s, blocks, i, None, pos, to_slot, at_block).pos == pos,
    decreases to_slot - s.slot,
{
    if s.slot >= to_slot {
    } else {
        let (root, pos1, src) = spec_resolve_root(s, blocks, i, None, pos);
        match spec_slot_tx(s, root) {
            Err(e) => {},
            Ok(s1) => {
                lemma_advance_none_pos(s1, blocks, i, pos1, to_slot, at_block);
            },
        }
    }
}

proof fn lemma_advance_transparent(
    s: StateModel,
    blocks: Seq<BlockModel>,
    i: int,
    entries: Seq<SlotRootModel>,
    pos: int,
    to_slot: u64,
    at_block: bool,
)
    requires
        ({
            let b = spec_advance_to(s, blocks, i, None, 0, to_slot, at_block);
            &&& b.result is Ok
            &&& 0 <= pos
            &&& pos + b.events.len() <= entries.len()
            &&& entries.subrange(pos, pos + b.events.len() as int) == roots_of_events(b.events)
            &&& (pos + b.events.len() < entries.len() ==> entries[pos
                + b.events.len()].slot >= to_slot)
        }),
    ensures
        ({
            let b = spec_advance_to(s, blocks, i, None, 0, to_slot, at_block);
            let a = spec_advance_to(s, blocks, i, Some(entries), pos, to_slot, at_block);
            &&& a.result == b.result
            &&& a.pos == pos + b.events.len()
            &&& !a.miss
        }),
    decreases to_slot - s.slot,
{
    let b = spec_advance_to(s, blocks, i, None, 0, to_slot, at_block);
    let a = spec_advance_to(s, blocks, i, Some(entries), pos, to_slot, at_block);
    if s.slot >= to_slot {
    } else {
        let (root_b, pos_b, src_b) = spec_resolve_root(s, blocks, i, None, 0);
        let s1 = spec_slot_tx(s, root_b)->Ok_0;
        let rest_b = spec_advance_to(s1, blocks, i, None, 0, to_slot, at_block);
        assert(entries[pos] == entries.subrange(pos, pos + b.events.len() as int)[0]);
        assert(entries[pos] == roots_of_events(b.events)[0]);
        assert(entries[pos].slot == s.slot && entries[pos].root == root_b);
        let scan = crate::resolver::spec_scan_cursor(entries, pos, s.slot);
        assert(scan == (pos + 1, Some::<Seq<u8>>(root_b)));
        let (root_a, pos_a, src_a) = spec_resolve_root(s, blocks, i, Some(entries), pos);
        assert(root_a == root_b && pos_a == pos + 1 && src_a is Cursor);
        let rest_a = spec_advance_to(s1, blocks, i, Some(entries), pos + 1, to_slot, at_block);
        assert(entries.subrange(pos + 1, pos + 1 + rest_b.events.len() as int)
            =~= roots_of_events(rest_b.events)) by {
            assert forall|k: int| 0 <= k < rest_b.events.len() implies entries[pos + 1 + k]
                == roots_of_events(rest_b.events)[k] by {
                assert(entries[pos + 1 + k] == entries.subrange(
                    pos,
                    pos + b.events.len() as int,
                )[k + 1]);
                assert(b.events[k + 1] == rest_b.events[k]);
            }
        }
        lemma_advance_transparent(s1, blocks, i, entries, pos + 1, to_slot, at_block);
        assert(a.result == rest_a.result && a.pos == rest_a.pos && a.miss == rest_a.miss);
    }
}

proof fn lemma_apply_from_transparent(
    s: StateModel,
    blocks: Seq<BlockModel>,
    i: int,
    entries: Seq<SlotRootModel>,
    pos: int,
    strategy: BlockSignatureStrategy,
    vbr: Option<VerifyBlockRoot>,
    cfg: ChainConfigModel,
    target: Option<u64>,
)
    requires
        ({
            let b = spec_apply_from(s, blocks, i, None, 0, strategy, vbr, cfg, target);
            &&& b.result is Ok
            &&& 0 <= pos
            &&& pos + b.events.len() == entries.len()
            &&& entries.subrange(pos, pos + b.events.len() as int) == roots_of_events(b.events)
        }),
    ensures
        ({
            let b = spec_apply_from(s, blocks, i, None, 0, strategy, vbr, cfg, target);
            let a = spec_apply_from(s, blocks, i, Some(entries), pos, strategy, vbr, cfg, target);
            &&& a.result == b.result
            &&& a.pos == entries.len()
            &&& !a.miss
        }),
    decreases blocks.len() - i,
{
    let b = spec_apply_from(s, blocks, i, None, 0, strategy, vbr, cfg, target);
    let a = spec_apply_from(s, blocks, i, Some(entries), pos, strategy, vbr, cfg, target);
    if i < 0 || i >= blocks.len() {
        match target {
            None => {},
            Some(t) => {
                lemma_advance_transparent(s, blocks, blocks.len() as int, entries, pos, t, false);
            },
        }
    } else {
        let adv_b = spec_advance_to(s, blocks, i, None, 0, blocks[i].slot, true);
        match adv_b.result {
            Err(e) => {},
            Ok(s1) => {
                let ctxt = ConsensusContext {
                    slot: blocks[i].slot,
                    proposer_index: Some(blocks[i].proposer_index),
                };
                match spec_block_tx(s1, blocks[i], strategy, spec_root_decision(vbr, i), ctxt,
                    cfg) {
                    Err(e) => {},
                    Ok(s2) => {
                        let rest_b0 = spec_apply_from(
                            s2,
                            blocks,
                            i + 1,
                            None,
                            0,
                            strategy,
                            vbr,
                            cfg,
                            target,
                        );
                        lemma_advance_none_pos(s, blocks, i, 0, blocks[i].slot, true);
                        assert(adv_b.pos == 0);
                        assert(b.events == adv_b.events + rest_b0.events);
                        assert(entries.subrange(pos, pos + adv_b.events.len() as int)
                            =~= roots_of_events(adv_b.events)) by {
                            assert forall|k: int| 0 <= k < adv_b.events.len() implies entries[pos
                                + k] == roots_of_events(adv_b.events)[k] by {
                                assert(entries[pos + k] == entries.subrange(
                                    pos,
                                    pos + b.events.len() as int,
                                )[k]);
                                assert(b.events[k] == adv_b.events[k]);
                            }
                        }
                        lemma_deposits_keep_slot(s1, blocks[i].deposits, cfg);
                        lemma_apply_from_event_slots(
                            s2,
                            blocks,
                            i + 1,
                            None,
                            0,
                            strategy,
                            vbr,
                            cfg,
                            target,
                        );
                        if pos + adv_b.events.len() < entries.len() {
                            assert(rest_b0.events.len() > 0);
                            assert(entries[pos + adv_b.events.len()] == entries.subrange(
                                pos,
                                pos + b.events.len() as int,
                            )[adv_b.events.len() as int]);
                            assert(b.events[adv_b.events.len() as int] == rest_b0.events[0]);
                            assert(entries[pos + adv_b.events.len()].slot == rest_b0.events[0].slot);
                            assert(rest_b0.events[0].slot >= s2.slot);
                            assert(s2.slot == blocks[i].slot);
                        }
                        lemma_advance_transparent(
                            s,
                            blocks,
                            i,
                            entries,
                            pos,
                            blocks[i].slot,
                            true,
                        );
                        assert(entries.subrange(
                            pos + adv_b.events.len(),
                            pos + adv_b.events.len() + rest_b0.events.len() as int,
                        ) =~= roots_of_events(rest_b0.events)) by {
                            assert forall|k: int| 0 <= k < rest_b0.events.len() implies entries[pos
                                + adv_b.events.len() + k] == roots_of_events(rest_b0.events)[k] by {
                                assert(entries[pos + adv_b.events.len() + k] == entries.subrange(
                                    pos,
                                    pos + b.events.len() as int,
                                )[adv_b.events.len() + k]);
                                assert(b.events[adv_b.events.len() + k] == rest_b0.events[k]);
                            }
                        }
                        lemma_apply_from_transparent(
                            s2,
                            blocks,
                            i + 1,
                            entries,
                            pos + adv_b.events.len() as int,
                            strategy,
                            vbr,
                            cfg,
                            target,
                        );
                    },
                }
            },
        }
    }
}

/// A state-root source that supplies the correct root for every slot the
/// replay advances through changes nothing but the work done: the outcome
/// is the same as with no source at all, and no state-root miss occurs.
pub proof fn lemma_root_source_is_transparent(
    s: StateModel,
    blocks: Seq<BlockModel>,
    strategy: BlockSignatureStrategy,
    vbr: Option<VerifyBlockRoot>,
    cfg: ChainConfigModel,
    target: Option<u64>,
)
    requires
        spec_apply(s, blocks, None, 0, strategy, vbr, cfg, target).result is Ok,
    ensures
        ({
            let b = spec_apply(s, blocks, None, 0, strategy, vbr, cfg, target);
            let a = spec_apply(
                s,
                blocks,
                Some(roots_of_events(b.events)),
                0,
                strategy,
                vbr,
                cfg,
                target,
            );
            &&& a.result == b.result
            &&& !a.miss
        }),
{
    let b = spec_apply(s, blocks, None, 0, strategy, vbr, cfg, target);
    let entries = roots_of_events(b.events);
    assert(entries.subrange(0, entries.len() as int) =~= entries);
    lemma_apply_from_transparent(
        s,
        blocks,
        crate::replay::spec_start_index(s, blocks),
        entries,
        0,
        strategy,
        vbr,
        cfg,
        target,
    );
}

proof fn lemma_apply_from_slot_monotonic(
    s: StateModel,
    blocks: Seq<BlockModel>,
    i: int,
    entries: Option<Seq<SlotRootModel>>,
    pos: int,
    strategy: BlockSignatureStrategy,
    vbr: Option<VerifyBlockRoot>,
    cfg: ChainConfigModel,
    target: Option<u64>,
)
    ensures
        spec_apply_from(s, blocks, i, entries, pos, strategy, vbr, cfg, target).result matches Ok(
            sx,
        ) ==> sx.slot >= s.slot,
    decreases blocks.len() - i,
{
    if i < 0 || i >= blocks.len() {
        match target {
            None => {},
            Some(t) => {
                lemma_advance_event_slots(s, blocks, blocks.len() as int, entries, pos, t, false);
            },
        }
    } else {
        let adv = spec_advance_to(s, blocks, i, entries, pos, blocks[i].slot, true);
        lemma_advance_event_slots(s, blocks, i, entries, pos, blocks[i].slot, true);
        match adv.result {
            Err(e) => {},
            Ok(s1) => {
                let ctxt = ConsensusContext {
                    slot: blocks[i].slot,
                    proposer_index: Some(blocks[i].proposer_index),
                };
                match spec_block_tx(s1, blocks[i], strategy, spec_root_decision(vbr, i), ctxt,
                    cfg) {
                    Err(e) => {},
                    Ok(s2) => {
                        lemma_deposits_keep_slot(s1, blocks[i].deposits, cfg);
                        lemma_apply_from_slot_monotonic(
                            s2,
                            blocks,
                            i + 1,
                            entries,
                            adv.pos,
                            strategy,
                            vbr,
                            cfg,
                            target,
                        );
                    },
                }
            },
        }
    }
}

/// The state's slot never decreases across a replay: whatever blocks are
/// applied and wherever the roots come from, a successful replay leaves
/// the state at or beyond the slot it started from.
pub proof fn lemma_replay_never_rewinds(
    s: StateModel,
    blocks: Seq<BlockModel>,
    entries: Option<Seq<SlotRootModel>>,
    pos: int,
    strategy: BlockSignatureStrategy,
    vbr: Option<VerifyBlockRoot>,
    cfg: ChainConfigModel,
    target: Option<u64>,
)
    ensures
        spec_apply(s, blocks, entries, pos, strategy, vbr, cfg, target).result matches Ok(sx)
            ==> sx.slot >= s.slot,
{
    lemma_apply_from_slot_monotonic(
        s,
        blocks,
        crate::replay::spec_start_index(s, blocks),
        entries,
        pos,
        strategy,
        vbr,
        cfg,
        target,
    );
}

} // verus!
