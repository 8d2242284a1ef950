use vstd::prelude::*;

use crate::block::BlockModel;
use crate::state::StateModel;
use crate::transition::spec_state_root;

verus! {

/// One entry of a state-root source: the canonical root at a slot.
#[derive(Debug, Clone, PartialEq, Eq)]
pub struct SlotRoot {
    pub root: Vec<u8>,
    pub slot: u64,
}

/// Model of a `SlotRoot`.
#[verifier::ext_equal]
pub struct SlotRootModel {
    pub root: Seq<u8>,
    pub slot: u64,
}

impl View for SlotRoot {
    type V = SlotRootModel;

    open spec fn view(&self) -> SlotRootModel {
        SlotRootModel { root: self.root@, slot: self.slot }
    }
}

impl DeepView for SlotRoot {
    type V = SlotRootModel;

    open spec fn deep_view(&self) -> SlotRootModel {
        self.view()
    }
}

/// A forward-only cursor over a caller-supplied sequence of per-slot
/// roots, non-decreasing in slot, consumed progressively and never
/// rewound.
#[derive(Debug, Clone, PartialEq, Eq)]
pub struct RootCursor {
    pub entries: Vec<SlotRoot>,
    pub pos: usize,
}

impl RootCursor {
    /// The cursor never stands past the end of its entries.
    pub open spec fn wf(self) -> bool {
        self.pos <= self.entries@.len()
    }
}

/// Scan the cursor for `slot`: consume entries at or below `slot` until
/// one matches it exactly (consumed, its root returned) or the next entry
/// lies beyond it (left in place, nothing returned). Returns the new
/// position and the root found, if any.
pub open spec fn spec_scan_cursor(entries: Seq<SlotRootModel>, pos: int, slot: u64) -> (
    int,
    Option<Seq<u8>>,
)
    decreases entries.len() - pos,
{
    if pos < 0 || pos >= entries.len() {
        (pos, None)
    } else if entries[pos].slot > slot {
        (pos, None)
    } else if entries[pos].slot == slot {
        (pos + 1, Some(entries[pos].root))
    } else {
        spec_scan_cursor(entries, pos + 1, slot)
    }
}

/// Scan `entries` from `start` for a root at exactly `slot`, as
/// `spec_scan_cursor` describes.
pub fn scan_entries(entries: &Vec<SlotRoot>, start: usize, slot: u64) -> (r: (
    Option<Vec<u8>>,
    usize,
))
    requires
        start <= entries@.len(),
    ensures
        ({
            let (pos1, found) = spec_scan_cursor(entries.deep_view(), start as int, slot);
            &&& r.1 as int == pos1
            &&& match r.0 {
                Some(v) => found == Some(v@),
                None => found is None,
            }
            &&& start <= r.1 <= entries@.len()
        }),
{
    let mut pos: usize = start;
    while pos < entries.len()
        invariant
            start <= pos <= entries@.len(),
            spec_scan_cursor(entries.deep_view(), start as int, slot) == spec_scan_cursor(
                entries.deep_view(),
                pos as int,
                slot,
            ),
        decreases entries@.len() - pos,
    {
        proof {
            assert(entries.deep_view()[pos as int] == entries@[pos as int]@);
        }
        let entry = &entries[pos];
        if entry.slot > slot {
            return (None, pos);
        }
        if entry.slot == slot {
            let root = entry.root.clone();
            return (Some(root), pos + 1);
        }
        pos += 1;
    }
    (None, pos)
}

/// Which of the three resolution paths produced a state root.
pub enum RootSource {
    /// Consumed from the configured state-root source.
    Cursor,
    /// Reused from the previous block's declared post-state root.
    PrevBlock,
    /// Recomputed from the state itself: a state-root miss.
    Computed,
}

/// Resolve the root needed to advance the state by one slot: first the
/// cursor, then the previous block when it targets the state's slot, and
/// only then direct recomputation. Returns the root, the cursor's new
/// position, and the path taken.
pub open spec fn spec_resolve_root(
    s: StateModel,
    blocks: Seq<BlockModel>,
    i: int,
    entries: Option<Seq<SlotRootModel>>,
    pos: int,
) -> (Seq<u8>, int, RootSource) {
    let scan = match entries {
        Some(es) => spec_scan_cursor(es, pos, s.slot),
        None => (pos, None),
    };
    match scan.1 {
        Some(root) => (root, scan.0, RootSource::Cursor),
        None => if i >= 1 && i - 1 < blocks.len() && blocks[i - 1].slot == s.slot {
            (blocks[i - 1].state_root, scan.0, RootSource::PrevBlock)
        } else {
            (spec_state_root(s), scan.0, RootSource::Computed)
        },
    }
}

} // verus!
