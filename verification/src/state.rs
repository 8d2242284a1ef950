use vstd::prelude::*;

verus! {

/// The full mutable state of the chain at a given slot.
///
/// The replay engine owns a value of this type for the engine's lifetime,
/// mutates it in place across slot and block steps, and hands it back when
/// replay completes.
#[derive(Debug, Clone, PartialEq, Eq)]
pub struct ChainState {
    /// The current slot; never decreases across the engine's lifetime.
    pub slot: u64,
    /// Slot of the last block applied to this state.
    pub latest_block_slot: u64,
    /// Root of the last block applied to this state.
    pub latest_block_root: Vec<u8>,
    /// Rolling commitment over the validator registry.
    pub registry_root: Vec<u8>,
    /// Public key of each validator, in registration order.
    pub validators: Vec<Vec<u8>>,
    /// Balance of each validator, index-aligned with `validators`.
    pub balances: Vec<u64>,
    /// The deposit-root commitment deposits are verified against.
    pub eth1_deposit_root: Vec<u8>,
    /// Number of deposits applied so far: the next deposit's tree position.
    pub eth1_deposit_index: u64,
    /// Per-slot state roots recorded while advancing.
    pub state_roots: Vec<Vec<u8>>,
}

/// Mathematical model of a `ChainState`.
#[verifier::ext_equal]
pub struct StateModel {
    pub slot: u64,
    pub latest_block_slot: u64,
    pub latest_block_root: Seq<u8>,
    pub registry_root: Seq<u8>,
    pub validators: Seq<Seq<u8>>,
    pub balances: Seq<u64>,
    pub eth1_deposit_root: Seq<u8>,
    pub eth1_deposit_index: u64,
    pub state_roots: Seq<Seq<u8>>,
}

impl View for ChainState {
    type V = StateModel;

    open spec fn view(&self) -> StateModel {
        StateModel {
            slot: self.slot,
            latest_block_slot: self.latest_block_slot,
            latest_block_root: self.latest_block_root@,
            registry_root: self.registry_root@,
            validators: self.validators.deep_view(),
            balances: self.balances@,
            eth1_deposit_root: self.eth1_deposit_root@,
            eth1_deposit_index: self.eth1_deposit_index,
            state_roots: self.state_roots.deep_view(),
        }
    }
}

impl StateModel {
    /// Registry and balances stay index-aligned.
    pub open spec fn well_formed(self) -> bool {
        self.validators.len() == self.balances.len()
    }
}

} // verus!
