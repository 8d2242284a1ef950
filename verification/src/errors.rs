use vstd::prelude::*;

verus! {

/// Failure of the single-slot transition.
#[derive(Debug, Clone, Copy, PartialEq, Eq, Structural)]
pub enum SlotProcessingError {
    /// The slot counter cannot advance past the largest representable slot.
    SlotOverflow,
}

/// A single deposit's reason for being invalid.
#[derive(Debug, Clone, Copy, PartialEq, Eq, Structural)]
pub enum DepositInvalid {
    /// The public key or signature bytes do not decode to a valid BLS value.
    BadBlsBytes,
    /// The BLS bytes decode, but the signature does not verify.
    BadSignature,
    /// The Merkle inclusion proof does not connect the deposit to the
    /// state's deposit-root commitment.
    BadMerkleProof,
}

/// Inconsistency discovered while reading or updating the chain state.
#[derive(Debug, Clone, Copy, PartialEq, Eq, Structural)]
pub enum StateAccessError {
    /// The validator registry and the balances list differ in length.
    RegistryMismatch,
    /// A per-validator balance cannot hold the deposited amount.
    BalanceOverflow,
    /// The deposit counter cannot be advanced.
    DepositCountOverflow,
}

/// Failure of the per-block transition.
#[derive(Debug, Clone, Copy, PartialEq, Eq, Structural)]
pub enum BlockProcessingError {
    /// The block's declared slot does not match the state's current slot.
    SlotMismatch,
    /// The block targets a slot that already has a block applied.
    StaleBlock,
    /// The block's parent root does not match the last applied block.
    ParentRootMismatch,
    /// The declared proposer index is outside the validator registry.
    UnknownProposer,
    /// The proposer's signature over the block does not verify.
    ProposerSignatureInvalid,
    /// An embedded deposit is invalid.
    InvalidDeposit(DepositInvalid),
    /// A state access inside block processing failed.
    StateAccess(StateAccessError),
}

/// The aggregate error of a replay: one variant per underlying failure kind,
/// each preserving the original cause.
#[derive(Debug, Clone, Copy, PartialEq, Eq, Structural)]
pub enum BlockReplayError {
    SlotProcessing(SlotProcessingError),
    BlockProcessing(BlockProcessingError),
    BeaconState(StateAccessError),
}

impl From<SlotProcessingError> for BlockReplayError {
    fn from(e: SlotProcessingError) -> (r: Self) {
        BlockReplayError::SlotProcessing(e)
    }
}

impl vstd::std_specs::convert::FromSpecImpl<SlotProcessingError> for BlockReplayError {
    open spec fn obeys_from_spec() -> bool {
        true
    }

    open spec fn from_spec(e: SlotProcessingError) -> Self {
        BlockReplayError::SlotProcessing(e)
    }
}

impl From<BlockProcessingError> for BlockReplayError {
    fn from(e: BlockProcessingError) -> (r: Self) {
        BlockReplayError::BlockProcessing(e)
    }
}

impl vstd::std_specs::convert::FromSpecImpl<BlockProcessingError> for BlockReplayError {
    open spec fn obeys_from_spec() -> bool {
        true
    }

    open spec fn from_spec(e: BlockProcessingError) -> Self {
        BlockReplayError::BlockProcessing(e)
    }
}

impl From<StateAccessError> for BlockReplayError {
    fn from(e: StateAccessError) -> (r: Self) {
        BlockReplayError::BeaconState(e)
    }
}

impl vstd::std_specs::convert::FromSpecImpl<StateAccessError> for BlockReplayError {
    open spec fn obeys_from_spec() -> bool {
        true
    }

    open spec fn from_spec(e: StateAccessError) -> Self {
        BlockReplayError::BeaconState(e)
    }
}

} // verus!
