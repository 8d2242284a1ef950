use vstd::prelude::*;

verus! {

/// How block signatures are treated during replay.
#[derive(Debug, Clone, Copy, PartialEq, Eq, Structural)]
pub enum BlockSignatureStrategy {
    /// Verify the proposer signature of every block.
    VerifyBulk,
    /// Skip signature verification: only for blocks already known valid.
    NoVerification,
}

/// Whether a block's root (its ancestry link) is checked before application.
#[derive(Debug, Clone, Copy, PartialEq, Eq, Structural)]
pub enum VerifyBlockRoot {
    True,
    False,
}

/// Immutable chain parameters that the transition functions consult.
#[derive(Debug, Clone, PartialEq, Eq)]
pub struct ChainConfig {
    /// Depth of the deposit contract's Merkle tree, without the
    /// deposit-count mixing level.
    pub deposit_contract_tree_depth: u64,
    /// Number of slots in an epoch; must be positive.
    pub slots_per_epoch: u64,
    /// Fork version mixed into the deposit signing domain.
    pub fork_version: Vec<u8>,
}

/// Mathematical model of a `ChainConfig`.
#[verifier::ext_equal]
pub struct ChainConfigModel {
    pub deposit_contract_tree_depth: u64,
    pub slots_per_epoch: u64,
    pub fork_version: Seq<u8>,
}

impl View for ChainConfig {
    type V = ChainConfigModel;

    open spec fn view(&self) -> ChainConfigModel {
        ChainConfigModel {
            deposit_contract_tree_depth: self.deposit_contract_tree_depth,
            slots_per_epoch: self.slots_per_epoch,
            fork_version: self.fork_version@,
        }
    }
}

impl ChainConfigModel {
    /// A configuration the transition functions can work under.
    pub open spec fn well_formed(self) -> bool {
        &&& self.slots_per_epoch > 0
        &&& self.deposit_contract_tree_depth < u64::MAX
    }
}

/// Summary handed to the post-slot hook when an epoch boundary was crossed.
#[derive(Debug, Clone, Copy, PartialEq, Eq, Structural)]
pub struct EpochSummary {
    /// The epoch that was entered.
    pub epoch: u64,
}

} // verus!
