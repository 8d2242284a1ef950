use vstd::prelude::*;

verus! {

/// A deposit's data payload: what the depositor signed.
#[derive(Debug, Clone, PartialEq, Eq)]
pub struct DepositData {
    /// BLS public key, 48 compressed bytes.
    pub pubkey: Vec<u8>,
    /// Withdrawal credentials, 32 bytes.
    pub withdrawal_credentials: Vec<u8>,
    /// Deposited amount.
    pub amount: u64,
    /// BLS signature over the deposit message, 96 compressed bytes.
    pub signature: Vec<u8>,
}

/// Model of a `DepositData`.
#[verifier::ext_equal]
pub struct DepositDataModel {
    pub pubkey: Seq<u8>,
    pub withdrawal_credentials: Seq<u8>,
    pub amount: u64,
    pub signature: Seq<u8>,
}

impl View for DepositData {
    type V = DepositDataModel;

    open spec fn view(&self) -> DepositDataModel {
        DepositDataModel {
            pubkey: self.pubkey@,
            withdrawal_credentials: self.withdrawal_credentials@,
            amount: self.amount,
            signature: self.signature@,
        }
    }
}

impl DeepView for DepositData {
    type V = DepositDataModel;

    open spec fn deep_view(&self) -> DepositDataModel {
        self.view()
    }
}

/// A deposit: its data plus the Merkle branch that places it in the
/// deposit tree.
#[derive(Debug, Clone, PartialEq, Eq)]
pub struct Deposit {
    /// Sibling hashes from the leaf up, including the deposit-count
    /// mixing level.
    pub proof: Vec<Vec<u8>>,
    pub data: DepositData,
}

/// Model of a `Deposit`.
#[verifier::ext_equal]
pub struct DepositModel {
    pub proof: Seq<Seq<u8>>,
    pub data: DepositDataModel,
}

impl View for Deposit {
    type V = DepositModel;

    open spec fn view(&self) -> DepositModel {
        DepositModel { proof: self.proof.deep_view(), data: self.data@ }
    }
}

impl DeepView for Deposit {
    type V = DepositModel;

    open spec fn deep_view(&self) -> DepositModel {
        self.view()
    }
}

/// An immutable input block: the proposed contents, the slot it targets,
/// its declared post-state root and the proposer's signature.
#[derive(Debug, Clone, PartialEq, Eq)]
pub struct SignedBlock {
    /// The slot this block targets.
    pub slot: u64,
    /// The proposer's index in the validator registry.
    pub proposer_index: u64,
    /// Root of the block this one builds on.
    pub parent_root: Vec<u8>,
    /// The state root this block declares for its post-state.
    pub state_root: Vec<u8>,
    /// Deposits embedded in the block body.
    pub deposits: Vec<Deposit>,
    /// Proposer signature over the block's signing root, 96 bytes.
    pub signature: Vec<u8>,
}

/// Model of a `SignedBlock`.
#[verifier::ext_equal]
pub struct BlockModel {
    pub slot: u64,
    pub proposer_index: u64,
    pub parent_root: Seq<u8>,
    pub state_root: Seq<u8>,
    pub deposits: Seq<DepositModel>,
    pub signature: Seq<u8>,
}

impl View for SignedBlock {
    type V = BlockModel;

    open spec fn view(&self) -> BlockModel {
        BlockModel {
            slot: self.slot,
            proposer_index: self.proposer_index,
            parent_root: self.parent_root@,
            state_root: self.state_root@,
            deposits: self.deposits.deep_view(),
            signature: self.signature@,
        }
    }
}

impl DeepView for SignedBlock {
    type V = BlockModel;

    open spec fn deep_view(&self) -> BlockModel {
        self.view()
    }
}

/// Per-block ephemeral record carrying values block application needs but
/// that replay can supply cheaply.
#[derive(Debug, Clone, PartialEq, Eq)]
pub struct ConsensusContext {
    /// The slot the context was built for.
    pub slot: u64,
    /// Proposer index already known from the block, sparing block
    /// application the recomputation.
    pub proposer_index: Option<u64>,
}

impl ConsensusContext {
    /// A fresh context for `slot`, with no precomputed values.
    pub fn new(slot: u64) -> (r: Self)
        ensures
            r.slot == slot,
            r.proposer_index is None,
    {
        ConsensusContext { slot, proposer_index: None }
    }

    /// Pre-seed the proposer index so block application need not derive it.
    pub fn set_proposer_index(self, proposer_index: u64) -> (r: Self)
        ensures
            r.slot == self.slot,
            r.proposer_index == Some(proposer_index),
    {
        ConsensusContext { slot: self.slot, proposer_index: Some(proposer_index) }
    }
}

} // verus!
