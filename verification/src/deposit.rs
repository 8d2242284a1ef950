use vstd::prelude::*;

use crate::bls::{bls_pubkey_decodes, bls_signature_check, bls_signature_decodes, bls_verifies,
    SignatureCheck};
use crate::block::{Deposit, DepositDataModel, DepositData, DepositModel};
use crate::bytes::bytes_eq;
use crate::config::{ChainConfig, ChainConfigModel};
use crate::errors::DepositInvalid;
use crate::merkle::{merkle_proof_ok, verify_merkle_proof};
use crate::roots::{deposit_data_root_of, deposit_data_tree_root, deposit_signing_root,
    deposit_signing_root_of};
use crate::state::{ChainState, StateModel};

verus! {

/// The deposit's key and signature decode and the signature covers the
/// deposit's domain-separated signing root.
pub open spec fn deposit_signature_valid(d: DepositDataModel, cfg: ChainConfigModel) -> bool {
    &&& bls_pubkey_decodes(d.pubkey)
    &&& bls_signature_decodes(d.signature)
    &&& bls_verifies(d.pubkey, d.signature, deposit_signing_root_of(d, cfg))
}

/// The deposit's key or signature bytes do not decode at all.
pub open spec fn deposit_bytes_bad(d: DepositDataModel) -> bool {
    !(bls_pubkey_decodes(d.pubkey) && bls_signature_decodes(d.signature))
}

/// Verify that the deposit's public key signed the deposit's data.
///
/// Fails with `BadBlsBytes` when the raw key or signature bytes cannot be
/// decoded, and with `BadSignature` when they decode but the signature
/// does not cover the domain-separated signing root.
pub fn is_valid_deposit_signature(deposit_data: &DepositData, cfg: &ChainConfig) -> (r: Result<
    (),
    DepositInvalid,
>)
    ensures
        r is Ok <==> deposit_signature_valid(deposit_data@, cfg@),
        r == Err::<(), DepositInvalid>(DepositInvalid::BadBlsBytes) <==> deposit_bytes_bad(
            deposit_data@,
        ),
        r == Err::<(), DepositInvalid>(DepositInvalid::BadSignature) <==> (!deposit_bytes_bad(
            deposit_data@,
        ) && !deposit_signature_valid(deposit_data@, cfg@)),
{
    let msg = deposit_signing_root(deposit_data, cfg);
    match bls_signature_check(&deposit_data.pubkey, &deposit_data.signature, &msg) {
        SignatureCheck::Valid => Ok(()),
        SignatureCheck::InvalidBytes => Err(DepositInvalid::BadBlsBytes),
        SignatureCheck::InvalidSignature => Err(DepositInvalid::BadSignature),
    }
}

/// Index of the first validator whose key equals `pubkey`, if any.
pub open spec fn spec_validator_index(validators: Seq<Seq<u8>>, pubkey: Seq<u8>) -> Option<int>
    decreases validators.len(),
{
    if validators.len() == 0 {
        None
    } else if validators[0] == pubkey {
        Some(0int)
    } else {
        match spec_validator_index(validators.drop_first(), pubkey) {
            None => None,
            Some(i) => Some(i + 1),
        }
    }
}

/// Returns `Some(index)` when `pubkey` already belongs to a validator in
/// the registry, `None` when the deposit would create a new validator.
pub fn get_existing_validator_index(state: &ChainState, pubkey: &Vec<u8>) -> (r: Option<u64>)
    ensures
        r is None <==> spec_validator_index(state@.validators, pubkey@) is None,
        r matches Some(i) ==> spec_validator_index(state@.validators, pubkey@) == Some(i as int),
{
    let mut i: usize = 0;
    proof {
        assert(state@.validators.skip(0) =~= state@.validators);
        assert(state@.validators.len() == state.validators@.len());
    }
    while i < state.validators.len()
        invariant
            i <= state.validators.len(),
            state@.validators.len() == state.validators@.len(),
            spec_validator_index(state@.validators, pubkey@) == match spec_validator_index(
                state@.validators.skip(i as int),
                pubkey@,
            ) {
                None => None::<int>,
                Some(k) => Some(k + i),
            },
        decreases state.validators.len() - i,
    {
        proof {
            assert(state@.validators.skip(i as int)[0] == state@.validators[i as int]);
            assert(state@.validators.skip(i as int).drop_first() =~= state@.validators.skip(
                i as int + 1,
            ));
            assert(state@.validators[i as int] == state.validators@[i as int]@);
        }
        if bytes_eq(&state.validators[i], pubkey) {
            return Some(i as u64);
        }
        i += 1;
    }
    proof {
        assert(state@.validators.skip(state@.validators.len() as int).len() == 0);
    }
    None
}

/// A deposit at `deposit_index` is committed by the state's deposit root:
/// its data's tree root sits at that position under a branch one level
/// deeper than the deposit tree, to account for the count mixing level.
pub open spec fn deposit_merkle_ok(
    s: StateModel,
    d: DepositModel,
    deposit_index: u64,
    cfg: ChainConfigModel,
) -> bool {
    merkle_proof_ok(
        deposit_data_root_of(d.data),
        d.proof,
        (cfg.deposit_contract_tree_depth + 1) as u64,
        deposit_index,
        s.eth1_deposit_root,
    )
}

/// Verify that `deposit` is included in the state's deposit root.
///
/// The deposit index is a parameter so proofs can be checked before their
/// turn to be processed arrives, and in parallel.
pub fn verify_deposit_merkle_proof(
    state: &ChainState,
    deposit: &Deposit,
    deposit_index: u64,
    cfg: &ChainConfig,
) -> (r: Result<(), DepositInvalid>)
    requires
        cfg@.well_formed(),
    ensures
        r is Ok <==> deposit_merkle_ok(state@, deposit@, deposit_index, cfg@),
        r is Err ==> r == Err::<(), DepositInvalid>(DepositInvalid::BadMerkleProof),
{
    let leaf = deposit_data_tree_root(&deposit.data);
    let depth = cfg.deposit_contract_tree_depth + 1;
    if verify_merkle_proof(&leaf, &deposit.proof, depth, deposit_index, &state.eth1_deposit_root) {
        Ok(())
    } else {
        Err(DepositInvalid::BadMerkleProof)
    }
}

} // verus!
