use vstd::prelude::*;

use crate::block::{BlockModel, DepositData, DepositDataModel, SignedBlock};
use crate::bytes::{chunk32, encode_u64_le, make_zero_chunk, take_chunk32, u64_le_bytes, zero_chunk};
use crate::config::{ChainConfig, ChainConfigModel};
use crate::hashing::{hash_pair, hash_pair_of};

verus! {

/// A 64-bit integer as a 32-byte chunk: 8 little-endian bytes, zero-padded.
pub open spec fn u64_chunk(x: u64) -> Seq<u8> {
    u64_le_bytes(x) + Seq::new(24, |i: int| 0u8)
}

/// Root of a 48-byte public key: its two zero-padded chunks, hashed.
pub open spec fn pubkey_root_of(pk: Seq<u8>) -> Seq<u8> {
    hash_pair_of(chunk32(pk, 0), chunk32(pk, 1))
}

/// Root of a 96-byte signature: its three chunks and a zero chunk,
/// merkleized over two levels.
pub open spec fn signature_root_of(sig: Seq<u8>) -> Seq<u8> {
    hash_pair_of(
        hash_pair_of(chunk32(sig, 0), chunk32(sig, 1)),
        hash_pair_of(chunk32(sig, 2), zero_chunk()),
    )
}

/// Tree root of a deposit's data: the deposit-tree leaf.
pub open spec fn deposit_data_root_of(d: DepositDataModel) -> Seq<u8> {
    hash_pair_of(
        hash_pair_of(pubkey_root_of(d.pubkey), chunk32(d.withdrawal_credentials, 0)),
        hash_pair_of(u64_chunk(d.amount), signature_root_of(d.signature)),
    )
}

/// Tree root of the unsigned deposit message: what the depositor signs,
/// before domain separation.
pub open spec fn deposit_message_root_of(d: DepositDataModel) -> Seq<u8> {
    hash_pair_of(
        hash_pair_of(pubkey_root_of(d.pubkey), chunk32(d.withdrawal_credentials, 0)),
        hash_pair_of(u64_chunk(d.amount), zero_chunk()),
    )
}

/// The deposit domain: a fixed 4-byte tag, then the first 28 bytes of the
/// fork-data root.
pub open spec fn deposit_domain_of(cfg: ChainConfigModel) -> Seq<u8> {
    seq![3u8, 0u8, 0u8, 0u8] + hash_pair_of(chunk32(cfg.fork_version, 0), zero_chunk()).take(28)
}

/// The domain-separated root a deposit's signature is verified against.
pub open spec fn deposit_signing_root_of(d: DepositDataModel, cfg: ChainConfigModel) -> Seq<u8> {
    hash_pair_of(deposit_message_root_of(d), deposit_domain_of(cfg))
}

/// Tree root of a block's contents, without its signature: the block's
/// identity, and the message its proposer signs.
pub open spec fn block_root_of(b: BlockModel) -> Seq<u8> {
    hash_pair_of(
        hash_pair_of(u64_chunk(b.slot), u64_chunk(b.proposer_index)),
        hash_pair_of(chunk32(b.parent_root, 0), chunk32(b.state_root, 0)),
    )
}

/// A 64-bit integer as a 32-byte little-endian chunk.
pub fn u64_to_chunk(x: u64) -> (r: Vec<u8>)
    ensures
        r@ == u64_chunk(x),
{
    let mut out = encode_u64_le(x);
    let mut i: usize = 0;
    proof {
        assert(out@ =~= u64_le_bytes(x) + Seq::new(0nat, |j: int| 0u8));
    }
    while i < 24
        invariant
            i <= 24,
            out@ == u64_le_bytes(x) + Seq::new(i as nat, |j: int| 0u8),
        decreases 24 - i,
    {
        out.push(0u8);
        proof {
            assert(out@ =~= u64_le_bytes(x) + Seq::new(i as nat + 1, |j: int| 0u8));
        }
        i += 1;
    }
    proof {
        assert(out@ =~= u64_chunk(x));
    }
    out
}

/// Tree root of a deposit's data, as committed in the deposit tree.
pub fn deposit_data_tree_root(d: &DepositData) -> (r: Vec<u8>)
    ensures
        r@ == deposit_data_root_of(d@),
{
    let zero = make_zero_chunk();
    let pk_root = hash_pair(&take_chunk32(&d.pubkey, 0), &take_chunk32(&d.pubkey, 1));
    let wc = take_chunk32(&d.withdrawal_credentials, 0);
    let sig_root = hash_pair(
        &hash_pair(&take_chunk32(&d.signature, 0), &take_chunk32(&d.signature, 1)),
        &hash_pair(&take_chunk32(&d.signature, 2), &zero),
    );
    hash_pair(&hash_pair(&pk_root, &wc), &hash_pair(&u64_to_chunk(d.amount), &sig_root))
}

/// The domain-separated root the deposit's signature must cover.
pub fn deposit_signing_root(d: &DepositData, cfg: &ChainConfig) -> (r: Vec<u8>)
    ensures
        r@ == deposit_signing_root_of(d@, cfg@),
{
    let zero = make_zero_chunk();
    let pk_root = hash_pair(&take_chunk32(&d.pubkey, 0), &take_chunk32(&d.pubkey, 1));
    let wc = take_chunk32(&d.withdrawal_credentials, 0);
    let message_root = hash_pair(
        &hash_pair(&pk_root, &wc),
        &hash_pair(&u64_to_chunk(d.amount), &zero),
    );
    let fork_data_root = hash_pair(&take_chunk32(&cfg.fork_version, 0), &zero);
    let mut domain: Vec<u8> = Vec::new();
    domain.push(3u8);
    domain.push(0u8);
    domain.push(0u8);
    domain.push(0u8);
    let mut i: usize = 0;
    proof {
        assert(domain@ =~= seq![3u8, 0u8, 0u8, 0u8] + fork_data_root@.take(0));
    }
    while i < 28
        invariant
            i <= 28,
            fork_data_root@.len() == 32,
            fork_data_root@ == hash_pair_of(chunk32(cfg@.fork_version, 0), zero_chunk()),
            domain@ == seq![3u8, 0u8, 0u8, 0u8] + fork_data_root@.take(i as int),
        decreases 28 - i,
    {
        domain.push(fork_data_root[i]);
        proof {
            assert(domain@ =~= seq![3u8, 0u8, 0u8, 0u8] + fork_data_root@.take(i as int + 1));
        }
        i += 1;
    }
    proof {
        assert(domain@ =~= deposit_domain_of(cfg@));
    }
    hash_pair(&message_root, &domain)
}

/// Tree root of a block's contents: its identity and signing message.
pub fn block_root(b: &SignedBlock) -> (r: Vec<u8>)
    ensures
        r@ == block_root_of(b@),
{
    hash_pair(
        &hash_pair(&u64_to_chunk(b.slot), &u64_to_chunk(b.proposer_index)),
        &hash_pair(&take_chunk32(&b.parent_root, 0), &take_chunk32(&b.state_root, 0)),
    )
}

} // verus!
