use vstd::prelude::*;

use crate::bytes::bytes_eq;
use crate::hashing::{hash_pair, hash_pair_of};

verus! {

/// Root obtained by hashing `leaf` up a Merkle branch: at each level the
/// current node is combined with the next sibling, on the side that bit of
/// `index` selects.
pub open spec fn merkle_root_from_branch_of(leaf: Seq<u8>, branch: Seq<Seq<u8>>, index: u64) -> Seq<
    u8,
>
    decreases branch.len(),
{
    if branch.len() == 0 {
        leaf
    } else {
        let next = if index % 2 == 1 {
            hash_pair_of(branch[0], leaf)
        } else {
            hash_pair_of(leaf, branch[0])
        };
        merkle_root_from_branch_of(next, branch.drop_first(), (index / 2) as u64)
    }
}

/// A branch of `depth` siblings carries `leaf` at position `index` to `root`.
pub open spec fn merkle_proof_ok(
    leaf: Seq<u8>,
    branch: Seq<Seq<u8>>,
    depth: u64,
    index: u64,
    root: Seq<u8>,
) -> bool {
    &&& branch.len() == depth
    &&& merkle_root_from_branch_of(leaf, branch, index) == root
}

/// Hash `leaf` up the sibling `branch`, using `index` to pick sides.
pub fn merkle_root_from_branch(leaf: &Vec<u8>, branch: &Vec<Vec<u8>>, index: u64) -> (r: Vec<u8>)
    ensures
        r@ == merkle_root_from_branch_of(leaf@, branch.deep_view(), index),
{
    let mut node: Vec<u8> = leaf.clone();
    let mut idx: u64 = index;
    let mut i: usize = 0;
    proof {
        assert(node@ == leaf@);
        assert(branch.deep_view().skip(0) =~= branch.deep_view());
    }
    while i < branch.len()
        invariant
            i <= branch.len(),
            merkle_root_from_branch_of(leaf@, branch.deep_view(), index)
                == merkle_root_from_branch_of(node@, branch.deep_view().skip(i as int), idx),
        decreases branch.len() - i,
    {
        proof {
            assert(branch.deep_view().skip(i as int)[0] == branch@[i as int]@);
            assert(branch.deep_view().skip(i as int).drop_first() =~= branch.deep_view().skip(
                i as int + 1,
            ));
        }
        if idx % 2 == 1 {
            node = hash_pair(&branch[i], &node);
        } else {
            node = hash_pair(&node, &branch[i]);
        }
        idx = idx / 2;
        i += 1;
    }
    proof {
        assert(branch.deep_view().skip(branch@.len() as int).len() == 0);
    }
    node
}

/// Check a Merkle inclusion proof: `branch` must have exactly `depth`
/// siblings and carry `leaf` at position `index` to `root`.
pub fn verify_merkle_proof(
    leaf: &Vec<u8>,
    branch: &Vec<Vec<u8>>,
    depth: u64,
    index: u64,
    root: &Vec<u8>,
) -> (r: bool)
    ensures
        r == merkle_proof_ok(leaf@, branch.deep_view(), depth, index, root@),
{
    if branch.len() as u64 != depth {
        proof {
            assert(branch.deep_view().len() == branch@.len());
        }
        return false;
    }
    let computed = merkle_root_from_branch(leaf, branch, index);
    bytes_eq(&computed, root)
}

} // verus!
