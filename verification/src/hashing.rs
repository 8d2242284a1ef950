use vstd::prelude::*;

verus! {

pub uninterp spec fn hash_pair_of(a: Seq<u8>, b: Seq<u8>) -> Seq<u8>;

/// Relies on ethereum_hashing::hash32_concat: the SHA-256 digest of the
/// concatenation of the two inputs, a function of the input bytes alone,
/// always 32 bytes long.
#[verifier::external_body]
pub fn hash_pair(a: &Vec<u8>, b: &Vec<u8>) -> (r: Vec<u8>)
    ensures
        r@ == hash_pair_of(a@, b@),
        r@.len() == 32,
{
    ethereum_hashing::hash32_concat(a.as_slice(), b.as_slice()).to_vec()
}

} // verus!
