use vstd::prelude::*;

verus! {

/// Outcome of checking one BLS signature.
#[derive(Debug, Clone, Copy, PartialEq, Eq, Structural)]
pub enum SignatureCheck {
    /// The key or signature bytes do not decode to valid group elements.
    InvalidBytes,
    /// The bytes decode, but the signature does not cover the message.
    InvalidSignature,
    /// The signature verifies.
    Valid,
}

pub uninterp spec fn bls_pubkey_decodes(pk: Seq<u8>) -> bool;

pub uninterp spec fn bls_signature_decodes(sig: Seq<u8>) -> bool;

pub uninterp spec fn bls_verifies(pk: Seq<u8>, sig: Seq<u8>, msg: Seq<u8>) -> bool;

/// Relies on blst's min_pk pipeline, whose results are functions of the
/// input bytes alone: `PublicKey::key_validate` (decode 48 compressed
/// bytes, reject the identity and points off the curve or outside the
/// group), `Signature::sig_validate` (the same for 96 signature bytes),
/// and `Signature::verify` under the standard proof-of-possession
/// ciphersuite tag, which returns `BLST_SUCCESS` exactly when the
/// signature covers the message under the key.
#[verifier::external_body]
pub fn bls_signature_check(pk: &Vec<u8>, sig: &Vec<u8>, msg: &Vec<u8>) -> (r: SignatureCheck)
    ensures
        (r is InvalidBytes) <==> !(bls_pubkey_decodes(pk@) && bls_signature_decodes(sig@)),
        (r is Valid) <==> (bls_pubkey_decodes(pk@) && bls_signature_decodes(sig@) && bls_verifies(
            pk@,
            sig@,
            msg@,
        )),
{
    let public_key = match blst::min_pk::PublicKey::key_validate(pk.as_slice()) {
        Ok(k) => k,
        Err(_) => return SignatureCheck::InvalidBytes,
    };
    let signature = match blst::min_pk::Signature::sig_validate(sig.as_slice(), true) {
        Ok(s) => s,
        Err(_) => return SignatureCheck::InvalidBytes,
    };
    let dst = b"BLS_SIG_BLS12381G2_XMD:SHA-256_SSWU_RO_POP_";
    let err = signature.verify(false, msg.as_slice(), dst, &[], &public_key, false);
    if let blst::BLST_ERROR::BLST_SUCCESS = err {
        SignatureCheck::Valid
    } else {
        SignatureCheck::InvalidSignature
    }
}

} // verus!
