use vstd::prelude::*;
use sha2::Digest;

verus! {

/// The 32-byte digest that SHA-256 assigns to the concatenation of two byte
/// strings. Merkleization combines every pair of child nodes through it.
pub uninterp spec fn hash_pair_of(a: Seq<u8>, b: Seq<u8>) -> Seq<u8>;

/// Relies on sha2::Sha256: the digest is 32 bytes long and is a function of
/// the input bytes alone.
#[verifier::external_body]
pub fn hash_pair(a: &Vec<u8>, b: &Vec<u8>) -> (r: Vec<u8>)
    ensures
        r@ == hash_pair_of(a@, b@),
        r@.len() == 32,
{
    let mut hasher = sha2::Sha256::new();
    hasher.update(a.as_slice());
    hasher.update(b.as_slice());
    hasher.finalize().as_slice().to_vec()
}

} // verus!
