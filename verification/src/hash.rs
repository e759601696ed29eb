//! Hashes as byte vectors and back.
use vstd::prelude::*;
use sp_core::H256;
use crate::pallet::Pallet;

verus! {

/// `sp_core::H256`, a hash of 32 bytes.
#[verifier::external_type_specification]
#[verifier::external_body]
pub struct ExH256(H256);

/// The 32 bytes that a hash holds, first byte first.
pub uninterp spec fn hash_bytes(hash: H256) -> Seq<u8>;

impl Pallet {
    /// The hash that holds the 32 bytes of `vec_hash`.
    ///
    /// Trusted: `H256::from_slice` copies the slice into a new hash, and
    /// panics on a slice of another length than 32, which is left out.
    #[verifier::external_body]
    pub fn vec_to_hash(vec_hash: Vec<u8>) -> (hash: H256)
        requires
            vec_hash@.len() == 32,
        ensures
            hash_bytes(hash) == vec_hash@,
    {
        H256::from_slice(&vec_hash)
    }

    /// The hash that holds the bytes of `vec_hash`, where there are 32 of
    /// them.
    pub fn try_vec_to_hash(vec_hash: Vec<u8>) -> (hash: Option<H256>)
        ensures
            hash is Some == (vec_hash@.len() == 32),
            hash matches Some(h) ==> hash_bytes(h) == vec_hash@,
    {
        if vec_hash.len() == 32 {
            Some(Self::vec_to_hash(vec_hash))
        } else {
            None
        }
    }

    /// The 32 bytes of `hash` as a vector.
    ///
    /// Trusted: `H256::as_bytes` is the slice of all the bytes that the hash
    /// holds.
    #[verifier::external_body]
    pub fn hash_to_vec(hash: H256) -> (bytes: Vec<u8>)
        ensures
            bytes@ == hash_bytes(hash),
            bytes@.len() == 32,
    {
        hash.as_bytes().to_vec()
    }
}

} // verus!
