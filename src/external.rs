//! Calls into outside crates, with the contracts this library relies on.
use vstd::prelude::*;

verus! {

/// The Keccak-256 digest of a byte string.
pub uninterp spec fn keccak_of(b: Seq<u8>) -> Seq<u8>;

/// Relies on `keccak_hash::keccak`: the 32-byte Keccak-256 digest of the
/// bytes, a function of the bytes alone.
#[verifier::external_body]
pub(crate) fn keccak256(b: &[u8]) -> (r: Vec<u8>)
    ensures
        r@ == keccak_of(b@),
        r@.len() == 32,
{
    keccak_hash::keccak(b).0.to_vec()
}

/// Whether a byte string parses as a secp256k1 public key.
pub uninterp spec fn is_secp256k1_public_key(b: Seq<u8>) -> bool;

/// Relies on `secp256k1::PublicKey::from_slice`: whether the bytes parse as a
/// public key, a function of the bytes alone; an empty slice never does.
#[verifier::external_body]
pub(crate) fn parses_as_public_key(b: &[u8]) -> (r: bool)
    ensures
        r == is_secp256k1_public_key(b@),
        b@.len() == 0 ==> !r,
{
    secp256k1::PublicKey::from_slice(b).is_ok()
}

/// Relies on `rand::random`: a value drawn from the thread-local generator;
/// nothing is known of it.
pub assume_specification<T>[ rand::random::<T> ]() -> (r: T)
    where
        rand::distributions::Standard: rand::distributions::Distribution<T>,
;

} // verus!
