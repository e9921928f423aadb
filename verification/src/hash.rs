//! The trusted hash layer: the leaf hash and the two-to-one node hash
//! that the Merkle tree is built from.
//!
//! Both are supplied by the external cryptography library; this module
//! names their results so that the verified code can reason about them
//! as deterministic functions of the input bytes.

use ark_crypto_primitives::crh::sha256::Sha256;
use ark_crypto_primitives::crh::{CRHScheme, TwoToOneCRHScheme};
use vstd::prelude::*;

verus! {

/// The digest the leaf hash assigns to a byte string.
pub uninterp spec fn leaf_hash_of(input: Seq<u8>) -> Seq<u8>;

/// The digest the two-to-one node hash assigns to an ordered pair of
/// child digests.
pub uninterp spec fn node_hash_of(left: Seq<u8>, right: Seq<u8>) -> Seq<u8>;

/// Relies on `Sha256` as `ark_crypto_primitives::crh::CRHScheme`: its
/// `evaluate` takes no parameters, never fails, and returns the 32-byte
/// digest of the input bytes alone.
#[verifier::external_body]
pub fn leaf_hash(input: &Vec<u8>) -> (r: Vec<u8>)
    ensures
        r@ == leaf_hash_of(input@),
        r@.len() == 32,
{
    <Sha256 as CRHScheme>::evaluate(&(), input.as_slice()).unwrap()
}

/// Relies on `Sha256` as `ark_crypto_primitives::crh::TwoToOneCRHScheme`:
/// its `evaluate` takes no parameters, never fails, and returns the
/// 32-byte digest of the concatenation of the two inputs, a function of
/// those bytes alone.
#[verifier::external_body]
pub fn node_hash(left: &Vec<u8>, right: &Vec<u8>) -> (r: Vec<u8>)
    ensures
        r@ == node_hash_of(left@, right@),
        r@.len() == 32,
{
    <Sha256 as TwoToOneCRHScheme>::evaluate(&(), left.as_slice(), right.as_slice()).unwrap()
}

} // verus!
