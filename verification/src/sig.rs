//! The trusted signature layer: Schnorr signatures over the Jubjub
//! curve, consumed from the external cryptography library.
//!
//! The scheme's parameters (generator and salt) are derived from a
//! fixed-seed generator inside each wrapper, so every call below works
//! with one and the same parameter set; verification is therefore a
//! deterministic function of the key, message and signature bytes, and
//! is named as such. Keys and signatures cross this boundary in their
//! canonical compressed serialisation: 32 bytes for a public key, 32
//! for a secret key, 64 (two field elements) for a signature.

use ark_crypto_primitives::crh::sha256::Sha256;
use ark_crypto_primitives::signature::schnorr::{Schnorr, SecretKey, Signature};
use ark_crypto_primitives::signature::SignatureScheme;
use ark_ed_on_bls12_381::{EdwardsAffine, EdwardsProjective, Fr};
use ark_serialize::{CanonicalDeserialize, CanonicalSerialize};
use ark_std::rand::rngs::StdRng;
use ark_std::rand::SeedableRng;
use vstd::prelude::*;

verus! {

/// Whether the signature bytes are a valid Schnorr signature on the
/// message under the public-key bytes, with the crate's fixed scheme
/// parameters. Bytes of the wrong shape, or that do not parse as a
/// curve point or two field elements, never verify.
pub uninterp spec fn schnorr_verifies(pk: Seq<u8>, msg: Seq<u8>, sig: Seq<u8>) -> bool;

/// Relies on `Schnorr::keygen` (with `Schnorr::setup` on the fixed
/// seed): it returns a fresh keypair, whose parts serialise compressed
/// to 32 bytes each.
#[verifier::external_body]
pub fn schnorr_keygen(seed: u64) -> (r: (Vec<u8>, Vec<u8>))
    ensures
        r.0@.len() == 32,
        r.1@.len() == 32,
{
    let pp = Schnorr::<EdwardsProjective, Sha256>::setup(&mut StdRng::seed_from_u64(0)).unwrap();
    let mut rng = StdRng::seed_from_u64(seed);
    let (pk, sk) = Schnorr::<EdwardsProjective, Sha256>::keygen(&pp, &mut rng).unwrap();
    let (mut pk_bytes, mut sk_bytes) = (Vec::new(), Vec::new());
    pk.serialize_compressed(&mut pk_bytes).unwrap();
    sk.serialize_compressed(&mut sk_bytes).unwrap();
    (pk_bytes, sk_bytes)
}

/// Relies on `Schnorr::sign` (with `Schnorr::setup` on the fixed seed):
/// it signs the message under the given secret key, drawing its nonce
/// from `seed`. Nothing is promised of the signature beyond its shape;
/// secret-key bytes that do not parse as a scalar yield nothing.
#[verifier::external_body]
pub fn schnorr_sign(sk: &Vec<u8>, msg: &Vec<u8>, seed: u64) -> (r: Option<Vec<u8>>)
    ensures
        match r {
            Some(s) => s@.len() == 64,
            None => true,
        },
{
    let scalar = match Fr::deserialize_compressed(sk.as_slice()) {
        Ok(s) => s,
        Err(_) => return None,
    };
    let pp = Schnorr::<EdwardsProjective, Sha256>::setup(&mut StdRng::seed_from_u64(0)).unwrap();
    let mut rng = StdRng::seed_from_u64(seed);
    let sig = Schnorr::<EdwardsProjective, Sha256>::sign(&pp, &SecretKey(scalar), msg.as_slice(), &mut rng).unwrap();
    let mut out = Vec::new();
    sig.prover_response.serialize_compressed(&mut out).unwrap();
    sig.verifier_challenge.serialize_compressed(&mut out).unwrap();
    Some(out)
}

/// Relies on `Schnorr::verify` (with `Schnorr::setup` on the fixed
/// seed): with one fixed parameter set, the outcome depends on the
/// public-key, message and signature bytes alone.
#[verifier::external_body]
pub fn schnorr_verify(pk: &Vec<u8>, msg: &Vec<u8>, sig: &Vec<u8>) -> (r: bool)
    ensures
        r == schnorr_verifies(pk@, msg@, sig@),
{
    if sig.len() != 64 {
        return false;
    }
    let pp = Schnorr::<EdwardsProjective, Sha256>::setup(&mut StdRng::seed_from_u64(0)).unwrap();
    let pk_point = EdwardsAffine::deserialize_compressed(pk.as_slice());
    let resp = Fr::deserialize_compressed(&sig[0..32]);
    let chal = Fr::deserialize_compressed(&sig[32..64]);
    match (pk_point, resp, chal) {
        (Ok(p), Ok(prover_response), Ok(verifier_challenge)) => {
            let s = Signature { prover_response, verifier_challenge };
            Schnorr::<EdwardsProjective, Sha256>::verify(&pp, &p, msg.as_slice(), &s).unwrap()
        },
        _ => false,
    }
}

} // verus!
