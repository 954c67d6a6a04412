//! Falcon-512 (FN-DSA at degree 512) with key pairs derived from a 32-byte
//! seed.

use vstd::prelude::*;
use crate::scheme::{fndsa_accepts, fndsa_sign, fndsa_verify, verifying_key_of};

verus! {

/// The encoded key pair that FN-DSA key generation at degree 512 draws from a
/// ChaCha12 generator seeded with `seed`.
pub uninterp spec fn seeded_keypair_of(seed: Seq<u8>) -> (Seq<u8>, Seq<u8>);

/// `secret_key` is a signing key that key generation produced from some
/// 32-byte seed, so the hash of its verifying key stored in it is consistent.
pub open spec fn generated_signing_key(secret_key: Seq<u8>) -> bool {
    exists|s: Seq<u8>| s.len() == 32 && #[trigger] seeded_keypair_of(s).0 == secret_key
}

/// Relies on fn_dsa's `KeyPairGenerator::keygen` at degree 512, drawing from
/// rand_chacha's `ChaCha12Rng` seeded with `seed`: the same seed gives the
/// same pair, and the verifying key is the one the signing key encodes
/// (`SigningKey::to_verifying_key`).
#[verifier::external_body]
fn fndsa_keygen_seeded(seed: [u8; 32]) -> (r: (Vec<u8>, Vec<u8>))
    ensures
        (r.0@, r.1@) == seeded_keypair_of(seed@),
        r.1@ == verifying_key_of(r.0@),
{
    let mut rng = <rand_chacha::ChaCha12Rng as rand_core::SeedableRng>::from_seed(seed);
    let mut kg = fn_dsa::KeyPairGeneratorStandard::default();
    let mut sk = vec![0u8; fn_dsa::sign_key_size(fn_dsa::FN_DSA_LOGN_512)];
    let mut vk = vec![0u8; fn_dsa::vrfy_key_size(fn_dsa::FN_DSA_LOGN_512)];
    fn_dsa::KeyPairGenerator::keygen(&mut kg, fn_dsa::FN_DSA_LOGN_512, &mut rng, &mut sk, &mut vk);
    (sk, vk)
}

/// An encoded Falcon-512 signing key.
#[derive(Debug, Clone, PartialEq)]
pub struct SecretKey(pub Vec<u8>);

/// An encoded Falcon-512 verifying key.
#[derive(Debug, Clone, PartialEq)]
pub struct PublicKey(pub Vec<u8>);

/// A Falcon-512 signature.
#[derive(Debug, Clone, PartialEq)]
pub struct Signature(pub Vec<u8>);

/// The key pair drawn from `seed`.
pub fn keygen(seed: [u8; 32]) -> (r: (SecretKey, PublicKey))
    ensures
        ((r.0).0@, (r.1).0@) == seeded_keypair_of(seed@),
        (r.1).0@ == verifying_key_of((r.0).0@),
        generated_signing_key((r.0).0@),
{
    let (sk, vk) = fndsa_keygen_seeded(seed);
    assert(seed@.len() == 32 && seeded_keypair_of(seed@).0 == sk@);
    (SecretKey(sk), PublicKey(vk))
}

/// A signature on `msg`, or `None` when `sk` cannot sign. For a generated
/// key, a signature returned verifies under the verifying key of `sk`.
pub fn sign(msg: &[u8], sk: &SecretKey) -> (r: Option<Signature>)
    ensures
        generated_signing_key(sk.0@) ==> (r matches Some(s) ==> fndsa_accepts(verifying_key_of(sk.0@), msg@, s.0@)),
{
    match fndsa_sign(sk.0.as_slice(), msg) {
        Some(s) => Some(Signature(s)),
        None => None,
    }
}

/// Whether `sig` is valid on `msg` under `pk`.
pub fn verify(msg: &[u8], sig: &Signature, pk: &PublicKey) -> (r: bool)
    ensures
        r == fndsa_accepts(pk.0@, msg@, sig.0@),
{
    fndsa_verify(pk.0.as_slice(), msg, sig.0.as_slice())
}

} // verus!
