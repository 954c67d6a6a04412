//! The signature scheme: FN-DSA (Falcon) at degree 512, with addresses
//! derived from a hash of the verifying key.

use vstd::prelude::*;
use crate::hashing::{hash_pub_key, ripemd160_of, sha256_of};
use crate::cryptography::falcon512::{generated_signing_key, keygen};
use vstd::utf8::encode_utf8;

verus! {

/// Whether FN-DSA accepts `signature` on `message` under `public_key`.
pub uninterp spec fn fndsa_accepts(public_key: Seq<u8>, message: Seq<u8>, signature: Seq<u8>) -> bool;

/// The encoded verifying key that goes with an encoded FN-DSA signing key, as
/// fn_dsa's `SigningKey::to_verifying_key` writes it.
pub uninterp spec fn verifying_key_of(secret_key: Seq<u8>) -> Seq<u8>;

/// The Base58 script address whose body is `key_hash`.
pub uninterp spec fn address_of(key_hash: Seq<u8>) -> Seq<char>;

/// The body of the address that `address` spells, when it spells one.
pub uninterp spec fn address_body_of(address: Seq<char>) -> Option<Seq<u8>>;

/// Relies on rand_core's `OsRng`: 32 bytes from the operating system's
/// random source.
#[verifier::external_body]
fn random_seed() -> (r: [u8; 32]) {
    let mut seed = [0u8; 32];
    rand_core::RngCore::fill_bytes(&mut rand_core::OsRng, &mut seed);
    seed
}

/// Relies on fn_dsa's `SigningKey::decode` and `SigningKey::sign` (raw message,
/// no domain context): `None` when the key does not decode or signing fails.
/// The signature is randomised; signing retries until the signature meets the
/// norm bound that verification checks. Decoding does not check the hash of
/// the verifying key stored in the signing key, so only for a key that key
/// generation produced does what it returns verify under that verifying key.
#[verifier::external_body]
pub(crate) fn fndsa_sign(secret_key: &[u8], message: &[u8]) -> (r: Option<Vec<u8>>)
    ensures
        generated_signing_key(secret_key@) ==> (r matches Some(sig) ==> fndsa_accepts(
            verifying_key_of(secret_key@),
            message@,
            sig@,
        )),
{
    let mut sk = <fn_dsa::SigningKeyStandard as fn_dsa::SigningKey>::decode(secret_key)?;
    let mut sig = vec![0u8; fn_dsa::signature_size(fn_dsa::SigningKey::get_logn(&sk))];
    fn_dsa::SigningKey::sign(&mut sk, &mut rand_core::OsRng, &fn_dsa::DOMAIN_NONE, &fn_dsa::HASH_ID_RAW, message, &mut sig)?;
    Some(sig)
}

/// Relies on fn_dsa's `VerifyingKey::decode` and `VerifyingKey::verify` (raw
/// message, no domain context); a key that does not decode verifies nothing.
#[verifier::external_body]
pub(crate) fn fndsa_verify(public_key: &[u8], message: &[u8], signature: &[u8]) -> (r: bool)
    ensures
        r == fndsa_accepts(public_key@, message@, signature@),
{
    match <fn_dsa::VerifyingKeyStandard as fn_dsa::VerifyingKey>::decode(public_key) {
        Some(vk) => fn_dsa::VerifyingKey::verify(&vk, signature, &fn_dsa::DOMAIN_NONE, &fn_dsa::HASH_ID_RAW, message),
        None => false,
    }
}

/// Relies on bitcoincash_addr's `Address::encode` with the Base58 scheme, the
/// script hash type and the main network, which cannot fail for that scheme.
/// The text is Base58 digits only; `Address::decode` reads a 20-byte body
/// back from it (25 bytes with version byte 0x05 and checksum).
#[verifier::external_body]
fn encode_address(key_hash: &[u8]) -> (r: String)
    ensures
        r@ == address_of(key_hash@),
        address_text_safe(r@),
        key_hash@.len() == 20 ==> address_body_of(r@) == Some(key_hash@),
{
    let address = bitcoincash_addr::Address::new(
        key_hash.to_vec(),
        bitcoincash_addr::Scheme::Base58,
        bitcoincash_addr::HashType::Script,
        bitcoincash_addr::Network::Main,
    );
    address.encode().unwrap()
}

/// Text the address decoder can be handed without panicking. No byte 0x80,
/// which the Base58 reader indexes past the end of its digit table; and at
/// least ten bytes after every `:`, so that text read as CashAddr whose
/// checksum holds carries enough payload characters for the version byte the
/// decoder reads (shorter payloads make it slice or index out of range).
pub open spec fn address_text_safe(address: Seq<char>) -> bool {
    let b = encode_utf8(address);
    &&& !b.contains(0x80u8)
    &&& forall|i: int| 0 <= i < b.len() && b[i] == 0x3Au8 ==> b.len() - i - 1 >= 10
}

/// The key hash that `address` names: its decoded body, for text the
/// decoder accepts.
pub open spec fn decoded_address(address: Seq<char>) -> Option<Seq<u8>> {
    if address_text_safe(address) {
        address_body_of(address)
    } else {
        None
    }
}

/// Relies on bitcoincash_addr's `Address::decode`: the body of the address
/// that `address` spells, or `None` when it spells none. CashAddr is tried
/// first: text without exactly one `:` or with an unknown prefix, a character
/// outside the charset or a bad checksum is refused before the payload is
/// read, and ten payload characters give at least one payload byte. Base58 is
/// tried next, where only a 0x80 byte panics.
#[verifier::external_body]
fn decode_address(address: &str) -> (r: Option<Vec<u8>>)
    requires
        address_text_safe(address@),
    ensures
        match r {
            Some(b) => address_body_of(address@) == Some(b@),
            None => address_body_of(address@) is None,
        },
{
    match bitcoincash_addr::Address::decode(address) {
        Ok(a) => Some(a.body),
        Err(_) => None,
    }
}

/// The key hash that `address` names, or `None` when it names none.
pub fn parse_address(address: &str) -> (r: Option<Vec<u8>>)
    ensures
        match r {
            Some(b) => decoded_address(address@) == Some(b@),
            None => decoded_address(address@) is None,
        },
{
    let bytes = address.as_bytes();
    let n = bytes.len();
    let mut i: usize = 0;
    while i < n
        invariant
            i <= n == bytes@.len(),
            bytes@ == encode_utf8(address@),
            forall|j: int| 0 <= j < i ==> bytes@[j] != 0x80u8,
            forall|j: int| 0 <= j < i && bytes@[j] == 0x3Au8 ==> n - j - 1 >= 10,
        decreases n - i,
    {
        if bytes[i] == 0x80 || (bytes[i] == 0x3A && n - i - 1 < 10) {
            assert(!address_text_safe(address@)) by {
                if bytes[i as int] == 0x80u8 {
                    assert(encode_utf8(address@)[i as int] == 0x80u8);
                }
            }
            return None;
        }
        i = i + 1;
    }
    assert(!encode_utf8(address@).contains(0x80u8)) by {
        if encode_utf8(address@).contains(0x80u8) {
            let j = choose|j: int| 0 <= j < bytes@.len() && bytes@[j] == 0x80u8;
        }
    }
    decode_address(address)
}

/// An encoded FN-DSA signing key.
#[derive(Debug, Clone, PartialEq)]
pub struct FNDSASecretKey(pub Vec<u8>);

/// An encoded FN-DSA verifying key.
#[derive(Debug, Clone, PartialEq)]
pub struct FNDSAPublicKey(pub Vec<u8>);

/// FN-DSA at degree 512: the one signature scheme of the ledger.
pub struct FNDSAAlgorithm;

/// The address of a verifying key: the encoded hash of the key.
pub open spec fn key_address(public_key: Seq<u8>) -> Seq<char> {
    address_of(ripemd160_of(sha256_of(public_key)))
}

impl FNDSAAlgorithm {
    /// A fresh key pair, drawn from a seed from the operating system.
    pub fn generate_keypair() -> (r: (FNDSASecretKey, FNDSAPublicKey))
        ensures
            (r.1).0@ == verifying_key_of((r.0).0@),
            generated_signing_key((r.0).0@),
    {
        let (sk, vk) = keygen(random_seed());
        (FNDSASecretKey(sk.0), FNDSAPublicKey(vk.0))
    }

    /// The address that outputs paying this key are locked to.
    pub fn get_address(public_key: &FNDSAPublicKey) -> (r: String)
        ensures
            r@ == key_address(public_key.0@),
            decoded_address(r@) == Some(ripemd160_of(sha256_of(public_key.0@))),
    {
        let mut h = crate::codec::copy_bytes(public_key.0.as_slice());
        hash_pub_key(&mut h);
        encode_address(h.as_slice())
    }

    /// A signature on `message`, or `None` when the key cannot sign. For a
    /// generated key, a signature returned verifies under its verifying key.
    pub fn sign(secret_key: &FNDSASecretKey, message: &[u8]) -> (r: Option<Vec<u8>>)
        ensures
            generated_signing_key(secret_key.0@) ==> (r matches Some(sig) ==> fndsa_accepts(
                verifying_key_of(secret_key.0@),
                message@,
                sig@,
            )),
    {
        fndsa_sign(secret_key.0.as_slice(), message)
    }

    /// Whether `signature` is valid on `message` under `public_key`.
    pub fn verify(public_key: &FNDSAPublicKey, message: &[u8], signature: &[u8]) -> (r: bool)
        ensures
            r == fndsa_accepts(public_key.0@, message@, signature@),
    {
        fndsa_verify(public_key.0.as_slice(), message, signature)
    }
}

} // verus!
