//! Trusted boundary to the cryptographic primitives: SHA-256 digests and
//! BIP-340 Schnorr keys and signatures.
//!
//! Every function here is an `external_body` wrapper around one operation of
//! the `sha2` or `secp256k1` crate. Their results are deterministic
//! functions of the arguments, so each is named by an uninterpreted spec
//! function; the contracts state only what the crates' documentation gives.

use sha2::Digest;
use vstd::prelude::*;

verus! {

/// The SHA-256 digest of the UTF-8 encoding of a character sequence.
pub uninterp spec fn sha256_of(s: Seq<char>) -> Seq<u8>;

/// Whether a byte string is a well-formed secret key: 32 bytes, not zero,
/// below the curve order.
pub uninterp spec fn valid_seckey(sk: Seq<u8>) -> bool;

/// The 32-byte x-only public key derived from a secret key.
pub uninterp spec fn pubkey_of(sk: Seq<u8>) -> Seq<u8>;

/// The 64-byte deterministic (no auxiliary randomness) Schnorr signature of
/// a message under a secret key.
pub uninterp spec fn schnorr_sig_of(sk: Seq<u8>, msg: Seq<u8>) -> Seq<u8>;

/// Whether a signature verifies for a message under an x-only public key.
pub uninterp spec fn schnorr_verifies(pk: Seq<u8>, msg: Seq<u8>, sig: Seq<u8>) -> bool;

/// Relies on sha2::Sha256::digest: the 32-byte SHA-256 digest of the
/// string's UTF-8 bytes, a function of the characters alone.
#[verifier::external_body]
pub fn sha256(s: &str) -> (r: Vec<u8>)
    ensures
        r@ == sha256_of(s@),
        r@.len() == 32,
{
    sha2::Sha256::digest(s.as_bytes()).to_vec()
}

/// Relies on secp256k1::SecretKey::from_secret_bytes: it accepts exactly
/// the well-formed 32-byte secret keys.
#[verifier::external_body]
pub fn seckey_is_valid(sk: &Vec<u8>) -> (r: bool)
    ensures
        r == valid_seckey(sk@),
        sk@.len() != 32 ==> !r,
{
    match <[u8; 32]>::try_from(sk.as_slice()) {
        Ok(bytes) => secp256k1::SecretKey::from_secret_bytes(bytes).is_ok(),
        Err(_) => false,
    }
}

/// Relies on secp256k1::SecretKey::x_only_public_key (the key built with
/// SecretKey::from_secret_bytes, the result serialized with
/// XOnlyPublicKey::to_byte_array): the 32-byte x-only public key of a
/// secret key, a function of the key alone.
#[verifier::external_body]
pub fn derive_xonly_pubkey(sk: &Vec<u8>) -> (r: Vec<u8>)
    requires
        sk@.len() == 32,
        valid_seckey(sk@),
    ensures
        r@ == pubkey_of(sk@),
        r@.len() == 32,
{
    let bytes = <[u8; 32]>::try_from(sk.as_slice()).unwrap();
    let key = secp256k1::SecretKey::from_secret_bytes(bytes).unwrap();
    let (xonly, _parity) = key.x_only_public_key();
    xonly.to_byte_array().to_vec()
}

/// Relies on secp256k1::schnorr::sign_no_aux_rand (the keypair built with
/// Keypair::from_secret_key): a 64-byte BIP-340 signature with the
/// deterministic nonce, a function of key and message alone, which
/// verifies under the key's x-only public key.
#[verifier::external_body]
pub fn schnorr_sign(sk: &Vec<u8>, msg: &Vec<u8>) -> (r: Vec<u8>)
    requires
        sk@.len() == 32,
        valid_seckey(sk@),
    ensures
        r@ == schnorr_sig_of(sk@, msg@),
        r@.len() == 64,
        schnorr_verifies(pubkey_of(sk@), msg@, r@),
{
    let bytes = <[u8; 32]>::try_from(sk.as_slice()).unwrap();
    let key = secp256k1::SecretKey::from_secret_bytes(bytes).unwrap();
    let keypair = secp256k1::Keypair::from_secret_key(&key);
    let sig = secp256k1::schnorr::sign_no_aux_rand(msg.as_slice(), &keypair);
    sig.to_byte_array().to_vec()
}

/// Relies on secp256k1::schnorr::verify (the inputs built with
/// XOnlyPublicKey::from_byte_array and Signature::from_byte_array): whether
/// the signature verifies for the message under the public key; false as
/// well when the public key is not a valid 32-byte x coordinate or the
/// signature is not 64 bytes.
#[verifier::external_body]
pub fn schnorr_verify(pk: &Vec<u8>, msg: &Vec<u8>, sig: &Vec<u8>) -> (r: bool)
    ensures
        r == schnorr_verifies(pk@, msg@, sig@),
{
    let Ok(pk_bytes) = <[u8; 32]>::try_from(pk.as_slice()) else { return false };
    let Ok(pubkey) = secp256k1::XOnlyPublicKey::from_byte_array(pk_bytes) else { return false };
    let Ok(sig_bytes) = <[u8; 64]>::try_from(sig.as_slice()) else { return false };
    let signature = secp256k1::schnorr::Signature::from_byte_array(sig_bytes);
    secp256k1::schnorr::verify(&signature, msg.as_slice(), &pubkey).is_ok()
}

} // verus!
