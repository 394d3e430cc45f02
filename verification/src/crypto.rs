//! The outside cryptography the file format rests on: key derivation,
//! authenticated encryption and random bytes.

use vstd::prelude::*;

use argon2::{Algorithm, Argon2, Params, Version};
use chacha20poly1305::aead::{Aead, KeyInit, Payload};
use chacha20poly1305::XChaCha20Poly1305;
use rand::rngs::OsRng;
use rand::RngCore;
use sodiumoxide::crypto::aead;
use sodiumoxide::crypto::aead::chacha20poly1305_ietf as ietf;

verus! {

/// The bytes held by an optional byte vector.
pub open spec fn opt_bytes(r: Option<Vec<u8>>) -> Option<Seq<u8>> {
    match r {
        Some(v) => Some(v@),
        None => None,
    }
}

/// What Argon2id (version 0x13, one lane, 32-byte output) gives for a
/// password, a salt, a memory cost in KiB and a number of passes; `None`
/// where the hasher refuses its inputs.
pub uninterp spec fn argon2id_hash(pwd: Seq<u8>, salt: Seq<u8>, m_cost: u32, t_cost: u32) -> Option<Seq<u8>>;

/// Derives a 32-byte key with Argon2id: `Argon2::hash_password_into` of the
/// `argon2` crate. Claimed: the result is the named hash of the arguments and
/// is 32 bytes long; a salt shorter than 8 bytes is refused (the crate's
/// `MIN_SALT_LEN`); and hashing succeeds where the crate's checks pass (a
/// password and a salt of at most `0xFFFF_FFFF` bytes, the salt of at least
/// 8, a memory cost of at least 8 KiB for the one lane and at least one
/// pass). The hasher allocates `m_cost` KiB first; where that memory
/// cannot be had the process aborts, which is not a return.
#[verifier::external_body]
pub(crate) fn argon2id_derive(pwd: &[u8], salt: &[u8], m_cost: u32, t_cost: u32) -> (r: Option<Vec<u8>>)
    ensures
        opt_bytes(r) == argon2id_hash(pwd@, salt@, m_cost, t_cost),
        r matches Some(k) ==> k@.len() == 32,
        salt@.len() < 8 ==> r is None,
        8 <= salt@.len() <= 0xFFFF_FFFF && pwd@.len() <= 0xFFFF_FFFF && m_cost >= 8 && t_cost >= 1 ==> r is Some,
{
    let params = match Params::new(m_cost, t_cost, 1, Some(32)) {
        Ok(p) => p,
        Err(_) => return None,
    };
    let mut key = [0u8; 32];
    match Argon2::new(Algorithm::Argon2id, Version::V0x13, params).hash_password_into(pwd, salt, &mut key) {
        Ok(()) => Some(key.to_vec()),
        Err(_) => None,
    }
}

/// What XChaCha20-Poly1305 encryption gives for a key, a 24-byte nonce, a
/// message and associated data; `None` where the cipher refuses.
pub uninterp spec fn xchacha_seal(key: Seq<u8>, nonce: Seq<u8>, msg: Seq<u8>, aad: Seq<u8>) -> Option<Seq<u8>>;

/// What XChaCha20-Poly1305 decryption gives; `None` where the ciphertext
/// does not authenticate.
pub uninterp spec fn xchacha_open(key: Seq<u8>, nonce: Seq<u8>, ct: Seq<u8>, aad: Seq<u8>) -> Option<Seq<u8>>;

/// Encrypts with XChaCha20-Poly1305: `Aead::encrypt` of the
/// `chacha20poly1305` crate. Claimed: the result is the named encryption;
/// it succeeds for a message of fewer than `0xFFFF_FFFF` blocks of 64 bytes
/// (the crate refuses longer ones, whose block counter would overflow); a
/// ciphertext is the message length plus a 16-byte tag; and, as for every
/// AEAD, decrypting it with the same key, nonce and associated data gives
/// the message back.
#[verifier::external_body]
pub(crate) fn xchacha_encrypt(key: &[u8], nonce: &[u8], msg: &[u8], aad: &[u8]) -> (r: Option<Vec<u8>>)
    requires
        key@.len() == 32,
        nonce@.len() == 24,
    ensures
        opt_bytes(r) == xchacha_seal(key@, nonce@, msg@, aad@),
        msg@.len() < 64 * 0xFFFF_FFFF ==> r is Some,
        r matches Some(c) ==> c@.len() == msg@.len() + 16 && xchacha_open(key@, nonce@, c@, aad@)
            == Some(msg@),
{
    let cipher = XChaCha20Poly1305::new(chacha20poly1305::Key::from_slice(key));
    cipher.encrypt(chacha20poly1305::XNonce::from_slice(nonce), Payload { msg, aad }).ok()
}

/// Decrypts with XChaCha20-Poly1305: `Aead::decrypt` of the
/// `chacha20poly1305` crate. Claimed: the result is the named decryption.
#[verifier::external_body]
pub(crate) fn xchacha_decrypt(key: &[u8], nonce: &[u8], ct: &[u8], aad: &[u8]) -> (r: Option<Vec<u8>>)
    requires
        key@.len() == 32,
        nonce@.len() == 24,
    ensures
        opt_bytes(r) == xchacha_open(key@, nonce@, ct@, aad@),
{
    let cipher = XChaCha20Poly1305::new(chacha20poly1305::Key::from_slice(key));
    cipher.decrypt(chacha20poly1305::XNonce::from_slice(nonce), Payload { msg: ct, aad }).ok()
}

/// Fills `n` bytes from the operating system's random source:
/// `RngCore::try_fill_bytes` on `rand::rngs::OsRng`. Claimed: bytes that
/// come back are `n` of them; what they are, and whether the source
/// answers at all, is left open.
#[verifier::external_body]
pub(crate) fn random_bytes(n: usize) -> (r: Option<Vec<u8>>)
    ensures
        r matches Some(v) ==> v@.len() == n,
{
    let mut v = vec![0u8; n];
    match OsRng.try_fill_bytes(&mut v) {
        Ok(()) => Some(v),
        Err(_) => None,
    }
}

/// What libsodium's scrypt key derivation with the interactive limits gives
/// for a password and a 32-byte salt (32-byte key).
pub uninterp spec fn scrypt_interactive_key(pwd: Seq<u8>, salt: Seq<u8>) -> Seq<u8>;

/// Derives a key with scrypt and the interactive limits:
/// `pwhash::derive_key_interactive` of `sodiumoxide`. Claimed: a key that
/// comes back is the named key and is 32 bytes long. The crate's
/// documentation says the call may fail when memory cannot be had, so
/// nothing is claimed about success.
#[verifier::external_body]
pub(crate) fn scrypt_derive_interactive(pwd: &[u8], salt: &[u8]) -> (r: Option<Vec<u8>>)
    requires
        salt@.len() == 32,
    ensures
        r matches Some(k) ==> k@ == scrypt_interactive_key(pwd@, salt@) && k@.len() == 32,
{
    let salt = match sodiumoxide::crypto::pwhash::Salt::from_slice(salt) {
        Some(s) => s,
        None => return None,
    };
    let mut key = [0u8; 32];
    match sodiumoxide::crypto::pwhash::derive_key_interactive(&mut key, pwd, &salt) {
        Ok(_) => Some(key.to_vec()),
        Err(_) => None,
    }
}

/// What libsodium's scrypt key derivation with the sensitive limits gives
/// for a password and a 32-byte salt (32-byte key).
pub uninterp spec fn scrypt_sensitive_key(pwd: Seq<u8>, salt: Seq<u8>) -> Seq<u8>;

/// Derives a key with scrypt and the sensitive limits:
/// `pwhash::derive_key_sensitive` of `sodiumoxide`. Claimed: a key that
/// comes back is the named key and is 32 bytes long; nothing about success.
#[verifier::external_body]
pub(crate) fn scrypt_derive_sensitive(pwd: &[u8], salt: &[u8]) -> (r: Option<Vec<u8>>)
    requires
        salt@.len() == 32,
    ensures
        r matches Some(k) ==> k@ == scrypt_sensitive_key(pwd@, salt@) && k@.len() == 32,
{
    let salt = match sodiumoxide::crypto::pwhash::Salt::from_slice(salt) {
        Some(s) => s,
        None => return None,
    };
    let mut key = [0u8; 32];
    match sodiumoxide::crypto::pwhash::derive_key_sensitive(&mut key, pwd, &salt) {
        Ok(_) => Some(key.to_vec()),
        Err(_) => None,
    }
}

/// What libsodium's ChaCha20-Poly1305 (IETF, 12-byte nonce) decryption
/// gives; `None` where the ciphertext does not authenticate.
pub uninterp spec fn sodium_ietf_open(key: Seq<u8>, nonce: Seq<u8>, ct: Seq<u8>, aad: Seq<u8>) -> Option<Seq<u8>>;

/// Decrypts with `aead::chacha20poly1305_ietf::open` of `sodiumoxide`.
/// Claimed: the result is the named decryption.
#[verifier::external_body]
pub(crate) fn sodium_ietf_decrypt(key: &[u8], nonce: &[u8], ct: &[u8], aad: &[u8]) -> (r: Option<Vec<u8>>)
    requires
        key@.len() == 32,
        nonce@.len() == 12,
    ensures
        opt_bytes(r) == sodium_ietf_open(key@, nonce@, ct@, aad@),
{
    let (k, n) = match (ietf::Key::from_slice(key), ietf::Nonce::from_slice(nonce)) {
        (Some(k), Some(n)) => (k, n),
        _ => return None,
    };
    ietf::open(ct, Some(aad), &n, &k).ok()
}

/// What libsodium's XChaCha20-Poly1305 (IETF, 24-byte nonce) decryption
/// gives; `None` where the ciphertext does not authenticate.
pub uninterp spec fn sodium_xchacha_open(key: Seq<u8>, nonce: Seq<u8>, ct: Seq<u8>, aad: Seq<u8>) -> Option<Seq<u8>>;

/// Decrypts with `aead::open` of `sodiumoxide` (XChaCha20-Poly1305).
/// Claimed: the result is the named decryption.
#[verifier::external_body]
pub(crate) fn sodium_xchacha_decrypt(key: &[u8], nonce: &[u8], ct: &[u8], aad: &[u8]) -> (r: Option<Vec<u8>>)
    requires
        key@.len() == 32,
        nonce@.len() == 24,
    ensures
        opt_bytes(r) == sodium_xchacha_open(key@, nonce@, ct@, aad@),
{
    let (k, n) = match (aead::Key::from_slice(key), aead::Nonce::from_slice(nonce)) {
        (Some(k), Some(n)) => (k, n),
        _ => return None,
    };
    aead::open(ct, Some(aad), &n, &k).ok()
}

} // verus!
