//! Trusted boundary to the cryptographic crates: names for the SHA-256 digest
//! and the AES-256-GCM transformation, and the wrappers that call them.

use vstd::prelude::*;
use aes_gcm::aead::Aead;
use aes_gcm::aead::OsRng;
use aes_gcm::AeadCore;
use aes_gcm::KeyInit;

verus! {

/// What the SHA-256 digest of a byte string is; 32 bytes, a function of the
/// input alone.
pub uninterp spec fn sha256_of(b: Seq<u8>) -> Seq<u8>;

/// What AES-256-GCM encryption produces for a key, nonce and plaintext:
/// the ciphertext with the 16-byte authentication tag appended.
pub uninterp spec fn aes_gcm_enc(key: Seq<u8>, nonce: Seq<u8>, pt: Seq<u8>) -> Seq<u8>;

/// What AES-256-GCM decryption returns for a key, nonce and ciphertext-plus-tag,
/// if the tag verifies.
pub uninterp spec fn aes_gcm_dec(key: Seq<u8>, nonce: Seq<u8>, ct: Seq<u8>) -> Option<Seq<u8>>;

/// Relies on sha2's Sha256::digest: a 32-byte digest of the input alone.
#[verifier::external_body]
pub(crate) fn sha256(b: &[u8]) -> (r: [u8; 32])
    ensures
        r@ == sha256_of(b@),
{
    let hash = <sha2::Sha256 as sha2::Digest>::digest(b);
    hash.into()
}

/// Relies on aes_gcm's Aes256Gcm encrypt: ciphertext is plaintext length plus
/// a 16-byte tag, decrypting it under the same key and nonce returns the
/// plaintext, and encryption fails only when the plaintext is longer than the
/// algorithm's limit of 2^36 bytes.
#[verifier::external_body]
pub(crate) fn aes256gcm_encrypt(key: &[u8], nonce: &[u8], pt: &[u8]) -> (r: Result<Vec<u8>, ()>)
    requires
        key@.len() == 32,
        nonce@.len() == 12,
    ensures
        match r {
            Ok(ct) => {
                &&& ct@ == aes_gcm_enc(key@, nonce@, pt@)
                &&& aes_gcm_dec(key@, nonce@, ct@) == Some(pt@)
                &&& ct@.len() == pt@.len() + 16
            },
            Err(()) => pt@.len() > 0x10_0000_0000u64 as nat,
        },
{
    let cipher = aes_gcm::Aes256Gcm::new_from_slice(key).map_err(|_| ())?;
    let n = aes_gcm::Nonce::from_slice(nonce);
    cipher.encrypt(n, pt).map_err(|_| ())
}

/// Relies on aes_gcm's Aes256Gcm decrypt: deterministic in the key, nonce and
/// ciphertext; returns the plaintext exactly when the authentication tag
/// verifies.
#[verifier::external_body]
pub(crate) fn aes256gcm_decrypt(key: &[u8], nonce: &[u8], ct: &[u8]) -> (r: Option<Vec<u8>>)
    requires
        key@.len() == 32,
        nonce@.len() == 12,
    ensures
        match r {
            Some(pt) => aes_gcm_dec(key@, nonce@, ct@) == Some(pt@),
            None => aes_gcm_dec(key@, nonce@, ct@) is None,
        },
{
    let cipher = match aes_gcm::Aes256Gcm::new_from_slice(key) {
        Ok(c) => c,
        Err(_) => {
            return None;
        },
    };
    let n = aes_gcm::Nonce::from_slice(nonce);
    cipher.decrypt(n, ct).ok()
}

/// Relies on aes_gcm's generate_nonce over the operating system's secure
/// random source: 12 bytes about which nothing else can be promised. Aborts
/// the process if the operating system's random source fails.
#[verifier::external_body]
pub(crate) fn generate_nonce() -> (r: Vec<u8>)
    ensures
        r@.len() == 12,
{
    let n = aes_gcm::Aes256Gcm::generate_nonce(&mut OsRng);
    n.as_slice().to_vec()
}

/// Relies on std's SystemTime: seconds since the Unix epoch, or nothing when
/// the clock reads before the epoch. The result depends on the wall clock, so
/// nothing is promised of it.
#[verifier::external_body]
pub(crate) fn now_unix_seconds() -> (r: Option<u64>)
{
    std::time::SystemTime::now().duration_since(std::time::UNIX_EPOCH).ok().map(|d| d.as_secs())
}

} // verus!
