//! Key derivation, authenticated encryption and randomness, each a thin call
//! into the outside crate that provides it.

use vstd::prelude::*;
use aes_gcm::aead::{Aead, KeyInit};
use rand::RngCore;
use sha2::Digest;

verus! {

/// Largest plaintext, in bytes, that AES-256-GCM encrypts (`aes_gcm::P_MAX`).
pub const AES_GCM_MAX_PLAINTEXT: u64 = 0x10_0000_0000;

/// Length in bytes of the authentication tag that AES-256-GCM appends.
pub const AES_GCM_TAG_LEN: usize = 16;

/// PBKDF2-HMAC-SHA256 of `password` and `salt` with `rounds` iterations,
/// producing `len` bytes.
pub uninterp spec fn pbkdf2_sha256_spec(password: Seq<u8>, salt: Seq<u8>, rounds: u32, len: nat) -> Seq<u8>;

/// AES-256-GCM encryption (no associated data) of a plaintext under a key and
/// a nonce: the ciphertext followed by the tag.
pub uninterp spec fn aes_gcm_seal_spec(key: Seq<u8>, nonce: Seq<u8>, plaintext: Seq<u8>) -> Seq<u8>;

/// AES-256-GCM decryption (no associated data): the plaintext when the tag
/// verifies, `None` otherwise.
pub uninterp spec fn aes_gcm_open_spec(key: Seq<u8>, nonce: Seq<u8>, ciphertext: Seq<u8>) -> Option<Seq<u8>>;

/// Calls `pbkdf2::pbkdf2_hmac::<sha2::Sha256>` into a zeroed buffer of
/// `len` bytes. The crate never fails for HMAC (any key length is accepted),
/// so the buffer is always filled.
#[verifier::external_body]
pub(crate) fn pbkdf2_sha256(password: &[u8], salt: &[u8], rounds: u32, len: usize) -> (key: Vec<u8>)
    ensures
        key@ == pbkdf2_sha256_spec(password@, salt@, rounds, len as nat),
        key@.len() == len,
{
    let mut key = vec![0u8; len];
    pbkdf2::pbkdf2_hmac::<sha2::Sha256>(password, salt, rounds, &mut key);
    key
}

/// Calls `Aes256Gcm::encrypt` with a 32-byte key and a 12-byte nonce (other
/// lengths make `GenericArray::from_slice` panic). The crate refuses a
/// plaintext longer than `P_MAX` and otherwise returns the ciphertext with
/// the 16-byte tag appended.
#[verifier::external_body]
pub(crate) fn aes_gcm_encrypt(key: &[u8], nonce: &[u8], plaintext: &[u8]) -> (r: Option<Vec<u8>>)
    requires
        key@.len() == 32,
        nonce@.len() == 12,
    ensures
        r is Some <==> plaintext@.len() <= AES_GCM_MAX_PLAINTEXT,
        r matches Some(c) ==> c@ == aes_gcm_seal_spec(key@, nonce@, plaintext@)
            && c@.len() == plaintext@.len() + AES_GCM_TAG_LEN,
{
    let cipher = aes_gcm::Aes256Gcm::new(aes_gcm::aead::generic_array::GenericArray::from_slice(key));
    let nonce = aes_gcm::aead::generic_array::GenericArray::from_slice(nonce);
    cipher.encrypt(nonce, plaintext).ok()
}

/// Calls `Aes256Gcm::decrypt` with a 32-byte key and a 12-byte nonce. Besides
/// naming its result, states the AEAD correctness the crate documents:
/// decrypting, under the same key and nonce, what encryption produced gives
/// the plaintext back. It also states what the source
/// (`decrypt_in_place_detached`) shows of a success: the tag is recomputed
/// over the encrypted part and must match, and the plaintext is the
/// encrypted part with the counter-mode keystream applied. So a decrypted
/// plaintext (within `P_MAX`) seals back to exactly the input, the input is
/// the plaintext's length plus the 16-byte tag, and no other plaintext's seal
/// has the same encrypted part.
#[verifier::external_body]
pub(crate) fn aes_gcm_decrypt(key: &[u8], nonce: &[u8], ciphertext: &[u8]) -> (r: Option<Vec<u8>>)
    requires
        key@.len() == 32,
        nonce@.len() == 12,
    ensures
        r matches Some(q) ==> ciphertext@.len() == q@.len() + AES_GCM_TAG_LEN,
        r matches Some(q) ==> (q@.len() <= AES_GCM_MAX_PLAINTEXT ==> ciphertext@ == aes_gcm_seal_spec(
            key@,
            nonce@,
            q@,
        )),
        r matches Some(q) ==> forall|p: Seq<u8>|
            p.len() <= AES_GCM_MAX_PLAINTEXT && #[trigger] aes_gcm_seal_spec(key@, nonce@, p).len()
                == ciphertext@.len() && aes_gcm_seal_spec(key@, nonce@, p).subrange(
                0,
                ciphertext@.len() - AES_GCM_TAG_LEN,
            ) == ciphertext@.subrange(0, ciphertext@.len() - AES_GCM_TAG_LEN) ==> p == q@,
        match r {
            Some(q) => aes_gcm_open_spec(key@, nonce@, ciphertext@) == Some(q@)
                && forall|p: Seq<u8>|
                    p.len() <= AES_GCM_MAX_PLAINTEXT && ciphertext@ == #[trigger] aes_gcm_seal_spec(key@, nonce@, p)
                        ==> q@ == p,
            None => aes_gcm_open_spec(key@, nonce@, ciphertext@) is None
                && forall|p: Seq<u8>|
                    p.len() <= AES_GCM_MAX_PLAINTEXT ==> ciphertext@ != #[trigger] aes_gcm_seal_spec(key@, nonce@, p),
        },
{
    let cipher = aes_gcm::Aes256Gcm::new(aes_gcm::aead::generic_array::GenericArray::from_slice(key));
    let nonce = aes_gcm::aead::generic_array::GenericArray::from_slice(nonce);
    cipher.decrypt(nonce, ciphertext).ok()
}

/// Calls `rand::random::<u8>()`: a byte from the thread-local generator.
/// Nothing is promised of its value.
#[verifier::external_body]
pub(crate) fn random_byte() -> u8 {
    rand::random::<u8>()
}

/// Calls `rand::thread_rng().fill_bytes` on `buf`: its length is unchanged,
/// nothing is promised of its contents.
#[verifier::external_body]
pub(crate) fn fill_random(buf: &mut Vec<u8>)
    ensures
        final(buf)@.len() == old(buf)@.len(),
{
    rand::thread_rng().fill_bytes(buf.as_mut_slice())
}

/// `n` bytes drawn one at a time from `random_byte`.
pub fn random_bytes(n: usize) -> (v: Vec<u8>)
    ensures
        v@.len() == n,
{
    let mut v: Vec<u8> = Vec::new();
    let mut i: usize = 0;
    while i < n
        invariant
            i <= n,
            v@.len() == i,
        decreases n - i,
    {
        v.push(random_byte());
        i = i + 1;
    }
    v
}

/// The SHA-256 digest of a byte string.
pub uninterp spec fn sha256_spec(data: Seq<u8>) -> Seq<u8>;

/// Calls `sha2::Sha256::digest`: the digest of `data`, named by
/// `sha256_spec`, 32 bytes long (the output size of `Sha256`).
#[verifier::external_body]
pub(crate) fn sha256(data: &[u8]) -> (d: Vec<u8>)
    ensures
        d@ == sha256_spec(data@),
        d@.len() == 32,
{
    sha2::Sha256::digest(data).to_vec()
}

} // verus!
