//! Master-password hashing: PBKDF2-HMAC-SHA256 over a hex-encoded salt.

use vstd::prelude::*;
use vstd::string::*;
use crate::codec::{hex_decode, hex_decode_spec, hex_encode, hex_encode_spec, lemma_hex_encode_len};
use crate::crypto::{fill_random, pbkdf2_sha256, pbkdf2_sha256_spec};
use crate::error::AppError;
use crate::text::str_eq;

verus! {

/// PBKDF2 iteration count for the master password.
pub const ITERATIONS: u32 = 100_000;
/// Salt length in bytes.
pub const SALT_LEN: usize = 32;
/// Derived key length in bytes.
pub const KEY_LEN: usize = 32;

/// The stored hash of `password` under the hex salt `salt_hex`, when the
/// salt decodes: the lowercase hex of the derived key.
pub open spec fn password_hash_spec(password: Seq<char>, salt_hex: Seq<char>) -> Option<Seq<char>> {
    match hex_decode_spec(salt_hex) {
        Some(salt) => Some(hex_encode_spec(
            pbkdf2_sha256_spec(vstd::utf8::encode_utf8(password), salt, ITERATIONS, KEY_LEN as nat),
        )),
        None => None,
    }
}

/// Calls `zeroize::Zeroize::zeroize` on a byte vector: the bytes are
/// overwritten with zeros and the vector is left empty.
#[verifier::external_body]
fn wipe(v: &mut Vec<u8>)
    ensures
        final(v)@.len() == 0,
{
    zeroize::Zeroize::zeroize(v)
}

/// A fresh random salt: 32 random bytes, hex-encoded.
pub fn generate_salt() -> (s: String)
    ensures
        exists|b: Seq<u8>| b.len() == SALT_LEN && s@ == hex_encode_spec(b),
{
    let mut salt: Vec<u8> = Vec::new();
    let mut i: usize = 0;
    while i < SALT_LEN
        invariant
            i <= SALT_LEN,
            salt@.len() == i,
        decreases SALT_LEN - i,
    {
        salt.push(0u8);
        i = i + 1;
    }
    fill_random(&mut salt);
    hex_encode(salt.as_slice())
}

/// Derives the hex key for `password` and the hex salt `salt_hex`; a salt
/// that is not valid hex is a parse error.
pub fn derive_key(password: &str, salt_hex: &str) -> (r: Result<String, AppError>)
    ensures
        match password_hash_spec(password@, salt_hex@) {
            Some(h) => r matches Ok(s) && s@ == h,
            None => r matches Err(AppError::Parse(m)) && m@ == "invalid salt"@,
        },
        r matches Ok(s) ==> s@.len() == 2 * KEY_LEN,
{
    let salt = match hex_decode(salt_hex) {
        Some(s) => s,
        None => {
            proof {
                reveal_strlit("invalid salt");
            }
            return Err(AppError::Parse(String::from_str("invalid salt")));
        },
    };
    let mut key = pbkdf2_sha256(password.as_bytes(), salt.as_slice(), ITERATIONS, KEY_LEN);
    let encoded = hex_encode(key.as_slice());
    proof {
        lemma_hex_encode_len(key@);
    }
    wipe(&mut key);
    Ok(encoded)
}

/// The stored form of a master password: same as `derive_key`.
pub fn hash_password(password: &str, salt_hex: &str) -> (r: Result<String, AppError>)
    ensures
        match password_hash_spec(password@, salt_hex@) {
            Some(h) => r matches Ok(s) && s@ == h,
            None => r matches Err(AppError::Parse(m)) && m@ == "invalid salt"@,
        },
        r matches Ok(s) ==> s@.len() == 2 * KEY_LEN,
{
    derive_key(password, salt_hex)
}

/// Whether `password` hashes, under `salt_hex`, to `stored_hash`.
pub fn verify_password(password: &str, salt_hex: &str, stored_hash: &str) -> (r: Result<bool, AppError>)
    ensures
        match password_hash_spec(password@, salt_hex@) {
            Some(h) => r == Ok::<bool, AppError>(h == stored_hash@),
            None => r matches Err(AppError::Parse(m)) && m@ == "invalid salt"@,
        },
{
    let computed = hash_password(password, salt_hex)?;
    Ok(str_eq(computed.as_str(), stored_hash))
}

} // verus!
