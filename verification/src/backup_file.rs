//! The encrypted `.svbak` backup/sync file format and the at-rest encryption
//! of the sync password.
//!
//! A backup file is `MAGIC ‖ version ‖ salt(16) ‖ nonce(12) ‖ ciphertext`,
//! where the ciphertext is AES-256-GCM, under a PBKDF2-HMAC-SHA256 key
//! derived from the sync password and the salt, of the JSON payload (whose
//! serialization is done by the caller). The stored sync password is
//! `base64(salt ‖ nonce ‖ ciphertext)` with the master password as key source.

use vstd::prelude::*;
use vstd::slice::slice_subrange;
use vstd::string::*;
use crate::codec::{base64_decode, base64_decode_spec, base64_encode, base64_encode_spec, utf8_to_string};
use crate::crypto::{
    aes_gcm_decrypt, aes_gcm_encrypt, aes_gcm_open_spec, aes_gcm_seal_spec, pbkdf2_sha256,
    pbkdf2_sha256_spec, random_bytes, AES_GCM_MAX_PLAINTEXT, AES_GCM_TAG_LEN,
};
use crate::error::AppError;

verus! {

/// Name of the application, as it appears in user-facing messages.
pub const APP_NAME: &'static str = "Suvarix";
/// Newest file-format version this build writes and reads.
pub const FORMAT_VERSION: u8 = 3;
/// Salt length in bytes.
pub const SALT_LEN: usize = 16;
/// Nonce length in bytes.
pub const NONCE_LEN: usize = 12;
/// Length of the fixed header: magic, version, salt and nonce.
pub const HEADER_LEN: usize = 33;
/// PBKDF2 iteration count for backup keys.
pub const BACKUP_KDF_ROUNDS: u32 = 100_000;
/// File name the auto-sync scheduler reads and writes inside the sync folder.
pub const SYNC_FILENAME: &'static str = "suvarix-sync.svbak";
/// Setting that records that a peer wrote a newer format than this build reads.
pub const SETTING_SYNC_BLOCKED: &'static str = "sync_blocked_version_mismatch";

/// The four magic bytes `FFBK` that open every backup file.
pub open spec fn magic() -> Seq<u8> {
    seq![70u8, 70u8, 66u8, 75u8]
}

/// The 32-byte key for a password and a salt.
pub open spec fn backup_key(password: Seq<char>, salt: Seq<u8>) -> Seq<u8> {
    pbkdf2_sha256_spec(vstd::utf8::encode_utf8(password), salt, BACKUP_KDF_ROUNDS, 32)
}

/// The bytes of a backup file holding `payload` encrypted with `password`,
/// `salt` and `nonce`.
pub open spec fn backup_file(payload: Seq<u8>, password: Seq<char>, salt: Seq<u8>, nonce: Seq<u8>) -> Seq<u8> {
    magic() + seq![FORMAT_VERSION] + salt + nonce + aes_gcm_seal_spec(backup_key(password, salt), nonce, payload)
}

/// The stored form of a sync password encrypted under a master password.
pub open spec fn sealed_sync_password(sync_password: Seq<char>, master: Seq<char>, salt: Seq<u8>, nonce: Seq<u8>) -> Seq<char> {
    base64_encode_spec(
        salt + nonce + aes_gcm_seal_spec(backup_key(master, salt), nonce, vstd::utf8::encode_utf8(sync_password)),
    )
}

/// Whether `e` is a validation error whose message is exactly `m`.
pub open spec fn is_validation(e: AppError, m: Seq<char>) -> bool {
    e matches AppError::Validation(s) && s@ == m
}

/// Appends `s` to `v`.
pub fn append_bytes(v: &mut Vec<u8>, s: &[u8])
    ensures
        final(v)@ == old(v)@ + s@,
{
    let n = s.len();
    let mut i: usize = 0;
    while i < n
        invariant
            n == s@.len(),
            i <= n,
            v@ == old(v)@ + s@.subrange(0, i as int),
        decreases n - i,
    {
        v.push(s[i]);
        i = i + 1;
        assert(s@.subrange(0, i as int) =~= s@.subrange(0, i - 1) + seq![s@[i - 1]]);
    }
    assert(s@.subrange(0, n as int) =~= s@);
}

/// The backup key for `password` and `salt`.
pub fn derive_backup_key(password: &str, salt: &[u8]) -> (key: Vec<u8>)
    ensures
        key@ == backup_key(password@, salt@),
        key@.len() == 32,
{
    pbkdf2_sha256(password.as_bytes(), salt, BACKUP_KDF_ROUNDS, 32)
}

/// Encrypts a serialized payload into the backup file format, with a fresh
/// random salt and nonce. Fails only when the payload is too long for AES-GCM.
pub fn encrypt_backup_bytes(payload: &[u8], password: &str) -> (r: Result<Vec<u8>, AppError>)
    ensures
        payload@.len() <= AES_GCM_MAX_PLAINTEXT ==> (r matches Ok(file) && exists|salt: Seq<u8>, nonce: Seq<u8>|
            salt.len() == SALT_LEN && nonce.len() == NONCE_LEN && file@ == #[trigger] backup_file(
                payload@,
                password@,
                salt,
                nonce,
            )),
        payload@.len() > AES_GCM_MAX_PLAINTEXT ==> (r matches Err(e) && is_validation(e, "encryption failed"@)),
        r matches Ok(file) ==> file@.len() == HEADER_LEN + payload@.len() + AES_GCM_TAG_LEN,
{
    let salt = random_bytes(SALT_LEN);
    let nonce = random_bytes(NONCE_LEN);
    let key = derive_backup_key(password, salt.as_slice());
    let ciphertext = match aes_gcm_encrypt(key.as_slice(), nonce.as_slice(), payload) {
        Some(c) => c,
        None => {
            proof {
                reveal_strlit("encryption failed");
            }
            return Err(AppError::Validation(String::from_str("encryption failed")));
        },
    };
    let mut file: Vec<u8> = Vec::new();
    file.push(70u8);
    file.push(70u8);
    file.push(66u8);
    file.push(75u8);
    file.push(FORMAT_VERSION);
    append_bytes(&mut file, salt.as_slice());
    append_bytes(&mut file, nonce.as_slice());
    append_bytes(&mut file, ciphertext.as_slice());
    assert(file@ =~= backup_file(payload@, password@, salt@, nonce@));
    Ok(file)
}

/// Validates and decrypts a backup file into the serialized payload: too
/// short or wrong magic is "not a valid backup file"; a version newer than
/// `FORMAT_VERSION` is `UnsupportedBackupVersion`; a tag that does not verify
/// is "wrong password or corrupted file". Any file that `encrypt_backup_bytes`
/// wrote with the same password decrypts to the payload it was given; a
/// payload is only ever returned from a file whose encrypted part is that
/// payload's seal; and such a file altered only within its 16-byte tag is
/// refused.
pub fn decrypt_backup_bytes(data: &[u8], password: &str) -> (r: Result<Vec<u8>, AppError>)
    ensures
        data@.len() < HEADER_LEN || data@.subrange(0, 4) != magic() ==> (r matches Err(e) && is_validation(
            e,
            "not a valid Suvarix backup file"@,
        )),
        data@.len() >= HEADER_LEN && data@.subrange(0, 4) == magic() && data@[4] > FORMAT_VERSION ==> r
            == Err::<Vec<u8>, AppError>(AppError::UnsupportedBackupVersion(data@[4], FORMAT_VERSION)),
        data@.len() >= HEADER_LEN && data@.subrange(0, 4) == magic() && data@[4] <= FORMAT_VERSION ==> ({
            let open = aes_gcm_open_spec(
                backup_key(password@, data@.subrange(5, 21)),
                data@.subrange(21, 33),
                data@.subrange(33, data@.len() as int),
            );
            match open {
                Some(p) => r matches Ok(v) && v@ == p,
                None => r matches Err(e) && is_validation(e, "wrong password or corrupted file"@),
            }
        }),
        forall|payload: Seq<u8>, salt: Seq<u8>, nonce: Seq<u8>|
            salt.len() == SALT_LEN && nonce.len() == NONCE_LEN && payload.len() <= AES_GCM_MAX_PLAINTEXT
                && data@ == #[trigger] backup_file(payload, password@, salt, nonce) ==> (r matches Ok(v) && v@
                == payload),
        r matches Ok(v) ==> (v@.len() <= AES_GCM_MAX_PLAINTEXT ==> data@.subrange(HEADER_LEN as int, data@.len() as int)
            == aes_gcm_seal_spec(backup_key(password@, data@.subrange(5, 21)), data@.subrange(21, 33), v@)),
        forall|payload: Seq<u8>, salt: Seq<u8>, nonce: Seq<u8>|
            salt.len() == SALT_LEN && nonce.len() == NONCE_LEN && payload.len() <= AES_GCM_MAX_PLAINTEXT
                && #[trigger] backup_file(payload, password@, salt, nonce).len() == data@.len() && data@.subrange(
                0,
                data@.len() - AES_GCM_TAG_LEN,
            ) == backup_file(payload, password@, salt, nonce).subrange(0, data@.len() - AES_GCM_TAG_LEN) && data@
                != backup_file(payload, password@, salt, nonce) ==> r is Err,
{
    proof {
        reveal_strlit("not a valid Suvarix backup file");
        reveal_strlit("wrong password or corrupted file");
    }
    if data.len() < HEADER_LEN {
        return Err(AppError::Validation(String::from_str("not a valid Suvarix backup file")));
    }
    if !(data[0] == 70u8 && data[1] == 70u8 && data[2] == 66u8 && data[3] == 75u8) {
        assert(data@.subrange(0, 4) != magic()) by {
            if data@.subrange(0, 4) == magic() {
                assert(data@.subrange(0, 4)[0] == data@[0]);
                assert(data@.subrange(0, 4)[1] == data@[1]);
                assert(data@.subrange(0, 4)[2] == data@[2]);
                assert(data@.subrange(0, 4)[3] == data@[3]);
            }
        }
        return Err(AppError::Validation(String::from_str("not a valid Suvarix backup file")));
    }
    assert(data@.subrange(0, 4) =~= magic());
    if data[4] > FORMAT_VERSION {
        return Err(AppError::UnsupportedBackupVersion(data[4], FORMAT_VERSION));
    }
    let salt = slice_subrange(data, 5, 5 + SALT_LEN);
    let nonce = slice_subrange(data, 5 + SALT_LEN, HEADER_LEN);
    let ciphertext = slice_subrange(data, HEADER_LEN, data.len());
    let key = derive_backup_key(password, salt);
    proof {
        assert forall|payload: Seq<u8>, s: Seq<u8>, n: Seq<u8>|
            s.len() == SALT_LEN && n.len() == NONCE_LEN && payload.len() <= AES_GCM_MAX_PLAINTEXT
                && data@ == #[trigger] backup_file(payload, password@, s, n) implies salt@ == s && nonce@ == n
            && ciphertext@ == aes_gcm_seal_spec(key@, nonce@, payload) by {
            let f = backup_file(payload, password@, s, n);
            assert(salt@ =~= f.subrange(5, 21));
            assert(f.subrange(5, 21) =~= s);
            assert(nonce@ =~= f.subrange(21, 33));
            assert(f.subrange(21, 33) =~= n);
            assert(ciphertext@ =~= f.subrange(33, f.len() as int));
            assert(f.subrange(33, f.len() as int) =~= aes_gcm_seal_spec(backup_key(password@, s), n, payload));
        }
    }
    match aes_gcm_decrypt(key.as_slice(), nonce, ciphertext) {
        Some(p) => {
            proof {
                assert forall|payload: Seq<u8>, s: Seq<u8>, n: Seq<u8>|
                    s.len() == SALT_LEN && n.len() == NONCE_LEN && payload.len() <= AES_GCM_MAX_PLAINTEXT
                        && #[trigger] backup_file(payload, password@, s, n).len() == data@.len()
                        && data@.subrange(0, data@.len() - AES_GCM_TAG_LEN) == backup_file(
                        payload,
                        password@,
                        s,
                        n,
                    ).subrange(0, data@.len() - AES_GCM_TAG_LEN) implies data@ == backup_file(
                    payload,
                    password@,
                    s,
                    n,
                ) by {
                    let f = backup_file(payload, password@, s, n);
                    let k = data@.len() - AES_GCM_TAG_LEN;
                    assert(data@.subrange(0, k).subrange(5, 21) =~= data@.subrange(5, 21));
                    assert(f.subrange(0, k).subrange(5, 21) =~= f.subrange(5, 21));
                    assert(f.subrange(5, 21) =~= s);
                    assert(data@.subrange(0, k).subrange(21, 33) =~= data@.subrange(21, 33));
                    assert(f.subrange(0, k).subrange(21, 33) =~= f.subrange(21, 33));
                    assert(f.subrange(21, 33) =~= n);
                    assert(salt@ =~= s);
                    assert(nonce@ =~= n);
                    let sp = aes_gcm_seal_spec(key@, nonce@, payload);
                    assert(f =~= magic() + seq![FORMAT_VERSION] + s + n + sp);
                    assert(sp.len() == ciphertext@.len());
                    assert(sp.subrange(0, ciphertext@.len() - AES_GCM_TAG_LEN) =~= f.subrange(0, k).subrange(
                        33,
                        k,
                    ));
                    assert(ciphertext@.subrange(0, ciphertext@.len() - AES_GCM_TAG_LEN) =~= data@.subrange(
                        0,
                        k,
                    ).subrange(33, k));
                    assert(payload == p@);
                    assert(data@[4] == FORMAT_VERSION) by {
                        assert(data@.subrange(0, k)[4] == f.subrange(0, k)[4]);
                    }
                    assert(data@ =~= f);
                }
            }
            Ok(p)
        },
        None => Err(AppError::Validation(String::from_str("wrong password or corrupted file"))),
    }
}

/// Encrypts the sync password at rest under the master password:
/// `base64(salt ‖ nonce ‖ ciphertext)` with a fresh random salt and nonce.
pub fn encrypt_sync_password(sync_password: &str, master_password: &str) -> (r: Result<String, AppError>)
    requires
        vstd::utf8::encode_utf8(sync_password@).len() <= usize::MAX / 4,
    ensures
        vstd::utf8::encode_utf8(sync_password@).len() > AES_GCM_MAX_PLAINTEXT ==> (r matches Err(e)
            && is_validation(e, "encryption failed"@)),
        vstd::utf8::encode_utf8(sync_password@).len() <= AES_GCM_MAX_PLAINTEXT ==> (r matches Ok(s) && exists|salt: Seq<u8>, nonce: Seq<u8>|
            salt.len() == SALT_LEN && nonce.len() == NONCE_LEN && s@ == #[trigger] sealed_sync_password(
                sync_password@,
                master_password@,
                salt,
                nonce,
            )),
{
    let salt = random_bytes(SALT_LEN);
    let nonce = random_bytes(NONCE_LEN);
    let key = derive_backup_key(master_password, salt.as_slice());
    let plain = sync_password.as_bytes();
    let ciphertext = match aes_gcm_encrypt(key.as_slice(), nonce.as_slice(), plain) {
        Some(c) => c,
        None => {
            proof {
                reveal_strlit("encryption failed");
            }
            return Err(AppError::Validation(String::from_str("encryption failed")));
        },
    };
    let mut buf: Vec<u8> = Vec::new();
    append_bytes(&mut buf, salt.as_slice());
    append_bytes(&mut buf, nonce.as_slice());
    append_bytes(&mut buf, ciphertext.as_slice());
    assert(buf@ =~= salt@ + nonce@ + aes_gcm_seal_spec(
        backup_key(master_password@, salt@),
        nonce@,
        vstd::utf8::encode_utf8(sync_password@),
    ));
    let out = base64_encode(buf.as_slice());
    assert(out@ == sealed_sync_password(sync_password@, master_password@, salt@, nonce@));
    Ok(out)
}

/// Decrypts a stored sync password. Text that is not Base64 or too short to
/// hold salt and nonce, and a plaintext that is not UTF-8, are "bad sync
/// password" validation errors; a tag that does not verify is "wrong password
/// or corrupted file". Whatever `encrypt_sync_password` stored under the same
/// master password decrypts to the sync password it was given.
pub fn decrypt_sync_password(encrypted_b64: &str, master_password: &str) -> (r: Result<String, AppError>)
    ensures
        match base64_decode_spec(encrypted_b64@) {
            None => r matches Err(AppError::Validation(m)) && m@.len() >= 17
                && m@.subrange(0, 17) == "bad sync password"@,
            Some(buf) => if buf.len() < SALT_LEN + NONCE_LEN {
                r matches Err(e) && is_validation(e, "bad sync password"@)
            } else {
                match aes_gcm_open_spec(
                    backup_key(master_password@, buf.subrange(0, 16)),
                    buf.subrange(16, 28),
                    buf.subrange(28, buf.len() as int),
                ) {
                    None => r matches Err(e) && is_validation(e, "wrong password or corrupted file"@),
                    Some(p) => if vstd::utf8::valid_utf8(p) {
                        r matches Ok(s) && s@ == vstd::utf8::decode_utf8(p)
                    } else {
                        r matches Err(AppError::Validation(m)) && m@.len() >= 17
                            && m@.subrange(0, 17) == "bad sync password"@
                    },
                }
            },
        },
        forall|sync_password: Seq<char>, salt: Seq<u8>, nonce: Seq<u8>|
            salt.len() == SALT_LEN && nonce.len() == NONCE_LEN && vstd::utf8::encode_utf8(sync_password).len() <= AES_GCM_MAX_PLAINTEXT
                && encrypted_b64@ == #[trigger] sealed_sync_password(sync_password, master_password@, salt, nonce)
                ==> (r matches Ok(s) && s@ == sync_password),
{
    proof {
        reveal_strlit("bad sync password");
        reveal_strlit("wrong password or corrupted file");
    }
    let buf = match base64_decode(encrypted_b64) {
        Some(b) => b,
        None => {
            return Err(AppError::Validation(String::from_str("bad sync password")));
        },
    };
    if buf.len() < SALT_LEN + NONCE_LEN {
        return Err(AppError::Validation(String::from_str("bad sync password")));
    }
    let salt = slice_subrange(buf.as_slice(), 0, SALT_LEN);
    let nonce = slice_subrange(buf.as_slice(), SALT_LEN, SALT_LEN + NONCE_LEN);
    let ciphertext = slice_subrange(buf.as_slice(), SALT_LEN + NONCE_LEN, buf.len());
    let key = derive_backup_key(master_password, salt);
    proof {
        assert forall|sp: Seq<char>, s: Seq<u8>, n: Seq<u8>|
            s.len() == SALT_LEN && n.len() == NONCE_LEN && vstd::utf8::encode_utf8(sp).len() <= AES_GCM_MAX_PLAINTEXT
                && encrypted_b64@ == #[trigger] sealed_sync_password(sp, master_password@, s, n) implies salt@ == s
            && nonce@ == n && ciphertext@ == aes_gcm_seal_spec(key@, nonce@, vstd::utf8::encode_utf8(sp))
 by {
            let inner = s + n + aes_gcm_seal_spec(backup_key(master_password@, s), n, vstd::utf8::encode_utf8(sp));
            assert(buf@ == inner);
            assert(salt@ =~= inner.subrange(0, 16));
            assert(inner.subrange(0, 16) =~= s);
            assert(nonce@ =~= inner.subrange(16, 28));
            assert(inner.subrange(16, 28) =~= n);
            assert(ciphertext@ =~= inner.subrange(28, inner.len() as int));
            assert(inner.subrange(28, inner.len() as int) =~= aes_gcm_seal_spec(
                backup_key(master_password@, s),
                n,
                vstd::utf8::encode_utf8(sp),
            ));
        }
    }
    let plain = match aes_gcm_decrypt(key.as_slice(), nonce, ciphertext) {
        Some(p) => p,
        None => {
            return Err(AppError::Validation(String::from_str("wrong password or corrupted file")));
        },
    };
    let ghost plain_bytes = plain@;
    proof {
        assert forall|sp: Seq<char>, s: Seq<u8>, n: Seq<u8>|
            s.len() == SALT_LEN && n.len() == NONCE_LEN && vstd::utf8::encode_utf8(sp).len() <= AES_GCM_MAX_PLAINTEXT
                && encrypted_b64@ == #[trigger] sealed_sync_password(sp, master_password@, s, n) implies
            vstd::utf8::valid_utf8(plain_bytes) && vstd::utf8::decode_utf8(plain_bytes) == sp by {
            vstd::utf8::encode_utf8_valid_utf8(sp);
            vstd::utf8::encode_utf8_decode_utf8(sp);
        }
    }
    match utf8_to_string(plain) {
        Some(s) => Ok(s),
        None => Err(AppError::Validation(String::from_str("bad sync password"))),
    }
}

} // verus!
