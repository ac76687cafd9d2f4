//! Key derivation and the authenticated cipher.
//!
//! The primitives themselves come from the `pbkdf2`, `sha2`, `chacha20poly1305`
//! and `password-hash` crates. Their results are named by the uninterpreted
//! functions below; everything this module proves is stated over those names.

use chacha20poly1305::aead::{Aead, AeadCore, KeyInit, OsRng};
use chacha20poly1305::{ChaCha20Poly1305, Key, Nonce};
use password_hash::SaltString;
use vstd::prelude::*;

verus! {

/// Number of PBKDF2 iterations. A fixed protocol constant: it is not stored in
/// a record, so changing it makes every existing record undecryptable.
pub const KDF_ROUNDS: u32 = 600_000;

/// Length of a derived key in bytes (256 bits).
pub const KEY_LEN: usize = 32;

/// Length of a nonce in bytes (96 bits).
pub const NONCE_LEN: usize = 12;

/// Length of the authentication tag that the cipher appends, in bytes.
pub const TAG_LEN: usize = 16;

/// Length in bytes of a freshly generated salt.
pub const SALT_LEN: usize = 22;

/// What can go wrong when a note is encrypted or decrypted.
#[derive(Clone, Copy, Debug, PartialEq, Eq, Structural)]
pub enum NoteError {
    /// The cipher refused to encrypt the content.
    EncryptionFailed,
    /// The tag did not verify: wrong password, or a corrupted or tampered record.
    AuthenticationFailed,
    /// The record decrypted, but the recovered bytes are not UTF-8 text.
    NotUtf8,
}

/// The first 32 bytes of PBKDF2-HMAC-SHA256 over `password` and `salt` with
/// `rounds` iterations.
pub uninterp spec fn pbkdf2_hmac_sha256(password: Seq<u8>, salt: Seq<u8>, rounds: u32) -> Seq<u8>;

/// The ChaCha20-Poly1305 ciphertext, tag included, of `plaintext` under `key`
/// and `nonce`, with no associated data.
pub uninterp spec fn aead_seal(key: Seq<u8>, nonce: Seq<u8>, plaintext: Seq<u8>) -> Seq<u8>;

/// The plaintext that ChaCha20-Poly1305 recovers from `ciphertext` under `key`
/// and `nonce` with no associated data, or `None` where the tag does not verify.
pub uninterp spec fn aead_open(key: Seq<u8>, nonce: Seq<u8>, ciphertext: Seq<u8>) -> Option<
    Seq<u8>,
>;

/// The key that a password and a salt stand for.
pub open spec fn derive_key_spec(password: Seq<u8>, salt: Seq<u8>) -> Seq<u8> {
    pbkdf2_hmac_sha256(password, salt, KDF_ROUNDS)
}

/// Whether the cipher accepts a plaintext of `len` bytes: it works in blocks of
/// 64 bytes and counts them in 32 bits.
pub open spec fn sealable(len: nat) -> bool {
    len / 64 < u32::MAX
}

/// A byte of the base-64 alphabet: a letter, a digit, `+` or `/`.
pub open spec fn is_b64_byte(b: u8) -> bool {
    ||| 0x41 <= b <= 0x5a
    ||| 0x61 <= b <= 0x7a
    ||| 0x30 <= b <= 0x39
    ||| b == 0x2b
    ||| b == 0x2f
}

/// The shape of a generated salt: 22 bytes of the base-64 alphabet, which is
/// how 16 bytes are written in base 64 without padding.
pub open spec fn is_fresh_salt(salt: Seq<u8>) -> bool {
    &&& salt.len() == SALT_LEN
    &&& forall|i: int| 0 <= i < salt.len() ==> is_b64_byte(#[trigger] salt[i])
}

/// The error of `chacha20poly1305` (that of the `aead` traits), declared so that
/// it can pass through verified code. It carries nothing.
#[verifier::external_type_specification]
#[verifier::external_body]
pub struct ExAeadError(chacha20poly1305::Error);

/// Calls `pbkdf2::pbkdf2_hmac::<sha2::Sha256>` on a 32-byte output buffer.
/// Trusted: the buffer then holds the named PBKDF2 output for these arguments.
/// The call does not fail: HMAC takes a key of any length.
#[verifier::external_body]
fn pbkdf2_sha256(password: &[u8], salt: &[u8], rounds: u32) -> (key: [u8; 32])
    ensures
        key@ == pbkdf2_hmac_sha256(password@, salt@, rounds),
{
    let mut key: [u8; 32] = [0u8; 32];
    pbkdf2::pbkdf2_hmac::<sha2::Sha256>(password, salt, rounds, &mut key);
    key
}

/// Calls `Aead::encrypt` of `chacha20poly1305::ChaCha20Poly1305`.
/// Trusted: the call is refused exactly when the plaintext has `u32::MAX` or more
/// whole blocks of 64 bytes; otherwise the output is the named ciphertext, it is
/// 16 bytes (the tag) longer than the plaintext, and it opens to the plaintext
/// under the same key and nonce.
#[verifier::external_body]
fn chacha20poly1305_encrypt(key: &[u8; 32], nonce: &[u8; 12], plaintext: &[u8]) -> (r: Result<
    Vec<u8>,
    chacha20poly1305::Error,
>)
    ensures
        r is Ok <==> sealable(plaintext@.len()),
        r matches Ok(ct) ==> ct@ == aead_seal(key@, nonce@, plaintext@),
        r matches Ok(ct) ==> ct@.len() == plaintext@.len() + 16,
        r matches Ok(ct) ==> aead_open(key@, nonce@, ct@) == Some(plaintext@),
{
    let cipher = ChaCha20Poly1305::new(Key::from_slice(key));
    cipher.encrypt(Nonce::from_slice(nonce), plaintext)
}

/// Calls `Aead::decrypt` of `chacha20poly1305::ChaCha20Poly1305`.
/// Trusted: the call succeeds exactly when the named opening is `Some`, and then
/// returns that plaintext; an input shorter than the 16-byte tag never opens, and
/// a plaintext is 16 bytes shorter than its ciphertext.
#[verifier::external_body]
fn chacha20poly1305_decrypt(key: &[u8; 32], nonce: &[u8; 12], ciphertext: &[u8]) -> (r: Result<
    Vec<u8>,
    chacha20poly1305::Error,
>)
    ensures
        r is Ok <==> aead_open(key@, nonce@, ciphertext@) is Some,
        r matches Ok(pt) ==> aead_open(key@, nonce@, ciphertext@) == Some(pt@),
        r matches Ok(pt) ==> pt@.len() + 16 == ciphertext@.len(),
{
    let cipher = ChaCha20Poly1305::new(Key::from_slice(key));
    cipher.decrypt(Nonce::from_slice(nonce), ciphertext)
}

/// Calls `password_hash::SaltString::generate` with the operating system's
/// random number generator and copies the string's bytes.
/// Trusted: the salt is the unpadded base-64 form of 16 random bytes, so it is
/// 22 bytes of the base-64 alphabet. Nothing is said of which.
#[verifier::external_body]
fn random_salt() -> (salt: Vec<u8>)
    ensures
        is_fresh_salt(salt@),
{
    SaltString::generate(&mut OsRng).as_str().as_bytes().to_vec()
}

/// Calls `AeadCore::generate_nonce` of `chacha20poly1305::ChaCha20Poly1305`
/// with the operating system's random number generator.
/// Trusted: nothing but the width of the result, which its type gives.
#[verifier::external_body]
fn random_nonce() -> (nonce: [u8; 12]) {
    ChaCha20Poly1305::generate_nonce(&mut OsRng).into()
}

/// Calls `String::from_utf8`.
/// Trusted: the call succeeds exactly on valid UTF-8, and the string it returns
/// is made of the bytes it was given.
#[verifier::external_body]
fn string_from_utf8(bytes: Vec<u8>) -> (r: Option<String>)
    ensures
        r is Some <==> vstd::utf8::valid_utf8(bytes@),
        r matches Some(s) ==> vstd::utf8::encode_utf8(s@) == bytes@,
{
    match String::from_utf8(bytes) {
        Ok(s) => Some(s),
        Err(_) => None,
    }
}

/// Derives the 256-bit key for a password and a salt, at the fixed iteration
/// count. The same password and salt always give the same key.
pub fn derive_key(password: &[u8], salt: &[u8]) -> (key: [u8; 32])
    ensures
        key@ == derive_key_spec(password@, salt@),
        key@.len() == KEY_LEN,
{
    pbkdf2_sha256(password, salt, KDF_ROUNDS)
}

/// Encrypts `plaintext` under `key` and `nonce`. The result is the ciphertext
/// followed by its tag. Fails only where the cipher cannot take the plaintext's
/// length.
pub fn encrypt(key: &[u8; 32], nonce: &[u8; 12], plaintext: &[u8]) -> (r: Result<
    Vec<u8>,
    NoteError,
>)
    ensures
        r is Ok <==> sealable(plaintext@.len()),
        r matches Ok(ct) ==> ct@ == aead_seal(key@, nonce@, plaintext@),
        r matches Ok(ct) ==> ct@.len() == plaintext@.len() + TAG_LEN,
        r matches Ok(ct) ==> aead_open(key@, nonce@, ct@) == Some(plaintext@),
        r matches Err(e) ==> e == NoteError::EncryptionFailed,
{
    match chacha20poly1305_encrypt(key, nonce, plaintext) {
        Ok(ct) => Ok(ct),
        Err(_) => Err(NoteError::EncryptionFailed),
    }
}

/// Decrypts `ciphertext` under `key` and `nonce`. Fails with
/// `AuthenticationFailed` exactly when the tag does not verify.
pub fn decrypt(key: &[u8; 32], nonce: &[u8; 12], ciphertext: &[u8]) -> (r: Result<
    Vec<u8>,
    NoteError,
>)
    ensures
        match r {
            Ok(pt) => aead_open(key@, nonce@, ciphertext@) == Some(pt@),
            Err(e) => e == NoteError::AuthenticationFailed && aead_open(
                key@,
                nonce@,
                ciphertext@,
            ) is None,
        },
        r matches Ok(pt) ==> pt@.len() + TAG_LEN == ciphertext@.len(),
{
    match chacha20poly1305_decrypt(key, nonce, ciphertext) {
        Ok(pt) => Ok(pt),
        Err(_) => Err(NoteError::AuthenticationFailed),
    }
}

/// A fresh random salt for one encryption.
pub fn generate_salt() -> (salt: Vec<u8>)
    ensures
        is_fresh_salt(salt@),
{
    random_salt()
}

/// A fresh random 96-bit nonce for one encryption.
pub fn generate_nonce() -> (nonce: [u8; 12])
    ensures
        nonce@.len() == NONCE_LEN,
{
    random_nonce()
}

/// Turns recovered bytes into text, or says that they are not UTF-8.
pub fn bytes_to_text(bytes: Vec<u8>) -> (r: Result<String, NoteError>)
    ensures
        match r {
            Ok(s) => vstd::utf8::valid_utf8(bytes@) && s@ == vstd::utf8::decode_utf8(bytes@),
            Err(e) => e == NoteError::NotUtf8 && !vstd::utf8::valid_utf8(bytes@),
        },
{
    match string_from_utf8(bytes) {
        Some(s) => {
            proof {
                vstd::utf8::encode_utf8_decode_utf8(s@);
            }
            Ok(s)
        },
        None => Err(NoteError::NotUtf8),
    }
}

} // verus!
