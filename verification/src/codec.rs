//! Turning a password and a content into a stored record, and back.

use crate::crypto::{
    aead_open, aead_seal, bytes_to_text, decrypt, derive_key, derive_key_spec, encrypt,
    generate_nonce, generate_salt, is_fresh_salt, sealable, NoteError, NONCE_LEN, TAG_LEN,
};
use crate::note::{Note, NoteView};
use vstd::prelude::*;
use vstd::slice::slice_to_vec;
use vstd::utf8::{decode_utf8, valid_utf8};

verus! {

/// A record is sealed for a password and a content when its nonce has the
/// cipher's width and its ciphertext is what the cipher gives for the content
/// under the key that the password and the record's salt stand for. Such a
/// ciphertext is one tag longer than the content and opens to it again.
pub open spec fn sealed(note: NoteView, password: Seq<u8>, content: Seq<u8>) -> bool {
    let key = derive_key_spec(password, note.salt);
    &&& note.nonce.len() == NONCE_LEN
    &&& note.cipher == aead_seal(key, note.nonce, content)
    &&& note.cipher.len() == content.len() + TAG_LEN
    &&& aead_open(key, note.nonce, note.cipher) == Some(content)
}

/// What decrypting a record with a password gives: the text, or the reason
/// why there is none. A nonce of the wrong width counts as a corrupted record.
pub open spec fn decrypt_note_spec(note: NoteView, password: Seq<u8>) -> Result<
    Seq<char>,
    NoteError,
> {
    if note.nonce.len() != NONCE_LEN {
        Err(NoteError::AuthenticationFailed)
    } else {
        match aead_open(derive_key_spec(password, note.salt), note.nonce, note.cipher) {
            None => Err(NoteError::AuthenticationFailed),
            Some(plaintext) => if valid_utf8(plaintext) {
                Ok(decode_utf8(plaintext))
            } else {
                Err(NoteError::NotUtf8)
            },
        }
    }
}

/// Copies a stored nonce into the fixed-width form the cipher takes, if it has
/// that width.
pub fn nonce_from_bytes(bytes: &[u8]) -> (r: Option<[u8; 12]>)
    ensures
        r is Some <==> bytes@.len() == NONCE_LEN,
        r matches Some(nonce) ==> nonce@ == bytes@,
{
    if bytes.len() != NONCE_LEN {
        return None;
    }
    let mut nonce: [u8; 12] = [0u8; 12];
    let mut i: usize = 0;
    while i < NONCE_LEN
        invariant
            i <= NONCE_LEN,
            bytes@.len() == NONCE_LEN,
            nonce@.len() == NONCE_LEN,
            forall|j: int| 0 <= j < i ==> nonce@[j] == bytes@[j],
        decreases NONCE_LEN - i,
    {
        nonce[i] = bytes[i];
        i += 1;
    }
    assert(nonce@ =~= bytes@);
    Some(nonce)
}

/// Encrypts a content with a password under a given salt and nonce. The salt
/// and the nonce must be fresh for every call: a caller that has no reason to
/// choose them uses `encrypt_note`.
pub fn seal_note(password: &[u8], content: &[u8], salt: Vec<u8>, nonce: [u8; 12]) -> (r: Result<
    Note,
    NoteError,
>)
    ensures
        r is Ok <==> sealable(content@.len()),
        r matches Ok(note) ==> note@.salt == salt@ && note@.nonce == nonce@ && sealed(
            note@,
            password@,
            content@,
        ),
        r matches Err(e) ==> e == NoteError::EncryptionFailed,
{
    let key = derive_key(password, salt.as_slice());
    match encrypt(&key, &nonce, content) {
        Ok(cipher) => Ok(Note { nonce: slice_to_vec(nonce.as_slice()), salt, cipher }),
        Err(e) => Err(e),
    }
}

/// Encrypts a note's content with a password. A fresh random salt and a fresh
/// random nonce are drawn on every call, so two calls on the same arguments
/// give different records. The name is the caller's key for storing the record;
/// it is not encrypted and does not enter the record.
#[allow(unused_variables)]
pub fn encrypt_note(name: &str, password: &[u8], content: &[u8]) -> (r: Result<Note, NoteError>)
    ensures
        r is Ok <==> sealable(content@.len()),
        r matches Ok(note) ==> is_fresh_salt(note@.salt) && sealed(note@, password@, content@),
        r matches Err(e) ==> e == NoteError::EncryptionFailed,
{
    let salt = generate_salt();
    let nonce = generate_nonce();
    seal_note(password, content, salt, nonce)
}

/// Decrypts a record with a password. Fails with `AuthenticationFailed` when
/// the tag does not verify, which a wrong password and a damaged record both
/// cause, and with `NotUtf8` when the record opens to bytes that are not text.
pub fn decrypt_note(note: &Note, password: &[u8]) -> (r: Result<String, NoteError>)
    ensures
        match r {
            Ok(text) => decrypt_note_spec(note@, password@) == Ok::<Seq<char>, NoteError>(text@),
            Err(e) => decrypt_note_spec(note@, password@) == Err::<Seq<char>, NoteError>(e),
        },
{
    let nonce = match nonce_from_bytes(note.nonce.as_slice()) {
        Some(nonce) => nonce,
        None => {
            return Err(NoteError::AuthenticationFailed);
        },
    };
    let key = derive_key(password, note.salt.as_slice());
    match decrypt(&key, &nonce, note.cipher.as_slice()) {
        Ok(plaintext) => bytes_to_text(plaintext),
        Err(e) => Err(e),
    }
}

} // verus!
