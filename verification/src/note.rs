//! The persisted unit: one encrypted note.

use vstd::prelude::*;

verus! {

/// One encrypted note as it is stored: the salt the key was derived with, the
/// nonce the content was encrypted under, and the ciphertext with its tag.
/// A record holds no plaintext, no password and no key.
#[derive(Debug)]
pub struct Note {
    pub nonce: Vec<u8>,
    pub salt: Vec<u8>,
    pub cipher: Vec<u8>,
}

/// A record as three byte sequences.
pub struct NoteView {
    pub nonce: Seq<u8>,
    pub salt: Seq<u8>,
    pub cipher: Seq<u8>,
}

impl View for Note {
    type V = NoteView;

    open spec fn view(&self) -> NoteView {
        NoteView { nonce: self.nonce@, salt: self.salt@, cipher: self.cipher@ }
    }
}

impl Clone for Note {
    fn clone(&self) -> (r: Self)
        ensures
            r@ == self@,
    {
        Note { nonce: self.nonce.clone(), salt: self.salt.clone(), cipher: self.cipher.clone() }
    }
}

impl Default for Note {
    fn default() -> (r: Self)
        ensures
            r@.nonce.len() == 0,
            r@.salt.len() == 0,
            r@.cipher.len() == 0,
    {
        Note { nonce: Vec::new(), salt: Vec::new(), cipher: Vec::new() }
    }
}

} // verus!
