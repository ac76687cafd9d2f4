//! Discarding buffers that held a password, a plaintext or a record.

use crate::note::Note;
use vstd::prelude::*;
use zeroize::Zeroize;

verus! {

/// Calls `zeroize::Zeroize::zeroize` on a `String`.
/// Trusted: the string is empty afterwards. (The bytes it held, and its spare
/// capacity, are overwritten with zeros first; no contract can say that.)
#[verifier::external_body]
fn zeroize_string(text: &mut String)
    ensures
        final(text)@ == Seq::<char>::empty(),
{
    text.zeroize();
}

/// Calls `zeroize::Zeroize::zeroize` on a `Vec<u8>`.
/// Trusted: the vector is empty afterwards. (The bytes it held, and its spare
/// capacity, are overwritten with zeros first; no contract can say that.)
#[verifier::external_body]
fn zeroize_bytes(bytes: &mut Vec<u8>)
    ensures
        final(bytes)@ == Seq::<u8>::empty(),
{
    bytes.zeroize();
}

/// Overwrites a text buffer with zeros and leaves it empty.
pub fn wipe_text(text: &mut String)
    ensures
        final(text)@ == Seq::<char>::empty(),
{
    zeroize_string(text);
}

/// Overwrites a byte buffer with zeros and leaves it empty.
pub fn wipe_bytes(bytes: &mut Vec<u8>)
    ensures
        final(bytes)@ == Seq::<u8>::empty(),
{
    zeroize_bytes(bytes);
}

impl Note {
    /// Overwrites the in-memory copy of a record with zeros and leaves it empty.
    pub fn zeroize(&mut self)
        ensures
            final(self)@.nonce == Seq::<u8>::empty(),
            final(self)@.salt == Seq::<u8>::empty(),
            final(self)@.cipher == Seq::<u8>::empty(),
    {
        zeroize_bytes(&mut self.nonce);
        zeroize_bytes(&mut self.salt);
        zeroize_bytes(&mut self.cipher);
    }
}

} // verus!
