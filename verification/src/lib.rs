//! An encrypted note store: password-based key derivation, authenticated
//! encryption of note contents, and the named collection of encrypted records.
//!
//! - `crypto`: key derivation and the authenticated cipher, over the outside
//!   crates that implement them.
//! - `note`: the stored record.
//! - `codec`: from a password and a content to a record, and back.
//! - `order`: the order of names.
//! - `storage`: the collection of records by name.
//! - `persist`: the collection's operations between loading and saving.
//! - `laws`: what holds of these taken together.
//! - `secret`: discarding buffers that held secrets.
//! - `ui`: what the front end decides.
//! - `db`: a key-value view of entries read from a database tree.

pub mod crypto;
pub mod note;
pub mod codec;
pub mod order;
pub mod storage;
pub mod persist;
pub mod laws;
pub mod secret;
pub mod ui;
pub mod db;
