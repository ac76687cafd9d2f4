//! A key-value view of stored data: what is decided about the entries that a
//! tree of the `sled` database hands out. Reading and writing the tree is the
//! caller's work.

use crate::crypto::bytes_to_text;
use std::collections::HashMap;
use vstd::prelude::*;
use vstd::utf8::{decode_utf8, valid_utf8};

verus! {

/// The error of `sled`, declared so that it can pass through verified code.
/// Nothing is read from it.
#[verifier::external_type_specification]
#[verifier::external_body]
pub struct ExSledError(sled::Error);

/// A database of notes, each with a number and its bytes.
pub struct YaepmDb {
    pub notes: HashMap<String, (u64, Vec<u8>)>,
}

/// Why an operation on the database gave nothing.
#[derive(Debug)]
pub enum DatabaseError {
    /// No matches found.
    NotFound,
    /// Could not get from the database.
    Get,
    /// Could not set to the database.
    SetFailed,
    /// Could not communicate with the database.
    Communicate,
    /// Could not deserialize binary data.
    Deserialize,
    /// Could not serialize binary data.
    Serialize,
    /// An internal error of the database.
    SledError(sled::Error),
}

/// One entry of a tree: a key that is text, and a value in binary form.
pub struct KVPair {
    pub key: String,
    pub value: Vec<u8>,
}

/// An entry as the tree hands it out: the key's bytes and the value's bytes,
/// or nothing where the tree failed to yield the entry.
pub type RawEntry = Option<(Vec<u8>, Vec<u8>)>;

/// An entry can be read when the tree yielded it and its key is UTF-8 text.
pub open spec fn readable(entry: RawEntry) -> bool {
    entry matches Some(pair) && valid_utf8(pair.0@)
}

/// The entry at `k` is the first that cannot be read.
pub open spec fn first_unreadable(raw: Seq<RawEntry>, k: int) -> bool {
    &&& 0 <= k < raw.len()
    &&& !readable(raw[k])
    &&& forall|i: int| 0 <= i < k ==> readable(#[trigger] raw[i])
}

/// All entries of a tree as pairs of a text key and a binary value, in the
/// tree's order. The first entry that cannot be read decides the error: `Get`
/// where the tree did not yield it, `Deserialize` where its key is not text.
pub fn get_all_from_tree(raw: &Vec<RawEntry>) -> (r: Result<Vec<KVPair>, DatabaseError>)
    ensures
        match r {
            Ok(pairs) => {
                &&& pairs@.len() == raw@.len()
                &&& forall|i: int|
                    0 <= i < raw@.len() ==> readable(#[trigger] raw@[i]) && pairs@[i].key@
                        == decode_utf8(raw@[i].unwrap().0@) && pairs@[i].value@ == raw@[i].unwrap().1@
            },
            Err(e) => exists|k: int| #[trigger]
                first_unreadable(raw@, k) && if raw@[k] is None {
                    e is Get
                } else {
                    e is Deserialize
                },
        },
{
    let mut all: Vec<KVPair> = Vec::new();
    let mut i: usize = 0;
    while i < raw.len()
        invariant
            i <= raw@.len(),
            all@.len() == i,
            forall|j: int|
                0 <= j < i ==> readable(#[trigger] raw@[j]) && all@[j].key@ == decode_utf8(
                    raw@[j].unwrap().0@,
                ) && all@[j].value@ == raw@[j].unwrap().1@,
        decreases raw@.len() - i,
    {
        match &raw[i] {
            None => {
                assert(first_unreadable(raw@, i as int));
                return Err(DatabaseError::Get);
            },
            Some(pair) => {
                match bytes_to_text(pair.0.clone()) {
                    Ok(key) => {
                        all.push(KVPair { key, value: pair.1.clone() });
                    },
                    Err(_) => {
                        assert(first_unreadable(raw@, i as int));
                        return Err(DatabaseError::Deserialize);
                    },
                }
            },
        }
        i += 1;
    }
    Ok(all)
}

/// All entries of a tree with their values decoded, in the tree's order. Each
/// value comes as what its decoding gave, `None` where it failed; one failure
/// fails the whole with `Deserialize`.
pub fn get_all<T>(decoded: Vec<(String, Option<T>)>) -> (r: Result<
    Vec<(String, T)>,
    DatabaseError,
>)
    ensures
        match r {
            Ok(all) => {
                &&& all@.len() == decoded@.len()
                &&& forall|i: int|
                    0 <= i < decoded@.len() ==> (#[trigger] decoded@[i]).1 == Some(all@[i].1)
                        && all@[i].0 == decoded@[i].0
            },
            Err(e) => e is Deserialize && exists|i: int|
                0 <= i < decoded@.len() && (#[trigger] decoded@[i]).1 is None,
        },
{
    let mut rest = decoded;
    let mut all: Vec<(String, T)> = Vec::new();
    while rest.len() > 0
        invariant
            rest@.len() <= decoded@.len(),
            rest@ == decoded@.subrange(0, rest@.len() as int),
            all@.len() == decoded@.len() - rest@.len(),
            forall|i: int|
                rest@.len() <= i < decoded@.len() ==> (#[trigger] decoded@[i]).1 == Some(
                    all@[i - rest@.len()].1,
                ) && all@[i - rest@.len()].0 == decoded@[i].0,
        decreases rest@.len(),
    {
        let ghost n = rest@.len();
        let last = rest.pop();
        match last {
            Some((key, Some(value))) => {
                assert(decoded@[n - 1] == (key, Some(value)));
                all.insert(0, (key, value));
            },
            _ => {
                assert(decoded@[n - 1].1 is None);
                return Err(DatabaseError::Deserialize);
            },
        }
    }
    Ok(all)
}

/// The outcome of handing a key and a value in binary form to the tree.
pub fn set_to_tree(inserted: bool) -> (r: Result<(), DatabaseError>)
    ensures
        match r {
            Ok(_) => inserted,
            Err(e) => !inserted && e is SetFailed,
        },
{
    if inserted {
        Ok(())
    } else {
        Err(DatabaseError::SetFailed)
    }
}

/// The outcome of setting a value: `Serialize` where the value had no binary
/// form, `Communicate` where the tree did not take it, whatever the tree's
/// reason was.
pub fn set(serialized: bool, handed_over: Result<(), DatabaseError>) -> (r: Result<
    (),
    DatabaseError,
>)
    ensures
        match r {
            Ok(_) => serialized && handed_over is Ok,
            Err(e) => if !serialized {
                e is Serialize
            } else {
                handed_over is Err && e is Communicate
            },
        },
{
    if !serialized {
        Err(DatabaseError::Serialize)
    } else {
        match handed_over {
            Ok(_) => Ok(()),
            Err(_) => Err(DatabaseError::Communicate),
        }
    }
}

/// The outcome of deleting a key, from what the tree answered: whether a value
/// was there to remove, or the tree's own error.
pub fn delete(removed: Result<bool, sled::Error>) -> (r: Result<(), DatabaseError>)
    ensures
        match removed {
            Ok(true) => r is Ok,
            Ok(false) => r matches Err(e) && e is NotFound,
            Err(cause) => r matches Err(e) && e == DatabaseError::SledError(cause),
        },
{
    match removed {
        Ok(true) => Ok(()),
        Ok(false) => Err(DatabaseError::NotFound),
        Err(cause) => Err(DatabaseError::SledError(cause)),
    }
}

} // verus!
