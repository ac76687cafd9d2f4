//! The collection's operations. Each one is a whole cycle over the persisted
//! collection: load it, change it in memory, save all of it again. The caller
//! does the loading and the saving; what is decided in between is here.
//!
//! Nothing is kept between two operations, and nothing is locked. Two writers
//! that load the same collection each save their own change over the whole of
//! it, so the one that saves last wins and the other's change is lost. That is
//! accepted for a local tool with one user.

use crate::note::{Note, NoteView};
use crate::storage::{entries_map, names_distinct, names_sorted, EnmStorage};
use vstd::prelude::*;

verus! {

/// Why an operation on the collection gave nothing.
#[derive(Clone, Copy, Debug, PartialEq, Eq, Structural)]
pub enum StorageError {
    /// The persisted collection could not be read or written.
    StorageUnavailable,
    /// The persisted bytes are not a collection. The operation stops here: a
    /// damaged collection is never overwritten with an empty one.
    SerializationFailed,
}

/// What an attempt to load the persisted collection gave.
pub enum Loaded {
    /// Nothing has been persisted yet.
    Missing,
    /// Something is persisted, but it could not be read.
    Unreadable,
    /// What is persisted does not parse as a collection.
    Malformed,
    /// The collection as it was persisted.
    Collection(EnmStorage),
}

/// The collection that an operation starts from, or the error it ends with.
pub type State = Result<Map<Seq<char>, NoteView>, StorageError>;

impl View for Loaded {
    type V = State;

    /// A collection that was never persisted is the empty collection.
    open spec fn view(&self) -> State {
        match *self {
            Loaded::Missing => Ok(Map::empty()),
            Loaded::Unreadable => Err(StorageError::StorageUnavailable),
            Loaded::Malformed => Err(StorageError::SerializationFailed),
            Loaded::Collection(storage) => Ok(storage@),
        }
    }
}

/// The collection to save after a note has been written under a name.
pub open spec fn after_write(state: State, name: Seq<char>, note: NoteView) -> State {
    match state {
        Ok(notes) => Ok(notes.insert(name, note)),
        Err(e) => Err(e),
    }
}

/// The collection to save after the note of a name has been deleted.
pub open spec fn after_delete(state: State, name: Seq<char>) -> State {
    match state {
        Ok(notes) => Ok(notes.remove(name)),
        Err(e) => Err(e),
    }
}

/// The collection that an operation's result stands for.
pub open spec fn outcome(r: Result<EnmStorage, StorageError>) -> State {
    match r {
        Ok(storage) => Ok(storage@),
        Err(e) => Err(e),
    }
}

/// The collection that was loaded. A collection that was never persisted reads
/// as the empty one.
pub fn read_notes(loaded: Loaded) -> (r: Result<EnmStorage, StorageError>)
    ensures
        outcome(r) == loaded@,
        loaded is Missing ==> r is Ok && r->Ok_0.spec_len() == 0,
        loaded matches Loaded::Collection(storage) ==> r == Ok::<EnmStorage, StorageError>(storage),
{
    match loaded {
        Loaded::Missing => Ok(EnmStorage::new()),
        Loaded::Unreadable => Err(StorageError::StorageUnavailable),
        Loaded::Malformed => Err(StorageError::SerializationFailed),
        Loaded::Collection(storage) => Ok(storage),
    }
}

/// Every note of the loaded collection with its name, in the order of the
/// names, each name once. An empty collection and one that was never persisted
/// both give an empty sequence.
pub fn list_notes(loaded: Loaded) -> (r: Result<Vec<(String, Note)>, StorageError>)
    ensures
        match r {
            Ok(entries) => names_sorted(entries@) && names_distinct(entries@) && loaded@ == Ok::<
                Map<Seq<char>, NoteView>,
                StorageError,
            >(entries_map(entries@)),
            Err(e) => loaded@ == Err::<Map<Seq<char>, NoteView>, StorageError>(e),
        },
        loaded is Missing ==> r is Ok && r->Ok_0@.len() == 0,
        loaded matches Loaded::Collection(storage) ==> r is Ok && r->Ok_0@.len()
            == storage.spec_len(),
{
    match read_notes(loaded) {
        Ok(storage) => Ok(storage.into_entries()),
        Err(e) => Err(e),
    }
}

/// The collection to save so that the record is stored under the name. A record
/// that was stored under that name before is gone from it. Nothing is to be
/// saved where loading failed.
pub fn write_note(loaded: Loaded, name: String, note: Note) -> (r: Result<
    EnmStorage,
    StorageError,
>)
    ensures
        outcome(r) == after_write(loaded@, name@, note@),
{
    match read_notes(loaded) {
        Ok(mut storage) => {
            storage.insert(name, note);
            Ok(storage)
        },
        Err(e) => Err(e),
    }
}

/// The collection to save so that no note goes by the name. Where none did, the
/// collection is the one that was loaded. Nothing is to be saved where loading
/// failed.
pub fn delete_note(loaded: Loaded, key: String) -> (r: Result<EnmStorage, StorageError>)
    ensures
        outcome(r) == after_delete(loaded@, key@),
{
    match read_notes(loaded) {
        Ok(mut storage) => {
            storage.remove(key.as_str());
            Ok(storage)
        },
        Err(e) => Err(e),
    }
}

} // verus!
