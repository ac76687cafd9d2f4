//! What holds of the library's functions taken together, stated over the
//! same models that their contracts use.

use crate::codec::{decrypt_note_spec, sealed};
use crate::crypto::NoteError;
use crate::note::NoteView;
use crate::persist::{after_delete, after_write, State, StorageError};
use vstd::prelude::*;
use vstd::utf8::{
    decode_utf8, encode_utf8, encode_utf8_decode_utf8, encode_utf8_valid_utf8, valid_utf8,
};

verus! {

/// A record sealed for a password and a content that is UTF-8 text decrypts,
/// with the same password, to that text.
pub proof fn lemma_round_trip(note: NoteView, password: Seq<u8>, content: Seq<u8>)
    requires
        sealed(note, password, content),
        valid_utf8(content),
    ensures
        decrypt_note_spec(note, password) == Ok::<Seq<char>, NoteError>(decode_utf8(content)),
{
}

/// A record sealed for a password and the bytes of a text decrypts, with the
/// same password, to that very text.
pub proof fn lemma_round_trip_text(note: NoteView, password: Seq<u8>, text: Seq<char>)
    requires
        sealed(note, password, encode_utf8(text)),
    ensures
        decrypt_note_spec(note, password) == Ok::<Seq<char>, NoteError>(text),
{
    encode_utf8_valid_utf8(text);
    encode_utf8_decode_utf8(text);
}

/// A record sealed for a content that is not UTF-8 text still opens, and is
/// then reported as not being text rather than as failing authentication.
pub proof fn lemma_round_trip_not_text(note: NoteView, password: Seq<u8>, content: Seq<u8>)
    requires
        sealed(note, password, content),
        !valid_utf8(content),
    ensures
        decrypt_note_spec(note, password) == Err::<Seq<char>, NoteError>(NoteError::NotUtf8),
{
}

/// Deleting a name that no note goes by succeeds and leaves the collection as
/// it was.
pub proof fn lemma_delete_absent(notes: Map<Seq<char>, NoteView>, name: Seq<char>)
    requires
        !notes.contains_key(name),
    ensures
        after_delete(Ok(notes), name) == Ok::<Map<Seq<char>, NoteView>, StorageError>(notes),
{
    assert(notes.remove(name) =~= notes);
}

/// Deleting a name twice gives what deleting it once gives.
pub proof fn lemma_delete_idempotent(state: State, name: Seq<char>)
    ensures
        after_delete(after_delete(state, name), name) == after_delete(state, name),
{
    if let Ok(notes) = state {
        assert(notes.remove(name).remove(name) =~= notes.remove(name));
    }
}

/// After a delete no note goes by the name, and every other name keeps its
/// record.
pub proof fn lemma_delete_removes(
    notes: Map<Seq<char>, NoteView>,
    name: Seq<char>,
    other: Seq<char>,
)
    requires
        other != name,
    ensures
        after_delete(Ok(notes), name) matches Ok(rest) && !rest.contains_key(name) && (
        rest.contains_key(other) <==> notes.contains_key(other)) && (notes.contains_key(other)
            ==> rest[other] == notes[other]),
{
}

/// After a write the name holds the written record, and every other name keeps
/// what it had.
pub proof fn lemma_write_stores(
    notes: Map<Seq<char>, NoteView>,
    name: Seq<char>,
    note: NoteView,
    other: Seq<char>,
)
    requires
        other != name,
    ensures
        after_write(Ok(notes), name, note) matches Ok(next) && next.contains_key(name)
            && next[name] == note && (next.contains_key(other) <==> notes.contains_key(other))
            && (notes.contains_key(other) ==> next[other] == notes[other]),
{
}

/// Writing a record under a name that already holds one replaces it: the
/// result is what writing the new record alone gives.
pub proof fn lemma_overwrite_replaces(
    state: State,
    name: Seq<char>,
    first: NoteView,
    second: NoteView,
)
    ensures
        after_write(after_write(state, name, first), name, second) == after_write(
            state,
            name,
            second,
        ),
{
    if let Ok(notes) = state {
        assert(notes.insert(name, first).insert(name, second) =~= notes.insert(name, second));
    }
}

/// Nothing of the record that a name held before a write is left after it: two
/// collections that differ at most in that name's record are the same after the
/// name is written.
pub proof fn lemma_overwrite_forgets(
    a: Map<Seq<char>, NoteView>,
    b: Map<Seq<char>, NoteView>,
    name: Seq<char>,
    note: NoteView,
)
    requires
        a.remove(name) == b.remove(name),
    ensures
        after_write(Ok(a), name, note) == after_write(Ok(b), name, note),
{
    assert(a.insert(name, note) =~= a.remove(name).insert(name, note));
    assert(b.insert(name, note) =~= b.remove(name).insert(name, note));
}

/// Deleting a name after writing it leaves no trace of the write.
pub proof fn lemma_write_then_delete(state: State, name: Seq<char>, note: NoteView)
    ensures
        after_delete(after_write(state, name, note), name) == after_delete(state, name),
{
    if let Ok(notes) = state {
        assert(notes.insert(name, note).remove(name) =~= notes.remove(name));
    }
}

/// The last writer wins. Where two writers load the same collection and each
/// saves its own change, what is persisted in the end is the second writer's
/// collection alone: a note that only the first one wrote is not in it.
pub proof fn lemma_last_writer_wins(
    notes: Map<Seq<char>, NoteView>,
    first_name: Seq<char>,
    first: NoteView,
    second_name: Seq<char>,
    second: NoteView,
)
    requires
        first_name != second_name,
        !notes.contains_key(first_name),
    ensures
        after_write(Ok(notes), first_name, first) matches Ok(lost) && lost.contains_key(
            first_name,
        ),
        after_write(Ok(notes), second_name, second) matches Ok(kept) && !kept.contains_key(
            first_name,
        ),
{
}

/// An operation on a collection that could not be loaded changes nothing and
/// reports the reason.
pub proof fn lemma_failure_propagates(e: StorageError, name: Seq<char>, note: NoteView)
    ensures
        after_write(Err(e), name, note) == Err::<Map<Seq<char>, NoteView>, StorageError>(e),
        after_delete(Err(e), name) == Err::<Map<Seq<char>, NoteView>, StorageError>(e),
{
}

} // verus!
