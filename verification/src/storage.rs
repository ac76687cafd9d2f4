//! The collection of stored notes: a mapping from a note's name to its record,
//! held in the order of the names.

use crate::note::{Note, NoteView};
use crate::order::{
    compare_names, lemma_name_lt_strict, lemma_name_lt_transitive, name_lt, NameOrder,
};
use vstd::prelude::*;

verus! {

/// Whether some entry of the sequence goes by the name.
pub open spec fn has_name(entries: Seq<(String, Note)>, name: Seq<char>) -> bool {
    exists|i: int| 0 <= i < entries.len() && (#[trigger] entries[i]).0@ == name
}

/// The place of an entry that goes by the name.
pub open spec fn index_of_name(entries: Seq<(String, Note)>, name: Seq<char>) -> int {
    choose|i: int| 0 <= i < entries.len() && (#[trigger] entries[i]).0@ == name
}

/// No two entries of the sequence share a name.
pub open spec fn names_distinct(entries: Seq<(String, Note)>) -> bool {
    forall|i: int, j: int|
        0 <= i < entries.len() && 0 <= j < entries.len() && i != j ==> (#[trigger] entries[i]).0@
            != (#[trigger] entries[j]).0@
}

/// The entries stand in the order of their names, each name once.
pub open spec fn names_sorted(entries: Seq<(String, Note)>) -> bool {
    forall|i: int, j: int|
        0 <= i < j < entries.len() ==> name_lt(
            (#[trigger] entries[i]).0@,
            (#[trigger] entries[j]).0@,
        )
}

/// Entries that stand in the order of their names share no name.
pub proof fn lemma_sorted_distinct(entries: Seq<(String, Note)>)
    requires
        names_sorted(entries),
    ensures
        names_distinct(entries),
{
    assert forall|i: int, j: int|
        0 <= i < entries.len() && 0 <= j < entries.len() && i != j implies (
    #[trigger] entries[i]).0@ != (#[trigger] entries[j]).0@ by {
        if i < j {
            lemma_name_lt_strict(entries[i].0@, entries[j].0@);
        } else {
            lemma_name_lt_strict(entries[j].0@, entries[i].0@);
        }
    }
}

/// The mapping that a sequence of named records stands for.
pub open spec fn entries_map(entries: Seq<(String, Note)>) -> Map<Seq<char>, NoteView> {
    Map::new(
        |name: Seq<char>| has_name(entries, name),
        |name: Seq<char>| entries[index_of_name(entries, name)].1@,
    )
}

/// In a sequence without repeated names, the mapping gives each entry's record
/// under its name.
pub proof fn lemma_entry_in_map(entries: Seq<(String, Note)>, i: int)
    requires
        names_distinct(entries),
        0 <= i < entries.len(),
    ensures
        entries_map(entries).contains_key(entries[i].0@),
        entries_map(entries)[entries[i].0@] == entries[i].1@,
{
    let name = entries[i].0@;
    assert(has_name(entries, name));
    let k = index_of_name(entries, name);
    assert(0 <= k < entries.len() && entries[k].0@ == name);
}

/// The empty sequence stands for the empty mapping.
pub proof fn lemma_empty_entries()
    ensures
        entries_map(Seq::<(String, Note)>::empty()) == Map::<Seq<char>, NoteView>::empty(),
        names_distinct(Seq::<(String, Note)>::empty()),
{
    assert(entries_map(Seq::<(String, Note)>::empty()) =~= Map::<Seq<char>, NoteView>::empty());
}

/// Putting an entry with a new name into a sequence of entries adds its
/// binding to the mapping and leaves the names distinct.
pub proof fn lemma_insert_entry(entries: Seq<(String, Note)>, at: int, entry: (String, Note))
    requires
        names_distinct(entries),
        !has_name(entries, entry.0@),
        0 <= at <= entries.len(),
    ensures
        names_distinct(entries.insert(at, entry)),
        entries_map(entries.insert(at, entry)) == entries_map(entries).insert(
            entry.0@,
            entry.1@,
        ),
{
    let after = entries.insert(at, entry);
    let back = |a: int| if a < at { a } else { a - 1 };
    let forth = |a: int| if a < at { a } else { a + 1 };
    assert forall|a: int| 0 <= a < after.len() && a != at implies #[trigger] after[a]
        == entries[back(a)] by {}
    assert(after[at] == entry);
    assert forall|a: int, b: int|
        0 <= a < after.len() && 0 <= b < after.len() && a != b implies (#[trigger] after[a]).0@
        != (#[trigger] after[b]).0@ by {
        if a != at && b != at {
            assert(entries[back(a)].0@ != entries[back(b)].0@);
        } else if a == at {
            assert(entries[back(b)].0@ != entry.0@);
        } else {
            assert(entries[back(a)].0@ != entry.0@);
        }
    }
    assert forall|k: Seq<char>| has_name(after, k) <==> (has_name(entries, k) || k
        == entry.0@) by {
        if has_name(after, k) {
            let a = index_of_name(after, k);
            if a != at {
                assert(entries[back(a)].0@ == k);
            }
        }
        if has_name(entries, k) {
            let a = index_of_name(entries, k);
            assert(after[forth(a)].0@ == k);
        }
        if k == entry.0@ {
            assert(after[at].0@ == k);
        }
    }
    assert forall|k: Seq<char>| has_name(after, k) implies entries_map(after)[k] == entries_map(
        entries,
    ).insert(entry.0@, entry.1@)[k] by {
        let a = index_of_name(after, k);
        lemma_entry_in_map(after, a);
        if a != at {
            assert(entries[back(a)].0@ == k);
            lemma_entry_in_map(entries, back(a));
        }
    }
    assert(entries_map(after) =~= entries_map(entries).insert(entry.0@, entry.1@));
}

/// Replacing an entry by one of the same name rebinds that name in the mapping
/// and leaves the names as they were.
pub proof fn lemma_update_entry(entries: Seq<(String, Note)>, at: int, entry: (String, Note))
    requires
        names_distinct(entries),
        0 <= at < entries.len(),
        entries[at].0@ == entry.0@,
    ensures
        names_distinct(entries.update(at, entry)),
        entries_map(entries.update(at, entry)) == entries_map(entries).insert(
            entry.0@,
            entry.1@,
        ),
{
    let after = entries.update(at, entry);
    lemma_entry_in_map(entries, at);
    assert forall|a: int| 0 <= a < entries.len() implies (#[trigger] after[a]).0@
        == entries[a].0@ by {}
    assert forall|a: int, b: int|
        0 <= a < after.len() && 0 <= b < after.len() && a != b implies (#[trigger] after[a]).0@
        != (#[trigger] after[b]).0@ by {
        assert(entries[a].0@ != entries[b].0@);
    }
    assert forall|k: Seq<char>| has_name(after, k) <==> has_name(entries, k) by {
        if has_name(after, k) {
            let a = index_of_name(after, k);
            assert(entries[a].0@ == k);
        }
        if has_name(entries, k) {
            let a = index_of_name(entries, k);
            assert(after[a].0@ == k);
        }
    }
    assert forall|k: Seq<char>| has_name(after, k) implies entries_map(after)[k] == entries_map(
        entries,
    ).insert(entry.0@, entry.1@)[k] by {
        let a = index_of_name(after, k);
        lemma_entry_in_map(after, a);
        lemma_entry_in_map(entries, a);
    }
    assert(entries_map(after) =~= entries_map(entries).insert(entry.0@, entry.1@));
}

/// Taking an entry out of a sequence of entries takes its name out of the
/// mapping and leaves the names distinct.
pub proof fn lemma_remove_entry(entries: Seq<(String, Note)>, at: int)
    requires
        names_distinct(entries),
        0 <= at < entries.len(),
    ensures
        names_distinct(entries.remove(at)),
        entries_map(entries.remove(at)) == entries_map(entries).remove(entries[at].0@),
{
    let after = entries.remove(at);
    let name = entries[at].0@;
    let forth = |a: int| if a < at { a } else { a + 1 };
    let back = |a: int| if a < at { a } else { a - 1 };
    assert forall|a: int| 0 <= a < after.len() implies #[trigger] after[a] == entries[forth(
        a,
    )] by {}
    assert forall|a: int, b: int|
        0 <= a < after.len() && 0 <= b < after.len() && a != b implies (#[trigger] after[a]).0@
        != (#[trigger] after[b]).0@ by {
        assert(entries[forth(a)].0@ != entries[forth(b)].0@);
    }
    assert forall|k: Seq<char>| has_name(after, k) <==> (has_name(entries, k) && k != name) by {
        if has_name(after, k) {
            let a = index_of_name(after, k);
            assert(entries[forth(a)].0@ == k);
            assert(entries[forth(a)].0@ != entries[at].0@);
        }
        if has_name(entries, k) && k != name {
            let a = index_of_name(entries, k);
            assert(after[back(a)].0@ == k);
        }
    }
    assert forall|k: Seq<char>| has_name(after, k) implies entries_map(after)[k] == entries_map(
        entries,
    )[k] by {
        let a = index_of_name(after, k);
        lemma_entry_in_map(after, a);
        assert(entries[forth(a)].0@ == k);
        lemma_entry_in_map(entries, forth(a));
    }
    assert(entries_map(after) =~= entries_map(entries).remove(name));
}

/// In entries that stand in the order of their names, a name has one place:
/// the entries before it come before the name, those after it come after the
/// name, and a note goes by the name only if it stands at that place.
pub proof fn lemma_place_of_name(
    entries: Seq<(String, Note)>,
    name: Seq<char>,
    at: int,
    found: bool,
)
    requires
        names_sorted(entries),
        0 <= at <= entries.len(),
        forall|j: int| 0 <= j < at ==> name_lt((#[trigger] entries[j]).0@, name),
        found ==> at < entries.len() && entries[at].0@ == name,
        !found ==> at == entries.len() || name_lt(name, entries[at].0@),
    ensures
        forall|j: int|
            at + (if found { 1int } else { 0int }) <= j < entries.len() ==> name_lt(
                name,
                (#[trigger] entries[j]).0@,
            ),
        found == has_name(entries, name),
{
    let from = at + (if found { 1int } else { 0int });
    assert forall|j: int| from <= j < entries.len() implies name_lt(
        name,
        (#[trigger] entries[j]).0@,
    ) by {
        if j > at {
            assert(name_lt(entries[at].0@, entries[j].0@));
            if !found {
                lemma_name_lt_transitive(name, entries[at].0@, entries[j].0@);
            }
        }
    }
    if !found {
        assert forall|j: int| 0 <= j < entries.len() implies (#[trigger] entries[j]).0@
            != name by {
            lemma_name_lt_strict(entries[j].0@, name);
            lemma_name_lt_strict(name, entries[j].0@);
        }
    }
}

/// The stored notes. No two of them share a name, and they are held in the
/// order of their names.
pub struct EnmStorage {
    notes: Vec<(String, Note)>,
}

impl View for EnmStorage {
    type V = Map<Seq<char>, NoteView>;

    closed spec fn view(&self) -> Map<Seq<char>, NoteView> {
        entries_map(self.notes@)
    }
}

impl EnmStorage {
    /// The collection's invariant: the notes stand in the order of their names,
    /// each name once.
    #[verifier::type_invariant]
    spec fn wf(&self) -> bool {
        names_sorted(self.notes@)
    }

    /// The number of notes held.
    pub closed spec fn spec_len(&self) -> nat {
        self.notes@.len()
    }

    /// A collection with no notes.
    pub fn new() -> (r: Self)
        ensures
            r@ == Map::<Seq<char>, NoteView>::empty(),
            r.spec_len() == 0,
    {
        proof {
            lemma_empty_entries();
        }
        EnmStorage { notes: Vec::new() }
    }

    /// The number of notes held.
    pub fn len(&self) -> (n: usize)
        ensures
            n == self.spec_len(),
    {
        self.notes.len()
    }

    /// Whether the collection holds no note.
    pub fn is_empty(&self) -> (r: bool)
        ensures
            r == (self.spec_len() == 0),
            r == (self@ == Map::<Seq<char>, NoteView>::empty()),
    {
        proof {
            use_type_invariant(self);
            if self.notes@.len() == 0 {
                assert(self.notes@ =~= Seq::<(String, Note)>::empty());
                lemma_empty_entries();
            } else {
                lemma_sorted_distinct(self.notes@);
                lemma_entry_in_map(self.notes@, 0);
            }
        }
        self.notes.len() == 0
    }

    /// The place where the name stands or would stand, and whether a note goes
    /// by it.
    fn position(&self, name: &str) -> (r: (usize, bool))
        ensures
            r.0 <= self.notes@.len(),
            forall|j: int| 0 <= j < r.0 ==> name_lt((#[trigger] self.notes@[j]).0@, name@),
            forall|j: int|
                r.0 + (if r.1 { 1int } else { 0int }) <= j < self.notes@.len() ==> name_lt(
                    name@,
                    (#[trigger] self.notes@[j]).0@,
                ),
            r.1 ==> r.0 < self.notes@.len() && self.notes@[r.0 as int].0@ == name@,
            r.1 == has_name(self.notes@, name@),
    {
        proof {
            use_type_invariant(self);
        }
        let mut i: usize = 0;
        while i < self.notes.len()
            invariant
                i <= self.notes@.len(),
                names_sorted(self.notes@),
                forall|j: int| 0 <= j < i ==> name_lt((#[trigger] self.notes@[j]).0@, name@),
            decreases self.notes@.len() - i,
        {
            match compare_names(self.notes[i].0.as_str(), name) {
                NameOrder::Before => {
                    i += 1;
                },
                NameOrder::Same => {
                    proof {
                        lemma_place_of_name(self.notes@, name@, i as int, true);
                    }
                    return (i, true);
                },
                NameOrder::After => {
                    proof {
                        lemma_place_of_name(self.notes@, name@, i as int, false);
                    }
                    return (i, false);
                },
            }
        }
        proof {
            lemma_place_of_name(self.notes@, name@, i as int, false);
        }
        (i, false)
    }

    /// Whether a note goes by the name.
    pub fn contains(&self, name: &str) -> (r: bool)
        ensures
            r == self@.contains_key(name@),
    {
        self.position(name).1
    }

    /// The record stored under the name, if there is one.
    pub fn get(&self, name: &str) -> (r: Option<&Note>)
        ensures
            match r {
                Some(note) => self@.contains_key(name@) && self@[name@] == note@,
                None => !self@.contains_key(name@),
            },
    {
        let (i, found) = self.position(name);
        if found {
            proof {
                use_type_invariant(self);
                lemma_sorted_distinct(self.notes@);
                lemma_entry_in_map(self.notes@, i as int);
            }
            Some(&self.notes[i].1)
        } else {
            None
        }
    }

    /// Stores the record under the name. A record already stored under that
    /// name is replaced and handed back; nothing else changes.
    pub fn insert(&mut self, name: String, note: Note) -> (r: Option<Note>)
        ensures
            final(self)@ == old(self)@.insert(name@, note@),
            match r {
                Some(prior) => old(self)@.contains_key(name@) && old(self)@[name@] == prior@,
                None => !old(self)@.contains_key(name@),
            },
            final(self).spec_len() == old(self).spec_len() + (if old(self)@.contains_key(name@) {
                0nat
            } else {
                1nat
            }),
    {
        let ghost before = self.notes@;
        proof {
            use_type_invariant(&*self);
            lemma_sorted_distinct(before);
        }
        let (i, found) = self.position(name.as_str());
        let mut entry = (name, note);
        let ghost fresh = entry;
        let mut notes: Vec<(String, Note)> = Vec::new();
        std::mem::swap(&mut self.notes, &mut notes);
        let r = if found {
            proof {
                lemma_entry_in_map(before, i as int);
                lemma_update_entry(before, i as int, fresh);
            }
            std::mem::swap(&mut notes[i], &mut entry);
            proof {
                assert(notes@ == before.update(i as int, fresh));
                assert forall|a: int, b: int| 0 <= a < b < notes@.len() implies name_lt(
                    (#[trigger] notes@[a]).0@,
                    (#[trigger] notes@[b]).0@,
                ) by {
                    assert(name_lt(before[a].0@, before[b].0@));
                }
            }
            Some(entry.1)
        } else {
            proof {
                lemma_insert_entry(before, i as int, fresh);
            }
            notes.insert(i, entry);
            proof {
                assert(notes@ == before.insert(i as int, fresh));
                assert forall|a: int, b: int| 0 <= a < b < notes@.len() implies name_lt(
                    (#[trigger] notes@[a]).0@,
                    (#[trigger] notes@[b]).0@,
                ) by {
                    let a0 = if a < i { a } else { a - 1 };
                    let b0 = if b < i { b } else { b - 1 };
                    if a != i && b != i {
                        assert(name_lt(before[a0].0@, before[b0].0@));
                    } else if a == i {
                        assert(name_lt(fresh.0@, before[b0].0@));
                    } else {
                        assert(name_lt(before[a0].0@, fresh.0@));
                    }
                }
            }
            None
        };
        std::mem::swap(&mut self.notes, &mut notes);
        r
    }

    /// Removes the note that goes by the name and hands its record back. Where
    /// no note goes by the name, nothing changes.
    pub fn remove(&mut self, name: &str) -> (r: Option<Note>)
        ensures
            final(self)@ == old(self)@.remove(name@),
            !old(self)@.contains_key(name@) ==> final(self)@ == old(self)@,
            match r {
                Some(prior) => old(self)@.contains_key(name@) && old(self)@[name@] == prior@,
                None => !old(self)@.contains_key(name@),
            },
            final(self).spec_len() + (if old(self)@.contains_key(name@) {
                1nat
            } else {
                0nat
            }) == old(self).spec_len(),
    {
        let ghost before = self.notes@;
        proof {
            use_type_invariant(&*self);
            lemma_sorted_distinct(before);
        }
        let (i, found) = self.position(name);
        if found {
            proof {
                lemma_entry_in_map(before, i as int);
                lemma_remove_entry(before, i as int);
            }
            let mut notes: Vec<(String, Note)> = Vec::new();
            std::mem::swap(&mut self.notes, &mut notes);
            let entry = notes.remove(i);
            proof {
                assert(notes@ == before.remove(i as int));
                assert forall|a: int, b: int| 0 <= a < b < notes@.len() implies name_lt(
                    (#[trigger] notes@[a]).0@,
                    (#[trigger] notes@[b]).0@,
                ) by {
                    let a0 = if a < i { a } else { a + 1 };
                    let b0 = if b < i { b } else { b + 1 };
                    assert(name_lt(before[a0].0@, before[b0].0@));
                }
            }
            std::mem::swap(&mut self.notes, &mut notes);
            Some(entry.1)
        } else {
            proof {
                assert(entries_map(before) =~= entries_map(before).remove(name@));
            }
            None
        }
    }

    /// The names of all notes, in the order of names. This is the order in which
    /// a list of the notes is shown.
    pub fn names(&self) -> (names: Vec<String>)
        ensures
            names@.len() == self.spec_len(),
            forall|i: int| 0 <= i < names@.len() ==> self@.contains_key((#[trigger] names@[i])@),
            forall|name: Seq<char>|
                self@.contains_key(name) ==> exists|i: int|
                    0 <= i < names@.len() && (#[trigger] names@[i])@ == name,
            forall|i: int, j: int|
                0 <= i < j < names@.len() ==> name_lt(
                    (#[trigger] names@[i])@,
                    (#[trigger] names@[j])@,
                ),
    {
        let mut names: Vec<String> = Vec::new();
        let mut i: usize = 0;
        while i < self.notes.len()
            invariant
                i <= self.notes@.len(),
                names@.len() == i,
                forall|j: int| 0 <= j < i ==> (#[trigger] names@[j])@ == self.notes@[j].0@,
            decreases self.notes@.len() - i,
        {
            names.push(self.notes[i].0.clone());
            i += 1;
        }
        proof {
            use_type_invariant(self);
            let entries = self.notes@;
            assert forall|j: int| 0 <= j < names@.len() implies self@.contains_key(
                (#[trigger] names@[j])@,
            ) by {
                assert(entries[j].0@ == names@[j]@);
            }
            assert forall|name: Seq<char>| self@.contains_key(name) implies exists|j: int|
                0 <= j < names@.len() && (#[trigger] names@[j])@ == name by {
                let j = index_of_name(entries, name);
                assert(names@[j]@ == name);
            }
            assert forall|a: int, b: int| 0 <= a < b < names@.len() implies name_lt(
                (#[trigger] names@[a])@,
                (#[trigger] names@[b])@,
            ) by {
                assert(name_lt(entries[a].0@, entries[b].0@));
            }
        }
        names
    }

    /// Hands out every note with its name, in the order of the names.
    pub fn into_entries(self) -> (entries: Vec<(String, Note)>)
        ensures
            names_sorted(entries@),
            names_distinct(entries@),
            entries_map(entries@) == self@,
            entries@.len() == self.spec_len(),
    {
        proof {
            use_type_invariant(&self);
            lemma_sorted_distinct(self.notes@);
        }
        self.notes
    }
}

} // verus!
