//! The order of names: the order in which the notes are held and listed.

use vstd::prelude::*;
use vstd::utf8::{encode_utf8, encode_utf8_decode_utf8};

verus! {

/// The order of byte strings: `a` comes before `b` when, at the first place
/// where they differ, `a` has the smaller byte, or when `a` ends there and `b`
/// goes on.
pub open spec fn bytes_lt(a: Seq<u8>, b: Seq<u8>) -> bool {
    exists|k: int| #[trigger] differ_at(a, b, k)
}

/// The two strings agree before place `k`, and there `a` ends or has the
/// smaller byte.
pub open spec fn differ_at(a: Seq<u8>, b: Seq<u8>, k: int) -> bool {
    &&& 0 <= k <= a.len()
    &&& k < b.len()
    &&& forall|i: int| 0 <= i < k ==> a[i] == b[i]
    &&& k < a.len() ==> a[k] < b[k]
}

/// The order of names: that of their UTF-8 bytes, which is the order of `str`.
pub open spec fn name_lt(a: Seq<char>, b: Seq<char>) -> bool {
    bytes_lt(encode_utf8(a), encode_utf8(b))
}

/// No byte string comes before itself.
pub proof fn lemma_bytes_lt_irreflexive(a: Seq<u8>)
    ensures
        !bytes_lt(a, a),
{
    assert forall|k: int| !#[trigger] differ_at(a, a, k) by {}
}

/// The order of byte strings is transitive.
pub proof fn lemma_bytes_lt_transitive(a: Seq<u8>, b: Seq<u8>, c: Seq<u8>)
    requires
        bytes_lt(a, b),
        bytes_lt(b, c),
    ensures
        bytes_lt(a, c),
{
    let k1 = choose|k: int| #[trigger] differ_at(a, b, k);
    let k2 = choose|k: int| #[trigger] differ_at(b, c, k);
    if k1 <= k2 {
        assert(differ_at(a, c, k1));
    } else {
        assert(differ_at(a, c, k2));
    }
}

/// Two byte strings that agree before place `k` are equal, or one of them
/// comes before the other.
proof fn lemma_bytes_lt_total_from(a: Seq<u8>, b: Seq<u8>, k: int)
    requires
        0 <= k <= a.len(),
        k <= b.len(),
        forall|i: int| 0 <= i < k ==> a[i] == b[i],
    ensures
        bytes_lt(a, b) || a == b || bytes_lt(b, a),
    decreases a.len() - k,
{
    if k == a.len() || k == b.len() {
        if a.len() < b.len() {
            assert(differ_at(a, b, k));
        } else if b.len() < a.len() {
            assert(differ_at(b, a, k));
        } else {
            assert(a =~= b);
        }
    } else if a[k] < b[k] {
        assert(differ_at(a, b, k));
    } else if b[k] < a[k] {
        assert(differ_at(b, a, k));
    } else {
        lemma_bytes_lt_total_from(a, b, k + 1);
    }
}

/// The order of byte strings is total: of two different strings one comes
/// before the other.
pub proof fn lemma_bytes_lt_total(a: Seq<u8>, b: Seq<u8>)
    ensures
        bytes_lt(a, b) || a == b || bytes_lt(b, a),
{
    lemma_bytes_lt_total_from(a, b, 0);
}

/// The order of names is total: of two different names one comes before the
/// other.
pub proof fn lemma_name_lt_total(a: Seq<char>, b: Seq<char>)
    ensures
        name_lt(a, b) || a == b || name_lt(b, a),
{
    lemma_bytes_lt_total(encode_utf8(a), encode_utf8(b));
    encode_utf8_decode_utf8(a);
    encode_utf8_decode_utf8(b);
}

/// The order of names is strict: a name does not come before itself, and of
/// two names at most one comes before the other.
pub proof fn lemma_name_lt_strict(a: Seq<char>, b: Seq<char>)
    ensures
        !name_lt(a, a),
        !(name_lt(a, b) && name_lt(b, a)),
        name_lt(a, b) ==> a != b,
{
    lemma_bytes_lt_irreflexive(encode_utf8(a));
    if name_lt(a, b) && name_lt(b, a) {
        lemma_bytes_lt_transitive(encode_utf8(a), encode_utf8(b), encode_utf8(a));
    }
}

/// The order of names is transitive.
pub proof fn lemma_name_lt_transitive(a: Seq<char>, b: Seq<char>, c: Seq<char>)
    requires
        name_lt(a, b),
        name_lt(b, c),
    ensures
        name_lt(a, c),
{
    lemma_bytes_lt_transitive(encode_utf8(a), encode_utf8(b), encode_utf8(c));
}

/// How one name stands to another in the order of names.
#[derive(Clone, Copy, Debug, PartialEq, Eq, Structural)]
pub enum NameOrder {
    Before,
    Same,
    After,
}

/// How name `a` stands to name `b` in the order of names.
pub fn compare_names(a: &str, b: &str) -> (r: NameOrder)
    ensures
        (r is Before) == name_lt(a@, b@),
        (r is Same) == (a@ == b@),
        (r is After) == name_lt(b@, a@),
{
    let x = a.as_bytes();
    let y = b.as_bytes();
    proof {
        encode_utf8_decode_utf8(a@);
        encode_utf8_decode_utf8(b@);
        lemma_name_lt_strict(a@, b@);
        lemma_name_lt_strict(b@, a@);
    }
    let mut i: usize = 0;
    while i < x.len() && i < y.len()
        invariant
            i <= x@.len(),
            i <= y@.len(),
            x@ == encode_utf8(a@),
            y@ == encode_utf8(b@),
            forall|j: int| 0 <= j < i ==> x@[j] == y@[j],
        decreases x@.len() - i,
    {
        if x[i] < y[i] {
            assert(differ_at(x@, y@, i as int));
            return NameOrder::Before;
        }
        if x[i] > y[i] {
            assert(differ_at(y@, x@, i as int));
            return NameOrder::After;
        }
        i += 1;
    }
    if x.len() < y.len() {
        assert(differ_at(x@, y@, i as int));
        NameOrder::Before
    } else if x.len() > y.len() {
        assert(differ_at(y@, x@, i as int));
        NameOrder::After
    } else {
        assert(x@ =~= y@);
        NameOrder::Same
    }
}

} // verus!
