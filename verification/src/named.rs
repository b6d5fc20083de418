//! Sequences of named entries in which no name occurs twice.
//!
//! A guild's categories and a category's games are both kept this way: in the
//! order in which their names were first added, each name at most once. These
//! are the operations of a map keyed by name on such a sequence.

use vstd::prelude::*;

verus! {

/// An entry that is found by its name.
pub trait Named {
    spec fn key(&self) -> Seq<char>;
}

/// No two entries of `s` have the same name.
pub open spec fn unique_keys<T: Named>(s: Seq<T>) -> bool {
    forall|i: int, j: int|
        0 <= i < s.len() && 0 <= j < s.len() && i != j ==> #[trigger] s[i].key() != #[trigger] s[j].key()
}

/// Some entry of `s` is named `k`.
pub open spec fn has_key<T: Named>(s: Seq<T>, k: Seq<char>) -> bool {
    exists|i: int| 0 <= i < s.len() && #[trigger] s[i].key() == k
}

/// The position of the entry named `k` (meaningful where there is one).
pub open spec fn key_index<T: Named>(s: Seq<T>, k: Seq<char>) -> int {
    choose|i: int| 0 <= i < s.len() && #[trigger] s[i].key() == k
}

/// The entry named `k`, if any.
pub open spec fn lookup<T: Named>(s: Seq<T>, k: Seq<char>) -> Option<T> {
    if has_key(s, k) {
        Some(s[key_index(s, k)])
    } else {
        None
    }
}

/// `s` with `x` stored under its name: in place of the entry of that name,
/// or at the end where there is none.
pub open spec fn upsert<T: Named>(s: Seq<T>, x: T) -> Seq<T> {
    if has_key(s, x.key()) {
        s.update(key_index(s, x.key()), x)
    } else {
        s.push(x)
    }
}

/// `s` without the entry named `k`; the others keep their order.
pub open spec fn without<T: Named>(s: Seq<T>, k: Seq<char>) -> Seq<T> {
    if has_key(s, k) {
        s.remove(key_index(s, k))
    } else {
        s
    }
}

/// In a sequence with unique names, the entry named `k` is the one at any
/// position that holds the name `k`.
pub proof fn lemma_key_index<T: Named>(s: Seq<T>, k: Seq<char>, i: int)
    requires
        unique_keys(s),
        0 <= i < s.len(),
        s[i].key() == k,
    ensures
        has_key(s, k),
        key_index(s, k) == i,
        lookup(s, k) == Some(s[i]),
{
    assert(has_key(s, k));
    let j = key_index(s, k);
    if j != i {
        assert(s[i].key() != s[j].key());
    }
}

/// Storing an entry keeps names unique; the entry is then found under its
/// name, and every other name finds what it found before.
pub proof fn lemma_upsert<T: Named>(s: Seq<T>, x: T)
    requires
        unique_keys(s),
    ensures
        unique_keys(upsert(s, x)),
        lookup(upsert(s, x), x.key()) == Some(x),
        forall|k: Seq<char>| k != x.key() ==> lookup(upsert(s, x), k) == lookup(s, k),
{
    let t = upsert(s, x);
    if has_key(s, x.key()) {
        let p = key_index(s, x.key());
        assert forall|i: int, j: int|
            0 <= i < t.len() && 0 <= j < t.len() && i != j implies #[trigger] t[i].key()
            != #[trigger] t[j].key() by {
            if i == p {
                assert(s[p].key() == x.key());
                assert(s[j].key() != s[p].key());
            } else if j == p {
                assert(s[i].key() != s[p].key());
            } else {
                assert(s[i].key() != s[j].key());
            }
        }
        lemma_key_index(t, x.key(), p);
    } else {
        let n = s.len() as int;
        assert forall|i: int, j: int|
            0 <= i < t.len() && 0 <= j < t.len() && i != j implies #[trigger] t[i].key()
            != #[trigger] t[j].key() by {
            if i == n {
                assert(s[j].key() != x.key());
            } else if j == n {
                assert(s[i].key() != x.key());
            } else {
                assert(s[i].key() != s[j].key());
            }
        }
        lemma_key_index(t, x.key(), n);
    }
    assert forall|k: Seq<char>| k != x.key() implies lookup(t, k) == lookup(s, k) by {
        if has_key(s, k) {
            let i = key_index(s, k);
            if has_key(s, x.key()) {
                assert(i != key_index(s, x.key()));
            }
            assert(t[i] == s[i]);
            lemma_key_index(t, k, i);
        } else if has_key(t, k) {
            let i = key_index(t, k);
            if has_key(s, x.key()) {
                assert(s[i] == t[i]);
            } else {
                assert(i < s.len());
                assert(s[i] == t[i]);
            }
        }
    }
}

/// Removing a name keeps names unique; the name is then not found, and every
/// other name finds what it found before.
pub proof fn lemma_without<T: Named>(s: Seq<T>, k: Seq<char>)
    requires
        unique_keys(s),
    ensures
        unique_keys(without(s, k)),
        lookup(without(s, k), k) is None,
        forall|k2: Seq<char>| k2 != k ==> lookup(without(s, k), k2) == lookup(s, k2),
{
    let t = without(s, k);
    if has_key(s, k) {
        let p = key_index(s, k);
        assert forall|i: int, j: int|
            0 <= i < t.len() && 0 <= j < t.len() && i != j implies #[trigger] t[i].key()
            != #[trigger] t[j].key() by {
            let si = if i < p { i } else { i + 1 };
            let sj = if j < p { j } else { j + 1 };
            assert(t[i] == s[si]);
            assert(t[j] == s[sj]);
            assert(s[si].key() != s[sj].key());
        }
        if has_key(t, k) {
            let i = key_index(t, k);
            let si = if i < p { i } else { i + 1 };
            assert(t[i] == s[si]);
            assert(s[si].key() == s[p].key());
        }
        assert forall|k2: Seq<char>| k2 != k implies lookup(t, k2) == lookup(s, k2) by {
            if has_key(s, k2) {
                let i = key_index(s, k2);
                assert(i != p);
                let ti = if i < p { i } else { i - 1 };
                assert(t[ti] == s[i]);
                lemma_key_index(t, k2, ti);
            } else if has_key(t, k2) {
                let i = key_index(t, k2);
                let si = if i < p { i } else { i + 1 };
                assert(t[i] == s[si]);
            }
        }
    }
}

/// Removing the name of an entry just stored gives what removing the name
/// from the original sequence gives.
pub proof fn lemma_without_upsert<T: Named>(s: Seq<T>, x: T)
    requires
        unique_keys(s),
    ensures
        without(upsert(s, x), x.key()) == without(s, x.key()),
{
    let t = upsert(s, x);
    lemma_upsert(s, x);
    if has_key(s, x.key()) {
        let p = key_index(s, x.key());
        lemma_key_index(t, x.key(), p);
        assert(t.remove(p) =~= s.remove(p));
    } else {
        let n = s.len() as int;
        lemma_key_index(t, x.key(), n);
        assert(t.remove(n) =~= s);
    }
}

/// Storing twice under one name leaves the second entry.
pub proof fn lemma_upsert_upsert<T: Named>(s: Seq<T>, x: T, y: T)
    requires
        unique_keys(s),
        x.key() == y.key(),
    ensures
        upsert(upsert(s, x), y) == upsert(s, y),
{
    let t = upsert(s, x);
    lemma_upsert(s, x);
    if has_key(s, x.key()) {
        let p = key_index(s, x.key());
        lemma_key_index(t, x.key(), p);
        assert(t.update(p, y) =~= s.update(p, y));
    } else {
        let n = s.len() as int;
        lemma_key_index(t, x.key(), n);
        assert(t.update(n, y) =~= s.push(y));
    }
}

} // verus!
