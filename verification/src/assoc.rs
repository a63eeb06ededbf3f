//! Association lists with unique string keys, viewed as maps.
//!
//! The in-memory store keeps its tables as ordered key/value vectors so
//! that iteration order is deterministic; contracts speak of the
//! corresponding map. The lemmas here relate list operations (push,
//! in-place update, removal) to map operations.

use vstd::prelude::*;

verus! {

/// The map an association list denotes (later bindings win; with unique
/// keys the order is irrelevant).
pub open spec fn assoc_map<V: View>(s: Seq<(String, V)>) -> Map<Seq<char>, V::V>
    decreases s.len(),
{
    if s.len() == 0 {
        Map::empty()
    } else {
        assoc_map(s.drop_last()).insert(s.last().0@, s.last().1@)
    }
}

/// No two bindings share a key.
pub open spec fn assoc_unique<V>(s: Seq<(String, V)>) -> bool {
    forall|i: int, j: int| 0 <= i < j < s.len() ==> (#[trigger] s[i]).0@ != (#[trigger] s[j]).0@
}

/// What the map of a unique-keyed list holds: exactly one binding per
/// list entry.
pub proof fn lemma_assoc_map_char<V: View>(s: Seq<(String, V)>)
    requires
        assoc_unique(s),
    ensures
        forall|k: Seq<char>| assoc_map(s).contains_key(k) <==> (exists|i: int|
            0 <= i < s.len() && (#[trigger] s[i]).0@ == k),
        forall|i: int| 0 <= i < s.len() ==> assoc_map(s).contains_key((#[trigger] s[i]).0@)
            && assoc_map(s)[s[i].0@] == s[i].1@,
        assoc_map(s).dom().finite(),
        assoc_map(s).dom().len() == s.len(),
    decreases s.len(),
{
    if s.len() > 0 {
        assert(assoc_unique(s.drop_last())) by {
            assert(forall|i: int, j: int|
                0 <= i < j < s.drop_last().len() ==> (#[trigger] s.drop_last()[i]) == s[i] && (
                #[trigger] s.drop_last()[j]) == s[j]);
        }
        lemma_assoc_map_char(s.drop_last());
        assert(forall|i: int| 0 <= i < s.len() - 1 ==> (#[trigger] s[i]) == s.drop_last()[i]);
        assert(!assoc_map(s.drop_last()).contains_key(s.last().0@));
        assert(assoc_map(s).dom() =~= assoc_map(s.drop_last()).dom().insert(s.last().0@));
    }
}

/// Replacing the binding at `i` with one for the same key updates the
/// map at that key and keeps the keys unique.
pub proof fn lemma_assoc_map_update<V: View>(s: Seq<(String, V)>, i: int, x: (String, V))
    requires
        assoc_unique(s),
        0 <= i < s.len(),
        x.0@ == s[i].0@,
    ensures
        assoc_map(s.update(i, x)) == assoc_map(s).insert(x.0@, x.1@),
        assoc_unique(s.update(i, x)),
    decreases s.len(),
{
    let t = s.update(i, x);
    assert(assoc_unique(t)) by {
        assert(forall|j: int| 0 <= j < t.len() ==> (#[trigger] t[j]).0@ == s[j].0@);
    }
    if s.len() > 0 {
        if i == s.len() - 1 {
            assert(t.drop_last() =~= s.drop_last());
            assert(assoc_map(t) == assoc_map(s.drop_last()).insert(x.0@, x.1@));
            assert(assoc_map(s).insert(x.0@, x.1@) =~= assoc_map(s.drop_last()).insert(
                x.0@,
                x.1@,
            ));
        } else {
            assert(assoc_unique(s.drop_last())) by {
                assert(forall|a: int, b: int|
                    0 <= a < b < s.drop_last().len() ==> (#[trigger] s.drop_last()[a]) == s[a] && (
                    #[trigger] s.drop_last()[b]) == s[b]);
            }
            lemma_assoc_map_update(s.drop_last(), i, x);
            assert(t.drop_last() =~= s.drop_last().update(i, x));
            assert(t.last() == s.last());
            assert(assoc_map(t) == assoc_map(s.drop_last()).insert(x.0@, x.1@).insert(
                s.last().0@,
                s.last().1@,
            ));
            assert(x.0@ != s.last().0@);
            assert(assoc_map(s.drop_last()).insert(x.0@, x.1@).insert(s.last().0@, s.last().1@)
                =~= assoc_map(s).insert(x.0@, x.1@));
        }
    }
}

/// Removing the binding at `i` removes the key from the map and keeps
/// the keys unique.
pub proof fn lemma_assoc_map_remove<V: View>(s: Seq<(String, V)>, i: int)
    requires
        assoc_unique(s),
        0 <= i < s.len(),
    ensures
        assoc_map(s.remove(i)) == assoc_map(s).remove(s[i].0@),
        assoc_unique(s.remove(i)),
    decreases s.len(),
{
    let t = s.remove(i);
    assert(assoc_unique(t)) by {
        assert(forall|j: int|
            0 <= j < t.len() ==> (#[trigger] t[j]) == (if j < i {
                s[j]
            } else {
                s[j + 1]
            }));
    }
    assert(assoc_unique(s.drop_last())) by {
        assert(forall|a: int, b: int|
            0 <= a < b < s.drop_last().len() ==> (#[trigger] s.drop_last()[a]) == s[a] && (
            #[trigger] s.drop_last()[b]) == s[b]);
    }
    lemma_assoc_map_char(s);
    if i == s.len() - 1 {
        assert(t =~= s.drop_last());
        lemma_assoc_map_char(s.drop_last());
        assert(!assoc_map(s.drop_last()).contains_key(s[i].0@));
        assert(assoc_map(s.drop_last()) =~= assoc_map(s).remove(s[i].0@));
    } else {
        lemma_assoc_map_remove(s.drop_last(), i);
        assert(t.drop_last() =~= s.drop_last().remove(i));
        assert(t.last() == s.last());
        assert(assoc_map(t) == assoc_map(s.drop_last()).remove(s[i].0@).insert(
            s.last().0@,
            s.last().1@,
        ));
        assert(s[i].0@ != s.last().0@);
        assert(assoc_map(s.drop_last()).remove(s[i].0@).insert(s.last().0@, s.last().1@)
            =~= assoc_map(s).remove(s[i].0@));
    }
}

/// Appending a binding for a fresh key inserts it into the map and
/// keeps the keys unique.
pub proof fn lemma_assoc_map_push<V: View>(s: Seq<(String, V)>, x: (String, V))
    requires
        assoc_unique(s),
        forall|i: int| 0 <= i < s.len() ==> (#[trigger] s[i]).0@ != x.0@,
    ensures
        assoc_map(s.push(x)) == assoc_map(s).insert(x.0@, x.1@),
        assoc_unique(s.push(x)),
{
    assert(s.push(x).drop_last() =~= s);
    assert(s.push(x).last() == x);
    assert(assoc_unique(s.push(x))) by {
        assert(forall|j: int| 0 <= j < s.len() ==> (#[trigger] s.push(x)[j]) == s[j]);
    }
}

} // verus!
