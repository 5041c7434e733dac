//! The keyed view of a sequence of `(key, value)` entries, and how that
//! view moves under the edits the store performs: appending a fresh entry,
//! rewriting an entry in place, and removing one.

use vstd::prelude::*;

verus! {

/// The map held by a sequence of keyed entries; a later entry would win,
/// though the store never keeps two entries under one key.
pub open spec fn map_of<V>(s: Seq<(u32, V)>) -> Map<u32, V>
    decreases s.len(),
{
    if s.len() == 0 {
        Map::empty()
    } else {
        map_of(s.drop_last()).insert(s.last().0, s.last().1)
    }
}

/// No two entries share a key.
pub open spec fn distinct_keys<V>(s: Seq<(u32, V)>) -> bool {
    forall|i: int, j: int| 0 <= i < j < s.len() ==> s[i].0 != s[j].0
}

/// Keys strictly grow along the sequence.
pub open spec fn ascending_keys<V>(s: Seq<(u32, V)>) -> bool {
    forall|i: int, j: int| 0 <= i < j < s.len() ==> s[i].0 < s[j].0
}

pub proof fn lemma_ascending_implies_distinct<V>(s: Seq<(u32, V)>)
    requires
        ascending_keys(s),
    ensures
        distinct_keys(s),
{
}

/// A key is in the map exactly when some entry carries it.
pub proof fn lemma_map_of_contains<V>(s: Seq<(u32, V)>, key: u32)
    ensures
        map_of(s).contains_key(key) <==> exists|i: int| 0 <= i < s.len() && (#[trigger] s[i]).0 == key,
    decreases s.len(),
{
    if s.len() > 0 {
        lemma_map_of_contains(s.drop_last(), key);
        if s.last().0 == key {
            assert(s[s.len() - 1].0 == key);
        } else if map_of(s).contains_key(key) {
            let i = choose|i: int| 0 <= i < s.drop_last().len() && (#[trigger] s.drop_last()[i]).0 == key;
            assert(s[i].0 == key);
        } else {
            assert forall|i: int| 0 <= i < s.len() implies (#[trigger] s[i]).0 != key by {
                if i < s.len() - 1 {
                    assert(s.drop_last()[i].0 != key);
                }
            }
        }
    }
}

/// With distinct keys, the map sends each entry's key to its value.
pub proof fn lemma_map_of_index<V>(s: Seq<(u32, V)>, i: int)
    requires
        distinct_keys(s),
        0 <= i < s.len(),
    ensures
        map_of(s).contains_key(s[i].0),
        map_of(s)[s[i].0] == s[i].1,
    decreases s.len(),
{
    if i < s.len() - 1 {
        assert(s.drop_last()[i] == s[i]);
        lemma_map_of_index(s.drop_last(), i);
        assert(s[i].0 != s.last().0);
    }
}

/// Appending an entry inserts its key.
pub proof fn lemma_map_of_push<V>(s: Seq<(u32, V)>, key: u32, value: V)
    ensures
        map_of(s.push((key, value))) == map_of(s).insert(key, value),
{
    assert(s.push((key, value)).drop_last() =~= s);
    assert(s.push((key, value)).last() == (key, value));
}

/// Rewriting the entry that holds a key overwrites that key's value.
pub proof fn lemma_map_of_update<V>(s: Seq<(u32, V)>, i: int, value: V)
    requires
        distinct_keys(s),
        0 <= i < s.len(),
    ensures
        map_of(s.update(i, (s[i].0, value))) == map_of(s).insert(s[i].0, value),
    decreases s.len(),
{
    let key = s[i].0;
    let t = s.update(i, (key, value));
    if i == s.len() - 1 {
        assert(t.drop_last() =~= s.drop_last());
        assert(map_of(t) == map_of(s.drop_last()).insert(key, value));
        assert(map_of(s.drop_last()).insert(key, s[i].1).insert(key, value) =~= map_of(
            s.drop_last(),
        ).insert(key, value));
    } else {
        assert(t.drop_last() =~= s.drop_last().update(i, (key, value)));
        assert(s.drop_last()[i] == s[i]);
        lemma_map_of_update(s.drop_last(), i, value);
        assert(t.last() == s.last());
        assert(key != s.last().0);
        assert(map_of(s.drop_last()).insert(key, value).insert(s.last().0, s.last().1) =~= map_of(
            s.drop_last(),
        ).insert(s.last().0, s.last().1).insert(key, value));
    }
}

/// Removing the entry that holds a key removes that key.
pub proof fn lemma_map_of_remove<V>(s: Seq<(u32, V)>, i: int)
    requires
        distinct_keys(s),
        0 <= i < s.len(),
    ensures
        map_of(s.remove(i)) == map_of(s).remove(s[i].0),
    decreases s.len(),
{
    let key = s[i].0;
    if i == s.len() - 1 {
        assert(s.remove(i) =~= s.drop_last());
        lemma_map_of_contains(s.drop_last(), key);
        assert forall|j: int| 0 <= j < s.drop_last().len() implies (#[trigger] s.drop_last()[j]).0
            != key by {
            assert(s.drop_last()[j] == s[j]);
        }
        assert(map_of(s.drop_last()).insert(key, s.last().1).remove(key) =~= map_of(s.drop_last()));
    } else {
        assert(s.remove(i).drop_last() =~= s.drop_last().remove(i));
        assert(s.drop_last()[i] == s[i]);
        lemma_map_of_remove(s.drop_last(), i);
        assert(s.remove(i).last() == s.last());
        assert(key != s.last().0);
        assert(map_of(s.drop_last()).remove(key).insert(s.last().0, s.last().1) =~= map_of(
            s.drop_last(),
        ).insert(s.last().0, s.last().1).remove(key));
    }
}

} // verus!
