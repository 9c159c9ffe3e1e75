//! Laws of the map's behaviour, stated over the view that the engine's
//! contracts speak of (`HashMap::view`, a `Map<Seq<char>, V>`), and over the
//! bucket-index function. Each law composes the `ensures` of the public
//! operations: `insert` yields `old@.insert(key, val)`, `remove` yields
//! `old@.remove(key)`, `get` returns the view's value for the key, and
//! `len` returns the size of the view's domain.

use vstd::prelude::*;

verus! {

use crate::hashers::bucket_index;

/// Looking a key up right after inserting it finds exactly the inserted
/// value, so the key is also reported as contained.
pub proof fn lemma_insert_then_get<V>(m: Map<Seq<char>, V>, key: Seq<char>, val: V)
    ensures
        m.insert(key, val).contains_key(key),
        m.insert(key, val)[key] == val,
{
}

/// Inserting an already-present key overwrites in place: the latest value
/// wins and the number of entries does not change.
pub proof fn lemma_insert_same_key_twice<V>(
    m: Map<Seq<char>, V>,
    key: Seq<char>,
    first: V,
    second: V,
)
    ensures
        m.insert(key, first).insert(key, second) == m.insert(key, second),
        m.insert(key, first).insert(key, second).dom().len() == m.insert(key, first).dom().len(),
{
    assert(m.insert(key, first).insert(key, second) =~= m.insert(key, second));
    assert(m.insert(key, first).insert(key, second).dom() =~= m.insert(key, first).dom());
}

/// Removing a present key drops exactly one entry, and the key is gone: a
/// later lookup finds nothing and a later removal removes nothing.
pub proof fn lemma_remove_present<V>(m: Map<Seq<char>, V>, key: Seq<char>)
    requires
        m.dom().finite(),
        m.contains_key(key),
    ensures
        !m.remove(key).contains_key(key),
        m.remove(key).remove(key) == m.remove(key),
        m.remove(key).dom().len() + 1 == m.dom().len(),
{
    assert(m.remove(key).remove(key) =~= m.remove(key));
    vstd::set::axiom_set_remove_len(m.dom(), key);
}

/// Removing an absent key is a no-op: the map, and with it the number of
/// entries, is unchanged.
pub proof fn lemma_remove_absent<V>(m: Map<Seq<char>, V>, key: Seq<char>)
    requires
        !m.contains_key(key),
    ensures
        m.remove(key) == m,
{
    assert(m.remove(key) =~= m);
}

/// A table of zero buckets yields index 0 for every digest: the guard that
/// replaces a division by zero.
pub proof fn lemma_index_of_zero_capacity(hash: u64)
    ensures
        bucket_index(hash, 0) == 0,
{
}

} // verus!
