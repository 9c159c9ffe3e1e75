//! The hash map engine: a fixed-length array of optional chain heads, a
//! live-entry counter, and a chosen hasher. Collisions are resolved by
//! separate chaining; the table doubles when the load factor reaches 3/4.

use vstd::prelude::*;

verus! {

use crate::hashers::easy_hasher::EasyHasher;
use crate::hashers::bucket_index;
use crate::hashers::Hasher;
use crate::hashers::HasherChoice;
use crate::node::Node;

/// Buckets in a freshly created or cleared map.
pub const DEFAULT_MAX_SIZE: usize = 32;

/// The resize threshold is the load factor 3/4: the table grows as soon as
/// `len / capacity` reaches it.
const FILL_FACTOR_NUMERATOR: u128 = 3;

const FILL_FACTOR_DENOMINATOR: u128 = 4;

/// A hash map from text keys to copyable values, built over a bucket array
/// of singly-linked entry chains.
pub struct HashMap<V> {
    values: Vec<Option<Box<Node<V>>>>,
    len: usize,
    hasher: HasherChoice,
}

impl<V: Copy> HashMap<V> {
    /// The number of buckets.
    pub closed spec fn spec_cap(self) -> nat {
        self.values@.len()
    }

    /// The live-entry counter as stored; under `wf` it equals the number of
    /// keys in the map's view.
    pub closed spec fn spec_len(self) -> nat {
        self.len as nat
    }

    /// The hashing strategy this map was built with.
    pub closed spec fn spec_hasher(self) -> HasherChoice {
        self.hasher
    }

    /// The bucket that `key` belongs to under the current hasher and the
    /// current capacity.
    spec fn bucket_of(self, key: Seq<char>) -> int {
        bucket_index(self.hasher.spec_hash(key), self.values@.len() as usize) as int
    }

    /// The entries of this map: each key is looked up in the one bucket its
    /// digest selects.
    pub closed spec fn as_map(self) -> Map<Seq<char>, V> {
        Map::new(
            |key: Seq<char>| Node::<V>::optional_as_map(self.values@[self.bucket_of(key)]).dom().contains(key),
            |key: Seq<char>| Node::<V>::optional_as_map(self.values@[self.bucket_of(key)])[key],
        )
    }

    /// Bucket `index` holds a duplicate-free chain whose every key hashes to
    /// `index` under the current hasher and capacity.
    spec fn bucket_ok(self, index: int) -> bool {
        &&& Node::<V>::optional_distinct(self.values@[index])
        &&& forall|key: Seq<char>|
            #[trigger] Node::<V>::optional_as_map(self.values@[index]).dom().contains(key)
                ==> self.bucket_of(key) == index
    }

    /// The bucket array is non-empty and every bucket is well-placed and
    /// duplicate-free. This is what the structure itself guarantees, apart
    /// from the entry counter.
    spec fn buckets_ok(self) -> bool {
        &&& self.values@.len() > 0
        &&& self.values@.len() <= usize::MAX
        &&& forall|index: int| 0 <= index < self.values@.len() ==> #[trigger] self.bucket_ok(index)
    }

    /// Well-formedness: the buckets are consistent and the entry counter
    /// equals the number of entries reachable by walking all chains.
    pub closed spec fn wf(self) -> bool {
        &&& self.buckets_ok()
        &&& self@.dom().finite()
        &&& self.len as nat == self@.dom().len()
    }
}

impl<V: Copy> View for HashMap<V> {
    type V = Map<Seq<char>, V>;

    open spec fn view(&self) -> Map<Seq<char>, V> {
        self.as_map()
    }
}

/// A bucket array of `count` empty buckets.
fn empty_buckets<V: Copy>(count: usize) -> (buckets: Vec<Option<Box<Node<V>>>>)
    ensures
        buckets@.len() == count,
        forall|index: int| 0 <= index < count ==> buckets@[index] is None,
{
    let mut buckets: Vec<Option<Box<Node<V>>>> = Vec::new();
    while buckets.len() < count
        invariant
            buckets@.len() <= count,
            forall|index: int| 0 <= index < buckets@.len() ==> buckets@[index] is None,
        decreases count - buckets@.len(),
    {
        buckets.push(None);
    }
    buckets
}

impl<V: Copy> HashMap<V> {
    /// An empty map: capacity 32, no entries, the additive hasher.
    pub fn new() -> (map: Self)
        ensures
            map.wf(),
            map@ == Map::<Seq<char>, V>::empty(),
            map.spec_cap() == DEFAULT_MAX_SIZE,
            map.spec_hasher() == (HasherChoice::Easy(EasyHasher {  })),
    {
        Self::with_hasher(HasherChoice::Easy(EasyHasher {  }))
    }

    /// An empty map of default capacity using the given hashing strategy.
    pub fn with_hasher(hasher: HasherChoice) -> (map: Self)
        ensures
            map.wf(),
            map@ == Map::<Seq<char>, V>::empty(),
            map.spec_cap() == DEFAULT_MAX_SIZE,
            map.spec_hasher() == hasher,
    {
        let map = HashMap { values: empty_buckets(DEFAULT_MAX_SIZE), len: 0, hasher };
        proof {
            assert(map@ =~= Map::<Seq<char>, V>::empty());
        }
        map
    }

    /// The number of buckets.
    pub fn capacity(&self) -> (cap: usize)
        ensures
            cap == self.spec_cap(),
    {
        self.values.len()
    }

    /// The number of entries.
    pub fn len(&self) -> (length: usize)
        requires
            self.wf(),
        ensures
            length == self@.dom().len(),
            length == self.spec_len(),
    {
        self.len
    }

    /// The bucket index of `key` under this map's hasher and current
    /// capacity.
    fn get_hasher_index(&self, key: &str) -> (index: usize)
        ensures
            index as int == self.bucket_of(key@),
            self.values@.len() > 0 ==> index < self.values@.len(),
    {
        let hashed_key = self.hasher.get_hash(key);
        self.hasher.get_index(hashed_key, self.capacity())
    }

    /// The value stored under `key`, if any: a linear scan of the one bucket
    /// chain the key's digest selects.
    pub fn get(&self, key: &str) -> (result: Option<V>)
        requires
            self.wf(),
        ensures
            result == (if self@.contains_key(key@) {
                Some(self@[key@])
            } else {
                None::<V>
            }),
    {
        let key_index = self.get_hasher_index(key);
        match &self.values[key_index] {
            None => None,
            Some(node) => node.chain_get(key),
        }
    }

    /// Whether `key` is present.
    pub fn contains_key(&self, key: &str) -> (present: bool)
        requires
            self.wf(),
        ensures
            present == self@.contains_key(key@),
    {
        let val = self.get(key);
        val.is_some()
    }

    /// A change of the entry counter alone leaves the bucket structure and
    /// the view untouched.
    proof fn lemma_len_irrelevant(self, prev: Self)
        requires
            prev.buckets_ok(),
            self.values == prev.values,
            self.hasher == prev.hasher,
        ensures
            self.buckets_ok(),
            self@ == prev@,
    {
        assert forall|index: int| 0 <= index < self.values@.len() implies self.bucket_ok(
            index,
        ) by {
            assert(prev.bucket_ok(index));
            assert forall|key: Seq<char>|
                #[trigger] Node::<V>::optional_as_map(self.values@[index]).dom().contains(key)
                    implies self.bucket_of(key) == index by {
                assert(Node::<V>::optional_as_map(prev.values@[index]).dom().contains(key));
                assert(self.bucket_of(key) == prev.bucket_of(key));
            }
        }
        assert(self@ =~= prev@);
    }

    /// After a change to the one bucket that `changed_key` hashes to, in
    /// which the bucket's chain stayed duplicate-free and gained no key but
    /// possibly `changed_key`, the whole table is well-placed again.
    proof fn lemma_bucket_changed(self, prev: Self, index: int, changed_key: Seq<char>)
        requires
            prev.buckets_ok(),
            0 <= index < prev.values@.len(),
            self.values@.len() == prev.values@.len(),
            self.hasher == prev.hasher,
            forall|other: int|
                0 <= other < prev.values@.len() && other != index ==> self.values@[other]
                    == prev.values@[other],
            Node::<V>::optional_distinct(self.values@[index]),
            forall|key: Seq<char>|
                #[trigger] Node::<V>::optional_as_map(self.values@[index]).dom().contains(key)
                    ==> Node::<V>::optional_as_map(prev.values@[index]).dom().contains(key) || key
                    == changed_key,
            prev.bucket_of(changed_key) == index,
        ensures
            self.buckets_ok(),
    {
        assert forall|index2: int| 0 <= index2 < self.values@.len() implies self.bucket_ok(
            index2,
        ) by {
            assert(prev.bucket_ok(index2));
            if index2 != index {
                assert(self.values@[index2] == prev.values@[index2]);
            }
            assert forall|key: Seq<char>|
                #[trigger] Node::<V>::optional_as_map(self.values@[index2]).dom().contains(key)
                    implies self.bucket_of(key) == index2 by {
                assert(self.bucket_of(key) == prev.bucket_of(key));
                if index2 != index || key != changed_key {
                    assert(Node::<V>::optional_as_map(prev.values@[index2]).dom().contains(key));
                }
            }
        }
    }

    /// Overwrites the value of the already-present `key` in place; no node
    /// is added or removed.
    fn update_key(&mut self, key: &str, val: V)
        requires
            old(self).buckets_ok(),
            old(self)@.contains_key(key@),
        ensures
            final(self).buckets_ok(),
            final(self)@ == old(self)@.insert(key@, val),
            final(self).spec_cap() == old(self).spec_cap(),
            final(self).spec_len() == old(self).spec_len(),
            final(self).spec_hasher() == old(self).spec_hasher(),
    {
        let key_index = self.get_hasher_index(key);
        proof {
            assert(self.bucket_ok(key_index as int));
        }
        Node::<V>::update_in_optional(&mut self.values[key_index], key, val);
        proof {
            self.lemma_bucket_changed(*old(self), key_index as int, key@);
            assert(self@ =~= old(self)@.insert(key@, val));
        }
    }

    /// Places a new entry for the absent `key` at the tail of its bucket
    /// chain; the entry counter is left to the caller.
    fn push_entry(&mut self, key: &str, val: V)
        requires
            old(self).buckets_ok(),
            !old(self)@.contains_key(key@),
        ensures
            final(self).buckets_ok(),
            final(self)@ == old(self)@.insert(key@, val),
            final(self).spec_cap() == old(self).spec_cap(),
            final(self).spec_len() == old(self).spec_len(),
            final(self).spec_hasher() == old(self).spec_hasher(),
    {
        let key_index = self.get_hasher_index(key);
        proof {
            assert(self.bucket_ok(key_index as int));
        }
        Node::<V>::append_to_optional(&mut self.values[key_index], key, val);
        proof {
            self.lemma_bucket_changed(*old(self), key_index as int, key@);
            assert(self@ =~= old(self)@.insert(key@, val));
        }
    }

    /// Whether the live-entry counter has reached the 3/4 load factor at the
    /// current capacity.
    pub fn should_resize(&self) -> (resize_needed: bool)
        ensures
            resize_needed == (4 * self.spec_len() >= 3 * self.spec_cap()),
    {
        (self.len as u128) * FILL_FACTOR_DENOMINATOR >= (self.capacity() as u128)
            * FILL_FACTOR_NUMERATOR
    }

    /// Reinserts every entry of `chain` into the table; all its keys must be
    /// absent. Used by `resize` to rehome entries bucket by bucket.
    fn reinsert_chain(&mut self, chain: Option<Box<Node<V>>>)
        requires
            old(self).buckets_ok(),
            Node::<V>::optional_distinct(chain),
            forall|key: Seq<char>|
                #[trigger] Node::<V>::optional_as_map(chain).dom().contains(key)
                    ==> !old(self)@.contains_key(key),
        ensures
            final(self).buckets_ok(),
            final(self)@ == old(self)@.union_prefer_right(Node::<V>::optional_as_map(chain)),
            final(self).spec_cap() == old(self).spec_cap(),
            final(self).spec_len() == old(self).spec_len(),
            final(self).spec_hasher() == old(self).spec_hasher(),
        decreases chain,
    {
        match chain {
            None => {
                proof {
                    assert(self@ =~= old(self)@.union_prefer_right(
                        Node::<V>::optional_as_map(chain),
                    ));
                }
            },
            Some(boxed) => {
                let node = *boxed;
                let Node { key, val, next } = node;
                proof {
                    assert(Node::<V>::optional_as_map(chain).dom().contains(key@));
                }
                self.push_entry(key.as_str(), val);
                proof {
                    assert forall|other: Seq<char>|
                        #[trigger] Node::<V>::optional_as_map(next).dom().contains(other)
                            implies !self@.contains_key(other) by {
                        assert(Node::<V>::optional_as_map(chain).dom().contains(other));
                        assert(other != key@);
                    }
                }
                self.reinsert_chain(next);
                proof {
                    assert(self@ =~= old(self)@.union_prefer_right(
                        Node::<V>::optional_as_map(chain),
                    ));
                }
            },
        }
    }

    /// Doubles the capacity: replaces the bucket array with a fresh, empty
    /// one of twice the length and reinserts every surviving entry, which
    /// rehashes each key against the new capacity. The set of entries, the
    /// counter and the hasher are unchanged; capacity never shrinks.
    fn resize(&mut self)
        requires
            old(self).buckets_ok(),
            2 * old(self).spec_cap() <= usize::MAX,
        ensures
            final(self).buckets_ok(),
            final(self)@ == old(self)@,
            final(self).spec_cap() == 2 * old(self).spec_cap(),
            final(self).spec_len() == old(self).spec_len(),
            final(self).spec_hasher() == old(self).spec_hasher(),
    {
        let new_capacity: usize = self.capacity() * 2;
        let mut taken: Vec<Option<Box<Node<V>>>> = empty_buckets(new_capacity);
        core::mem::swap(&mut self.values, &mut taken);
        proof {
            assert(taken@ =~= old(self).values@.take(taken@.len() as int));
        }
        while taken.len() != 0
            invariant
                self.buckets_ok(),
                self.values@.len() == 2 * old(self).values@.len(),
                self.len == old(self).len,
                self.hasher == old(self).hasher,
                taken@ == old(self).values@.take(taken@.len() as int),
                taken@.len() <= old(self).values@.len(),
                old(self).buckets_ok(),
                forall|key: Seq<char>|
                    #[trigger] self@.dom().contains(key) <==> (old(self)@.dom().contains(key)
                        && old(self).bucket_of(key) >= taken@.len()),
                forall|key: Seq<char>|
                    #[trigger] self@.dom().contains(key) ==> self@[key] == old(self)@[key],
            decreases taken@.len(),
        {
            let bucket = taken.pop().unwrap();
            proof {
                let ghost j: int = taken@.len() as int;
                assert(bucket == old(self).values@[j]);
                assert(old(self).bucket_ok(j));
                assert(taken@ =~= old(self).values@.take(j));
                assert forall|key: Seq<char>|
                    #[trigger] Node::<V>::optional_as_map(bucket).dom().contains(key)
                        implies !self@.contains_key(key) by {
                    assert(old(self).bucket_of(key) == j);
                }
            }
            self.reinsert_chain(bucket);
            proof {
                let ghost j: int = taken@.len() as int;
                assert forall|key: Seq<char>|
                    #[trigger] self@.dom().contains(key) <==> (old(self)@.dom().contains(key)
                        && old(self).bucket_of(key) >= j) by {
                    if Node::<V>::optional_as_map(bucket).dom().contains(key) {
                        assert(old(self).bucket_of(key) == j);
                        assert(old(self)@.dom().contains(key));
                    }
                    if old(self)@.dom().contains(key) && old(self).bucket_of(key) == j {
                        assert(Node::<V>::optional_as_map(bucket).dom().contains(key));
                    }
                }
            }
        }
        proof {
            assert(taken@.len() == 0);
            assert(self@ =~= old(self)@);
        }
    }

    /// Inserts `key` with `val`. A present key is overwritten in place and
    /// nothing else changes. A new key first bumps the counter, then doubles
    /// the capacity if the post-increment load factor has reached 3/4, and
    /// only then is placed at the tail of the bucket chain that the
    /// (possibly new) capacity selects.
    ///
    /// The bound on the entry count is a machine limit: four more entries
    /// than a quarter of the address space cannot be stored, and it keeps
    /// the counter and the doubled capacity within `usize`.
    pub fn insert(&mut self, key: &str, val: V)
        requires
            old(self).wf(),
            4 * old(self)@.dom().len() + 4 <= usize::MAX,
        ensures
            final(self).wf(),
            final(self)@ == old(self)@.insert(key@, val),
            final(self).spec_hasher() == old(self).spec_hasher(),
            final(self).spec_cap() == (if old(self)@.contains_key(key@) || 4 * (old(self)@.dom().len()
                + 1) < 3 * old(self).spec_cap() {
                old(self).spec_cap()
            } else {
                2 * old(self).spec_cap()
            }),
    {
        if self.contains_key(key) {
            self.update_key(key, val);
            proof {
                assert(self@.dom() =~= old(self)@.dom());
            }
        } else {
            self.len = self.len + 1;
            proof {
                self.lemma_len_irrelevant(*old(self));
            }
            if self.should_resize() {
                proof {
                    assert(2 * self.spec_cap() <= usize::MAX);
                }
                self.resize();
            }
            proof {
                assert(!self@.contains_key(key@));
            }
            self.push_entry(key, val);
            proof {
                vstd::set::axiom_set_insert_len(old(self)@.dom(), key@);
                assert(self@.dom() =~= old(self)@.dom().insert(key@));
            }
        }
    }

    /// Removes `key` and returns its value, or returns nothing when the key
    /// is absent. Exactly one predecessor link (or the bucket slot) is
    /// redirected, and the counter drops by one exactly when an entry left.
    pub fn remove(&mut self, key: &str) -> (removed: Option<V>)
        requires
            old(self).wf(),
        ensures
            final(self).wf(),
            final(self)@ == old(self)@.remove(key@),
            removed == (if old(self)@.contains_key(key@) {
                Some(old(self)@[key@])
            } else {
                None::<V>
            }),
            final(self).spec_cap() == old(self).spec_cap(),
            final(self).spec_hasher() == old(self).spec_hasher(),
    {
        let key_index = self.get_hasher_index(key);
        proof {
            assert(self.bucket_ok(key_index as int));
        }
        let removed = Node::<V>::remove_from_optional(&mut self.values[key_index], key);
        proof {
            self.lemma_bucket_changed(*old(self), key_index as int, key@);
            assert(self@ =~= old(self)@.remove(key@));
            vstd::set::axiom_set_remove_len(old(self)@.dom(), key@);
            assert(self@.dom() =~= old(self)@.dom().remove(key@));
            if !old(self)@.contains_key(key@) {
                assert(old(self)@.dom().remove(key@) =~= old(self)@.dom());
            }
        }
        let ghost mid: Self = *self;
        if removed.is_some() {
            self.len = self.len - 1;
        }
        proof {
            self.lemma_len_irrelevant(mid);
            assert(self@.dom() =~= old(self)@.dom().remove(key@));
        }
        removed
    }

    /// Resets the map to a fresh bucket array of the default capacity with
    /// no entries; the hasher is retained.
    pub fn clear(&mut self)
        requires
            old(self).wf(),
        ensures
            final(self).wf(),
            final(self)@ == Map::<Seq<char>, V>::empty(),
            final(self).spec_cap() == DEFAULT_MAX_SIZE,
            final(self).spec_hasher() == old(self).spec_hasher(),
    {
        self.values = empty_buckets(DEFAULT_MAX_SIZE);
        self.len = 0;
        proof {
            assert(self@ =~= Map::<Seq<char>, V>::empty());
        }
    }
}

} // verus!
