//! The chain node: a singly-linked list element holding one key/value pair
//! and an exclusive-owning link to the next node of its bucket chain.

use vstd::prelude::*;

verus! {

use vstd::string::StrSliceExecFns;

/// One entry of a bucket chain. The bucket slot owns the chain's head and
/// each node owns its successor, so every node has a single owner.
pub struct Node<V> {
    pub key: String,
    pub val: V,
    pub next: Option<Box<Node<V>>>,
}

impl<V> Node<V> {
    /// The entries of the chain headed by `node_opt`, as a map. When a key
    /// occurs more than once, the node nearest the head wins, matching a
    /// front-to-back scan.
    pub open spec fn optional_as_map(node_opt: Option<Box<Node<V>>>) -> Map<Seq<char>, V>
        decreases node_opt,
    {
        match node_opt {
            None => Map::empty(),
            Some(node) => node.as_map(),
        }
    }

    /// The entries of the chain headed by `self`, as a map.
    pub open spec fn as_map(self) -> Map<Seq<char>, V>
        decreases self,
    {
        Node::<V>::optional_as_map(self.next).insert(self.key@, self.val)
    }

    /// No key occurs on two nodes of the chain headed by `node_opt`.
    pub open spec fn optional_distinct(node_opt: Option<Box<Node<V>>>) -> bool
        decreases node_opt,
    {
        match node_opt {
            None => true,
            Some(node) => node.distinct_keys(),
        }
    }

    /// No key occurs on two nodes of the chain headed by `self`.
    pub open spec fn distinct_keys(self) -> bool
        decreases self,
    {
        &&& !Node::<V>::optional_as_map(self.next).dom().contains(self.key@)
        &&& Node::<V>::optional_distinct(self.next)
    }
}

impl<V: Copy> Node<V> {
    /// A fresh node holding `key` and `val`, with no successor.
    pub fn new(key: &str, val: V) -> (node: Self)
        ensures
            node.key@ == key@,
            node.val == val,
            node.next is None,
    {
        Self { key: key.to_owned(), val, next: None }
    }

    /// The value stored under `key@` in this chain, scanning from the head
    /// and returning the first match.
    pub(crate) fn chain_get(&self, key: &str) -> (result: Option<V>)
        ensures
            result == (if self.as_map().dom().contains(key@) {
                Some(self.as_map()[key@])
            } else {
                None::<V>
            }),
        decreases self,
    {
        if str_eq(self.key.as_str(), key) {
            Some(self.val)
        } else {
            match &self.next {
                None => None,
                Some(node) => node.chain_get(key),
            }
        }
    }

    /// Overwrites, in place, the value of the first node of the chain whose
    /// key is `key@`. The chain's keys and their order are untouched.
    pub(crate) fn update_in_optional(node_opt: &mut Option<Box<Node<V>>>, key: &str, val: V)
        requires
            Node::<V>::optional_as_map(*old(node_opt)).dom().contains(key@),
        ensures
            Node::<V>::optional_as_map(*final(node_opt)) == Node::<V>::optional_as_map(
                *old(node_opt),
            ).insert(key@, val),
            Node::<V>::optional_distinct(*old(node_opt)) ==> Node::<V>::optional_distinct(
                *final(node_opt),
            ),
        decreases *old(node_opt),
    {
        let mut boxed = node_opt.take().unwrap();
        if str_eq(boxed.key.as_str(), key) {
            boxed.val = val;
            *node_opt = Some(boxed);
            proof {
                assert(Node::<V>::optional_as_map(*node_opt) =~= Node::<V>::optional_as_map(
                    *old(node_opt),
                ).insert(key@, val));
            }
        } else {
            Self::update_in_optional(&mut boxed.next, key, val);
            *node_opt = Some(boxed);
            proof {
                assert(Node::<V>::optional_as_map(*node_opt) =~= Node::<V>::optional_as_map(
                    *old(node_opt),
                ).insert(key@, val));
            }
        }
    }

    /// Appends a node for `key@` at the tail of the chain; the key must not
    /// be present yet, which keeps the chain's keys distinct.
    pub(crate) fn append_to_optional(node_opt: &mut Option<Box<Node<V>>>, key: &str, val: V)
        requires
            !Node::<V>::optional_as_map(*old(node_opt)).dom().contains(key@),
        ensures
            Node::<V>::optional_as_map(*final(node_opt)) == Node::<V>::optional_as_map(
                *old(node_opt),
            ).insert(key@, val),
            Node::<V>::optional_distinct(*old(node_opt)) ==> Node::<V>::optional_distinct(
                *final(node_opt),
            ),
        decreases *old(node_opt),
    {
        match node_opt.take() {
            None => {
                *node_opt = Some(Box::new(Node::<V>::new(key, val)));
                proof {
                    assert(Node::<V>::optional_as_map(*node_opt) =~= Node::<V>::optional_as_map(
                        *old(node_opt),
                    ).insert(key@, val));
                }
            },
            Some(mut boxed) => {
                Self::append_to_optional(&mut boxed.next, key, val);
                *node_opt = Some(boxed);
                proof {
                    assert(Node::<V>::optional_as_map(*node_opt) =~= Node::<V>::optional_as_map(
                        *old(node_opt),
                    ).insert(key@, val));
                }
            },
        }
    }

    /// Splices out the first node of the chain whose key is `key@`, if any:
    /// the removed node's predecessor link (or the head slot) is redirected
    /// to its successor. Returns the removed value.
    pub(crate) fn remove_from_optional(node_opt: &mut Option<Box<Node<V>>>, key: &str) -> (removed:
        Option<V>)
        requires
            Node::<V>::optional_distinct(*old(node_opt)),
        ensures
            Node::<V>::optional_as_map(*final(node_opt)) == Node::<V>::optional_as_map(
                *old(node_opt),
            ).remove(key@),
            Node::<V>::optional_distinct(*final(node_opt)),
            removed == (if Node::<V>::optional_as_map(*old(node_opt)).dom().contains(key@) {
                Some(Node::<V>::optional_as_map(*old(node_opt))[key@])
            } else {
                None::<V>
            }),
        decreases *old(node_opt),
    {
        match node_opt.take() {
            None => {
                proof {
                    assert(Node::<V>::optional_as_map(*node_opt) =~= Node::<V>::optional_as_map(
                        *old(node_opt),
                    ).remove(key@));
                }
                None
            },
            Some(mut boxed) => {
                if str_eq(boxed.key.as_str(), key) {
                    let val = boxed.val;
                    *node_opt = boxed.next;
                    proof {
                        assert(Node::<V>::optional_as_map(*node_opt) =~= Node::<V>::optional_as_map(
                            *old(node_opt),
                        ).remove(key@));
                    }
                    Some(val)
                } else {
                    let removed = Self::remove_from_optional(&mut boxed.next, key);
                    *node_opt = Some(boxed);
                    proof {
                        assert(Node::<V>::optional_as_map(*node_opt) =~= Node::<V>::optional_as_map(
                            *old(node_opt),
                        ).remove(key@));
                    }
                    removed
                }
            },
        }
    }
}

/// Character-by-character string equality: true exactly when the two views
/// are the same character sequence.
pub(crate) fn str_eq(a: &str, b: &str) -> (equal: bool)
    ensures
        equal == (a@ == b@),
{
    let a_len: usize = a.unicode_len();
    let b_len: usize = b.unicode_len();
    if a_len != b_len {
        return false;
    }
    let mut i: usize = 0;
    while i < a_len
        invariant
            i <= a_len,
            a_len == a@.len(),
            a_len == b@.len(),
            forall|j: int| 0 <= j < i ==> a@[j] == b@[j],
        decreases a_len - i,
    {
        if a.get_char(i) != b.get_char(i) {
            return false;
        }
        i = i + 1;
    }
    proof {
        assert(a@ =~= b@);
    }
    true
}

} // verus!
