//! The key-hashing capability: a 64-bit digest of a text key, and the
//! mapping from a digest to a bucket index for a table of a given size.

use vstd::prelude::*;

pub mod easy_hasher;
pub mod mid_hasher;

verus! {

use crate::hashers::easy_hasher::EasyHasher;
use crate::hashers::mid_hasher::MidHasher;

/// The bucket index of a digest in a table of `len` buckets: `hash % len`.
/// A table of zero buckets has no index to offer, so 0 stands in as a guard
/// against division by zero.
pub open spec fn bucket_index(hash: u64, len: usize) -> usize {
    if len == 0 {
        0usize
    } else {
        (hash % (len as u64)) as usize
    }
}

/// A key-hashing strategy. The digest is a deterministic, pure function of
/// the key's character sequence, named by `spec_hash`; both operations are
/// total.
pub trait Hasher: Sized {
    /// The digest of a key, as a pure function of its character sequence.
    spec fn spec_hash(&self, key: Seq<char>) -> u64;

    fn get_hash(&self, key: &str) -> (hash: u64)
        ensures
            hash == self.spec_hash(key@),
    ;

    fn get_index(&self, hash: u64, len: usize) -> (index: usize)
        ensures
            index == bucket_index(hash, len),
    ;
}

/// The closed set of hashing strategies a map can be built with: the
/// additive hasher or the polynomial hasher, one instance stored per map.
pub enum HasherChoice {
    Easy(EasyHasher),
    Mid(MidHasher),
}

impl Hasher for HasherChoice {
    open spec fn spec_hash(&self, key: Seq<char>) -> u64 {
        match self {
            HasherChoice::Easy(h) => h.spec_hash(key),
            HasherChoice::Mid(h) => h.spec_hash(key),
        }
    }

    fn get_hash(&self, key: &str) -> (hash: u64) {
        match self {
            HasherChoice::Easy(h) => h.get_hash(key),
            HasherChoice::Mid(h) => h.get_hash(key),
        }
    }

    fn get_index(&self, hash: u64, len: usize) -> (index: usize) {
        match self {
            HasherChoice::Easy(h) => h.get_index(hash, len),
            HasherChoice::Mid(h) => h.get_index(hash, len),
        }
    }
}

} // verus!
