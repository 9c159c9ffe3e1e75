//! The additive hasher: the digest of a key is the sum of the Unicode
//! scalar values of its characters. Simple, with a high collision rate for
//! anagrams and permutations.

use vstd::prelude::*;

verus! {

use vstd::string::StrSliceExecFns;
use vstd::wrapping::u64_specs;
use crate::hashers::Hasher;

/// The additive digest: the running sum of the key's Unicode scalar values
/// in 64-bit wrapping arithmetic. The empty key digests to 0.
pub open spec fn additive_hash(key: Seq<char>) -> u64
    decreases key.len(),
{
    if key.len() == 0 {
        0u64
    } else {
        u64_specs::wrapping_add(additive_hash(key.drop_last()), key.last() as u64)
    }
}

/// Hashes a key to the sum of its characters' Unicode scalar values.
pub struct EasyHasher {}

impl Hasher for EasyHasher {
    open spec fn spec_hash(&self, key: Seq<char>) -> u64 {
        additive_hash(key)
    }

    fn get_hash(&self, key: &str) -> (hash: u64) {
        let length: usize = key.unicode_len();
        let mut total: u64 = 0;
        let mut i: usize = 0;
        while i < length
            invariant
                i <= length,
                length == key@.len(),
                total == additive_hash(key@.take(i as int)),
            decreases length - i,
        {
            let ch: char = key.get_char(i);
            proof {
                assert(key@.take(i + 1).drop_last() =~= key@.take(i as int));
                assert(key@.take(i + 1).last() == key@[i as int]);
            }
            total = total.wrapping_add(ch as u64);
            i = i + 1;
        }
        proof {
            assert(key@.take(length as int) =~= key@);
        }
        total
    }

    fn get_index(&self, hash: u64, len: usize) -> (index: usize) {
        if len == 0 {
            return 0;
        }
        (hash % (len as u64)) as usize
    }
}

} // verus!
