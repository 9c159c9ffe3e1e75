//! The polynomial hasher: a rolling base-31 digest with position-dependent
//! weighting, computed in 64-bit wrapping arithmetic (silent wraparound is
//! intentional, not an error).

use vstd::prelude::*;

verus! {

use vstd::string::StrSliceExecFns;
use vstd::wrapping::u64_specs;
use crate::hashers::Hasher;

/// The polynomial digest: for each character, the accumulator becomes
/// `hash * 31 + ch * position`, where `position` is the character's 0-based
/// index plus one, all in 64-bit wrapping arithmetic. The empty key digests
/// to 0.
pub open spec fn polynomial_hash(key: Seq<char>) -> u64
    decreases key.len(),
{
    if key.len() == 0 {
        0u64
    } else {
        u64_specs::wrapping_add(
            u64_specs::wrapping_mul(polynomial_hash(key.drop_last()), 31u64),
            u64_specs::wrapping_mul(key.last() as u64, key.len() as u64),
        )
    }
}

/// Hashes a key with a base-31 rolling digest weighted by 1-based character
/// position.
pub struct MidHasher {}

impl Hasher for MidHasher {
    open spec fn spec_hash(&self, key: Seq<char>) -> u64 {
        polynomial_hash(key)
    }

    fn get_hash(&self, key: &str) -> (hash: u64) {
        let length: usize = key.unicode_len();
        let mut hash: u64 = 0;
        let mut i: usize = 0;
        while i < length
            invariant
                i <= length,
                length == key@.len(),
                hash == polynomial_hash(key@.take(i as int)),
            decreases length - i,
        {
            let ch: char = key.get_char(i);
            proof {
                assert(key@.take(i + 1).drop_last() =~= key@.take(i as int));
                assert(key@.take(i + 1).last() == key@[i as int]);
                assert(key@.take(i + 1).len() == i + 1);
            }
            let weight: u64 = (i as u64) + 1;
            hash = hash.wrapping_mul(31).wrapping_add((ch as u64).wrapping_mul(weight));
            i = i + 1;
        }
        proof {
            assert(key@.take(length as int) =~= key@);
        }
        hash
    }

    fn get_index(&self, hash: u64, len: usize) -> (index: usize) {
        if len == 0 {
            return 0;
        }
        (hash % (len as u64)) as usize
    }
}

} // verus!
