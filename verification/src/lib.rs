//! A minimal associative container: a hash map over a fixed-size bucket
//! array with separate chaining, parameterized by a pluggable key-hashing
//! strategy. Keys are text strings; values are small copyable data.

pub mod hashers;
pub mod hashmap;
pub mod laws;
pub mod node;
