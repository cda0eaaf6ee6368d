//! Hash maps from room ids that hash with `rustc_hash`.
//!
//! `rustc_hash::FxHashMap` is the hash map of the standard library with
//! `FxBuildHasher` in place of the default hasher. What the standard
//! library's map does rests on the hasher giving equal keys equal hashes;
//! Fx hashing starts every hasher from the same state and has no seed, so it
//! does. The functions below state, for maps keyed by `u64`, what the
//! standard library documents of each method. None of them is proved.

use vstd::prelude::*;
use rustc_hash::{FxBuildHasher, FxHashMap};

verus! {

/// The hasher builder of `rustc_hash`. Nothing is known of a value of it.
#[verifier::external_type_specification]
#[verifier::external_body]
pub struct ExFxBuildHasher(FxBuildHasher);

/// `insert` of an `FxHashMap`: afterwards the map holds `value` under
/// `key` and is otherwise as before; the answer is the value that `key` had
/// before, if it had one.
#[verifier::external_body]
pub(crate) fn fx_insert<V>(map: &mut FxHashMap<u64, V>, key: u64, value: V) -> (previous: Option<V>)
    ensures
        final(map)@ == old(map)@.insert(key, value),
        previous == (if old(map)@.contains_key(key) {
            Some(old(map)@[key])
        } else {
            None
        }),
{
    map.insert(key, value)
}

/// `remove` of an `FxHashMap`: afterwards the map holds nothing under
/// `key` and is otherwise as before; the answer is the value that `key` had
/// before, if it had one.
#[verifier::external_body]
pub(crate) fn fx_remove<V>(map: &mut FxHashMap<u64, V>, key: u64) -> (previous: Option<V>)
    ensures
        final(map)@ == old(map)@.remove(key),
        previous == (if old(map)@.contains_key(key) {
            Some(old(map)@[key])
        } else {
            None
        }),
{
    map.remove(&key)
}

/// `get` of an `FxHashMap`: the value under `key`, if there is one.
#[verifier::external_body]
pub(crate) fn fx_get<'a, V>(map: &'a FxHashMap<u64, V>, key: u64) -> (value: Option<&'a V>)
    ensures
        value == (if map@.contains_key(key) {
            Some(&map@[key])
        } else {
            None
        }),
{
    map.get(&key)
}

/// `keys` of an `FxHashMap`: every key of the map once, in an order that
/// nothing is known of.
#[verifier::external_body]
pub(crate) fn fx_keys<V>(map: &FxHashMap<u64, V>) -> (keys: Vec<u64>)
    ensures
        keys@.no_duplicates(),
        keys@.to_set() == map@.dom(),
{
    map.keys().copied().collect()
}

} // verus!
