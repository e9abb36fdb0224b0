//! Mutable access to the values of a map keyed by port.

use vstd::prelude::*;
use std::collections::HashMap;

verus! {

broadcast use vstd::std_specs::hash::group_hash_axioms;

/// `HashMap::get_mut`: a mutable reference to the value stored under `key`,
/// if there is one. What the caller writes through the reference is what the
/// map holds under `key` afterwards; nothing else changes.
#[verifier::external_body]
pub(crate) fn slot_mut<'a, V>(map: &'a mut HashMap<u32, V>, key: &u32) -> (slot: Option<&'a mut V>)
    ensures
        match slot {
            Some(value) => old(map)@.contains_key(*key) && *value == old(map)@[*key]
                && final(map)@ == old(map)@.insert(*key, *final(value)),
            None => !old(map)@.contains_key(*key) && final(map)@ == old(map)@,
        },
{
    map.get_mut(key)
}

} // verus!
