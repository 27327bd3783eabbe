use vstd::prelude::*;
use std::collections::HashMap;
use std::collections::hash_map::Entry;
use std::hash::Hash;
use vstd::std_specs::hash::obeys_key_model;

verus! {

/// The value stored under `key`, after storing `V::default()` there if the
/// key was absent; the reference lets the caller change it in place.
pub fn get_default<'m, K, V>(map: &'m mut HashMap<K, V>, key: K) -> (r: &'m mut V)
    where
        K: Clone + Eq + Hash,
        V: Default,
    ensures
        obeys_key_model::<K>() ==> {
            &&& old(map)@.contains_key(key) ==> *r == old(map)@[key]
            &&& !old(map)@.contains_key(key) ==> call_ensures(V::default, (), *r)
            &&& final(map)@ == old(map)@.insert(key, *final(r))
        },
{
    match map.entry(key) {
        Entry::Occupied(present) => present.into_mut(),
        Entry::Vacant(absent) => absent.insert(V::default()),
    }
}

} // verus!
