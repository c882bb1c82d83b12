//! Directories keyed by id.

use std::collections::HashMap;
use vstd::prelude::*;
use vstd::std_specs::iter::IteratorSpec;

verus! {

/// The ids entered in a directory, each once, in no particular order.
pub fn keys_of<V>(directory: &HashMap<u16, V>) -> (keys: Vec<u16>)
    ensures
        keys@.no_duplicates(),
        forall|id: u16| keys@.contains(id) <==> directory@.contains_key(id),
{
    broadcast use vstd::std_specs::hash::group_hash_axioms;

    let mut keys: Vec<u16> = Vec::new();
    let ghost all = vstd::std_specs::hash::spec_keys_iter(directory).remaining();
    for id in it: directory.keys()
        invariant
            it.seq() == all,
            keys@.len() == it.index(),
            forall|j: int| 0 <= j < keys@.len() ==> keys@[j] == *all[j],
    {
        keys.push(*id);
    }
    proof {
        vstd::std_specs::hash::axiom_spec_keys_iter(directory);
        assert(keys@ =~= all.unref());
        assert forall|id: u16| keys@.contains(id) <==> directory@.contains_key(id) by {
            assert(keys@.contains(id) <==> keys@.to_set().contains(id));
        }
        assert forall|i: int, j: int| 0 <= i < keys@.len() && 0 <= j < keys@.len() && i != j implies keys@[i]
            != keys@[j] by {
            assert(all[i] != all[j]);
        }
    }
    keys
}

} // verus!
