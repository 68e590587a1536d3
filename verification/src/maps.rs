//! Helpers for maps keyed by 64-bit SteamIDs.
use std::collections::HashMap;
use vstd::prelude::*;
use vstd::std_specs::iter::IteratorSpec;

verus! {

broadcast use vstd::std_specs::hash::group_hash_axioms;

/// The keys of `m`, each once.
pub fn keys_of<V>(m: &HashMap<u64, V>) -> (ks: Vec<u64>)
    ensures
        ks@.to_set() == m@.dom(),
        ks@.no_duplicates(),
{
    let mut ks: Vec<u64> = Vec::new();
    let ghost all = m.keys().remaining();
    for k in it: m.keys()
        invariant
            it.seq() == all,
            ks@ == all.unref().take(it.index()),
    {
        assert(all.unref().take(it.index() + 1) =~= ks@.push(*k));
        ks.push(*k);
    }
    proof {
        assert(ks@ =~= all.unref());
        assert(ks@.no_duplicates()) by {
            assert forall|i: int, j: int| 0 <= i < j < ks@.len() implies ks@[i] != ks@[j] by {
                assert(all.no_duplicates());
            }
        }
    }
    ks
}

} // verus!
