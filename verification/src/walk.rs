//! Walking an ordered set of identities.

use std::collections::BTreeSet;
use vstd::prelude::*;
use vstd::std_specs::btree::*;
use vstd::std_specs::cmp::OrdSpec;
use vstd::std_specs::iter::IteratorSpec;

verus! {

/// Whether `s` runs through its identities in strictly ascending order.
pub open spec fn ascending(s: Seq<u64>) -> bool {
    forall|i: int, j: int| 0 <= i < j < s.len() ==> s[i] < s[j]
}

/// The members of `set`, lowest first.
pub fn ascending_ids(set: &BTreeSet<u64>) -> (list: Vec<u64>)
    ensures
        list@.to_set() == set@,
        ascending(list@),
{
    let mut list: Vec<u64> = Vec::new();
    for id in it: set.iter()
        invariant
            it.seq() == spec_btree_keys_iter(set).remaining(),
            list@.len() == it.index(),
            forall|i: int| 0 <= i < list@.len() ==> list@[i] == *it.seq()[i],
    {
        list.push(*id);
    }
    proof {
        let walk = spec_btree_keys_iter(set).remaining();
        assert(list@ =~= walk.unref());
        broadcast use vstd::laws_cmp::group_laws_cmp;
        assert(vstd::laws_cmp::obeys_cmp::<&u64>());
        axiom_spec_btree_keys_iter(set);
        axiom_increasing_seq_meaning(walk);
        assert forall|i: int, j: int| 0 <= i < j < list@.len() implies list@[i] < list@[j] by {
            assert(OrdSpec::cmp_spec(&walk[i], &walk[j]) is Less);
        }
    }
    list
}

} // verus!
