//! The keys of an ordered map, as a list.

use std::collections::BTreeMap;
use vstd::prelude::*;
use vstd::std_specs::btree::{axiom_increasing_seq_meaning, axiom_spec_keys_iter};
use vstd::std_specs::cmp::OrdSpec;
use vstd::std_specs::iter::IteratorSpec;

verus! {

/// Whether `ids` lists exactly the members of `set`, each once, in ascending
/// order.
pub open spec fn lists_ascending(ids: Seq<u64>, set: Set<u64>) -> bool {
    &&& forall|id: u64| ids.contains(id) <==> set.contains(id)
    &&& forall|i: int, j: int| 0 <= i < j < ids.len() ==> ids[i] < ids[j]
}

/// A set has at most one ascending listing.
pub proof fn lemma_listing_unique(first: Seq<u64>, second: Seq<u64>, set: Set<u64>)
    requires
        lists_ascending(first, set),
        lists_ascending(second, set),
    ensures
        first == second,
    decreases first.len(),
{
    if first.len() == 0 {
        if second.len() > 0 {
            assert(second.contains(second[0]));
            assert(first.contains(second[0]));
        }
        assert(first =~= second);
    } else {
        assert(first.contains(first.last()));
        assert(second.contains(first.last()));
        let top = first.last();
        // `top` is the greatest member, so it ends both listings.
        let at = choose|k: int| 0 <= k < second.len() && second[k] == top;
        if at < second.len() - 1 {
            assert(second.contains(second.last()));
            assert(first.contains(second.last()));
            let back = choose|k: int| 0 <= k < first.len() && first[k] == second.last();
            assert(false);
        }
        let rest = set.remove(top);
        assert forall|id: u64| first.drop_last().contains(id) <==> rest.contains(id) by {
            if first.drop_last().contains(id) {
                let k = choose|k: int| 0 <= k < first.drop_last().len() && first.drop_last()[k] == id;
                assert(first[k] == id);
                assert(first.contains(id));
            }
            if rest.contains(id) {
                assert(first.contains(id));
                let k = choose|k: int| 0 <= k < first.len() && first[k] == id;
                assert(first.drop_last()[k] == id);
            }
        }
        assert forall|id: u64| second.drop_last().contains(id) <==> rest.contains(id) by {
            if second.drop_last().contains(id) {
                let k = choose|k: int|
                    0 <= k < second.drop_last().len() && second.drop_last()[k] == id;
                assert(second[k] == id);
                assert(second.contains(id));
            }
            if rest.contains(id) {
                assert(second.contains(id));
                let k = choose|k: int| 0 <= k < second.len() && second[k] == id;
                assert(second.drop_last()[k] == id);
            }
        }
        lemma_listing_unique(first.drop_last(), second.drop_last(), rest);
        assert(first =~= first.drop_last().push(top));
        assert(second =~= second.drop_last().push(top));
    }
}

/// The keys of `map`, in ascending order.
pub(crate) fn ascending_keys<V>(map: &BTreeMap<u64, V>) -> (ids: Vec<u64>)
    ensures
        lists_ascending(ids@, map@.dom()),
{
    let mut ids: Vec<u64> = Vec::new();
    for id in iter: map.keys()
        invariant
            iter.seq() == map.keys().remaining(),
            ids@.len() == iter.index(),
            forall|k: int| 0 <= k < ids@.len() ==> ids@[k] == *iter.seq()[k],
    {
        ids.push(*id);
    }
    proof {
        let keys = map.keys().remaining();
        axiom_spec_keys_iter(map);
        axiom_increasing_seq_meaning::<&u64>(keys);
        assert(ids@ =~= keys.unref());
        assert forall|i: int, j: int| 0 <= i < j < ids@.len() implies ids@[i] < ids@[j] by {
            assert(OrdSpec::cmp_spec(&keys[i], &keys[j]) is Less);
        }
        assert forall|id: u64| ids@.contains(id) <==> map@.dom().contains(id) by {
            assert(ids@.to_set().contains(id) <==> map@.dom().contains(id));
        }
    }
    ids
}

} // verus!
