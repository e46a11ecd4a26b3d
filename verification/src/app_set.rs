//! Sets of apps, which are walked in ascending order.
use vstd::prelude::*;
use vstd::laws_cmp::{
    obeys_cmp, obeys_cmp_ord, obeys_cmp_partial_ord, obeys_partial_cmp_spec_properties,
};
use vstd::laws_eq::{obeys_eq, obeys_eq_spec_properties};
use vstd::std_specs::btree::increasing_seq;
use vstd::std_specs::cmp::OrdSpec;
use vstd::std_specs::iter::IteratorSpec;
use std::collections::BTreeSet;

verus! {

broadcast use {vstd::std_specs::btree::group_btree_axioms, vstd::laws_cmp::group_laws_cmp};

/// Whether some ids ascend, so that none is there twice.
pub open spec fn ascends(ids: Seq<u32>) -> bool {
    forall|i: int, j: int| 0 <= i < j < ids.len() ==> #[trigger] ids[i] < #[trigger] ids[j]
}

/// The ids of a set, in ascending order.
pub open spec fn in_order(ids: Set<u32>) -> Seq<u32> {
    choose|s: Seq<u32>| #[trigger] ascends(s) && s.to_set() == ids
}

/// A set has one ascending order.
pub proof fn the_order_is_unique(a: Seq<u32>, b: Seq<u32>)
    requires
        ascends(a),
        ascends(b),
        a.to_set() == b.to_set(),
    ensures
        a == b,
    decreases a.len(),
{
    if a.len() == 0 {
        if b.len() > 0 {
            assert(b.to_set().contains(b[0]));
            assert(a.contains(b[0]));
        }
        assert(a =~= b);
    } else {
        assert(a.to_set().contains(a.last()));
        assert(b.contains(a.last()));
        let i = choose|i: int| 0 <= i < b.len() && b[i] == a.last();
        assert(b.to_set().contains(b.last()));
        assert(a.contains(b.last()));
        let j = choose|j: int| 0 <= j < a.len() && a[j] == b.last();
        assert(a.last() == b.last());
        let (p, q) = (a.drop_last(), b.drop_last());
        assert forall|x: u32| p.to_set().contains(x) <==> q.to_set().contains(x) by {
            if p.contains(x) {
                let k = choose|k: int| 0 <= k < p.len() && p[k] == x;
                assert(a.to_set().contains(a[k]));
                assert(b.contains(x));
                let l = choose|l: int| 0 <= l < b.len() && b[l] == x;
                assert(q[l] == x);
            }
            if q.contains(x) {
                let k = choose|k: int| 0 <= k < q.len() && q[k] == x;
                assert(b.to_set().contains(b[k]));
                assert(a.contains(x));
                let l = choose|l: int| 0 <= l < a.len() && a[l] == x;
                assert(p[l] == x);
            }
        }
        assert(p.to_set() =~= q.to_set());
        the_order_is_unique(p, q);
        assert(a =~= p.push(a.last()));
        assert(b =~= q.push(b.last()));
    }
}

/// Ids that are handed out in increasing order ascend.
proof fn references_ascend(ids: Seq<&u32>)
    requires
        increasing_seq(ids),
    ensures
        ascends(ids.unref()),
{
    reveal(obeys_eq_spec_properties);
    reveal(obeys_partial_cmp_spec_properties);
    reveal(obeys_cmp_partial_ord);
    reveal(obeys_cmp_ord);
    assert(obeys_eq::<&u32>());
    assert(obeys_cmp::<&u32>());
    assert forall|i: int, j: int| 0 <= i < j < ids.len() implies #[trigger] ids.unref()[i]
        < #[trigger] ids.unref()[j] by {
        assert(OrdSpec::cmp_spec(&ids[i], &ids[j]) is Less);
    }
}

/// A set of apps.
pub struct AppSet {
    set: BTreeSet<u32>,
}

impl View for AppSet {
    type V = Set<u32>;

    closed spec fn view(&self) -> Set<u32> {
        self.set@
    }
}

impl AppSet {
    pub fn new() -> (r: AppSet)
        ensures
            r@ == Set::<u32>::empty(),
    {
        AppSet { set: BTreeSet::new() }
    }

    pub fn insert(&mut self, id: u32)
        ensures
            final(self)@ == old(self)@.insert(id),
    {
        self.set.insert(id);
    }

    pub fn remove(&mut self, id: u32)
        ensures
            final(self)@ == old(self)@.remove(id),
    {
        self.set.remove(&id);
    }

    /// The ids, in ascending order.
    pub fn ids(&self) -> (r: Vec<u32>)
        ensures
            ascends(r@),
            r@.to_set() == self@,
            r@ == in_order(self@),
    {
        let mut out: Vec<u32> = Vec::new();
        let ghost all = self.set.iter().remaining();
        for id in it: self.set.iter()
            invariant
                it.seq() == all,
                out@ == all.unref().take(it.index() as int),
        {
            out.push(*id);
            assert(all.unref().take(it.index() + 1) =~= all.unref().take(it.index() as int).push(
                *id,
            ));
        }
        assert(out@ =~= all.unref());
        proof {
            references_ascend(all);
            the_order_is_unique(out@, in_order(self@));
        }
        out
    }
}

} // verus!
