//! Which positions of a list satisfy a condition, in ascending order.
use vstd::prelude::*;

verus! {

/// The positions below `n` at which `p` holds, in ascending order.
pub open spec fn selected(n: nat, p: spec_fn(int) -> bool) -> Seq<int>
    decreases n,
{
    if n == 0 {
        Seq::empty()
    } else {
        let front = selected((n - 1) as nat, p);
        if p(n - 1) {
            front.push(n - 1)
        } else {
            front
        }
    }
}

/// `selected` holds the positions where the condition holds, each once, in order, and no others.
pub proof fn selected_is_exact(n: nat, p: spec_fn(int) -> bool)
    ensures
        selected(n, p).len() <= n,
        forall|k: int|
            0 <= k < selected(n, p).len() ==> 0 <= #[trigger] selected(n, p)[k] < n && p(
                selected(n, p)[k],
            ),
        forall|j: int, k: int|
            0 <= j < k < selected(n, p).len() ==> #[trigger] selected(n, p)[j]
                < #[trigger] selected(n, p)[k],
        forall|i: int| 0 <= i < n && #[trigger] p(i) ==> selected(n, p).contains(i),
    decreases n,
{
    if n > 0 {
        let m = (n - 1) as nat;
        let front = selected(m, p);
        let all = selected(n, p);
        selected_is_exact(m, p);
        assert forall|i: int| 0 <= i < n && #[trigger] p(i) implies all.contains(i) by {
            if i == n - 1 {
                assert(all[all.len() - 1] == i);
            } else {
                let k = choose|k: int| 0 <= k < front.len() && front[k] == i;
                assert(all[k] == i);
            }
        }
    }
}

/// Nothing is selected exactly where the condition holds nowhere.
pub proof fn selected_is_empty(n: nat, p: spec_fn(int) -> bool)
    ensures
        selected(n, p).len() == 0 <==> (forall|i: int| 0 <= i < n ==> !#[trigger] p(i)),
{
    selected_is_exact(n, p);
    if selected(n, p).len() > 0 {
        assert(p(selected(n, p)[0]));
    }
}

/// The first position that is selected is the least one at which the condition holds.
pub proof fn selected_first(n: nat, p: spec_fn(int) -> bool, i: int)
    requires
        0 <= i < n,
        p(i),
        forall|j: int| 0 <= j < i ==> !#[trigger] p(j),
    ensures
        selected(n, p).len() > 0,
        selected(n, p)[0] == i,
{
    selected_is_exact(n, p);
    let s = selected(n, p);
    let k = choose|k: int| 0 <= k < s.len() && s[k] == i;
    assert(p(s[0]));
    if k > 0 {
        assert(s[0] < s[k]);
    }
}

} // verus!
