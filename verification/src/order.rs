//! Putting positions in order: by a number or by two texts, and those that are equal as they came.
use vstd::prelude::*;
use crate::model::Game;
use crate::text::{before, before_is_total, before_is_transitive, is_before};

verus! {

/// Whether position `i` comes before position `j` by their numbers.
pub open spec fn number_before(keys: Seq<i128>, i: int, j: int) -> bool {
    keys[i] < keys[j] || (keys[i] == keys[j] && i < j)
}

/// Whether `at` holds the positions of `chosen`, each once, ordered by their numbers.
pub open spec fn is_ordered_by_number(at: Seq<int>, keys: Seq<i128>, chosen: Seq<int>) -> bool {
    &&& at.len() == chosen.len()
    &&& forall|k: int| 0 <= k < chosen.len() ==> at.contains(#[trigger] chosen[k])
    &&& forall|k: int| 0 <= k < at.len() ==> chosen.contains(#[trigger] at[k])
    &&& forall|k: int, l: int|
        0 <= k < l < at.len() ==> number_before(keys, #[trigger] at[k], #[trigger] at[l])
}

/// Positions as mathematical numbers.
pub open spec fn ints(v: Seq<usize>) -> Seq<int> {
    Seq::new(v.len(), |i: int| v[i] as int)
}

/// Puts ascending positions in the order of their numbers.
pub fn order_by_number(keys: &Vec<i128>, chosen: &Vec<usize>) -> (r: Vec<usize>)
    requires
        forall|k: int| 0 <= k < chosen@.len() ==> (#[trigger] chosen@[k]) < keys@.len(),
        forall|k: int, l: int|
            0 <= k < l < chosen@.len() ==> #[trigger] chosen@[k] < #[trigger] chosen@[l],
    ensures
        is_ordered_by_number(ints(r@), keys@, ints(chosen@)),
{
    let mut out: Vec<usize> = Vec::new();
    for n in 0..chosen.len()
        invariant
            forall|k: int| 0 <= k < chosen@.len() ==> (#[trigger] chosen@[k]) < keys@.len(),
            forall|k: int, l: int|
                0 <= k < l < chosen@.len() ==> #[trigger] chosen@[k] < #[trigger] chosen@[l],
            out@.len() == n,
            forall|k: int| 0 <= k < n ==> out@.contains(#[trigger] chosen@[k]),
            forall|k: int|
                0 <= k < out@.len() ==> chosen@.take(n as int).contains(#[trigger] out@[k]),
            forall|k: int, l: int|
                0 <= k < l < out@.len() ==> number_before(
                    keys@,
                    #[trigger] out@[k] as int,
                    #[trigger] out@[l] as int,
                ),
    {
        let x: usize = chosen[n];
        assert forall|k: int| 0 <= k < out@.len() implies (#[trigger] out@[k]) < x by {
            let part = chosen@.take(n as int);
            let j = choose|j: int| 0 <= j < part.len() && part[j] == out@[k];
            assert(chosen@[j] < chosen@[n as int]);
        }
        let mut p: usize = 0;
        while p < out.len() && keys[out[p]] <= keys[x]
            invariant
                x < keys@.len(),
                p <= out@.len(),
                forall|k: int| 0 <= k < out@.len() ==> (#[trigger] out@[k]) < x,
                forall|k: int|
                    0 <= k < p ==> number_before(keys@, #[trigger] out@[k] as int, x as int),
            decreases out@.len() - p,
        {
            p += 1;
        }
        let ghost was = out@;
        out.insert(p, x);
        proof {
            inserted(was, out@, p as int, x, chosen@, n as int);
        }
        assert forall|k: int, l: int| 0 <= k < l < out@.len() implies number_before(
            keys@,
            #[trigger] out@[k] as int,
            #[trigger] out@[l] as int,
        ) by {
            if k == p {
                assert(out@[l] == was[l - 1]);
                assert(was[p as int] < x);
                if l - 1 > p {
                    assert(number_before(keys@, was[p as int] as int, was[l - 1] as int));
                }
            } else if l == p {
                assert(out@[k] == was[k]);
            } else {
                let a = if k < p {
                    k
                } else {
                    k - 1
                };
                let b = if l < p {
                    l
                } else {
                    l - 1
                };
                assert(out@[k] == was[a] && out@[l] == was[b]);
            }
        }
    }
    assert(chosen@.take(chosen@.len() as int) =~= chosen@);
    proof {
        as_ints(out@, chosen@);
    }
    out
}

/// What holds of a list after the next position has been put into it.
proof fn inserted(was: Seq<usize>, now: Seq<usize>, p: int, x: usize, chosen: Seq<usize>, n: int)
    requires
        0 <= n < chosen.len(),
        chosen[n] == x,
        0 <= p <= was.len(),
        now == was.insert(p, x),
        forall|k: int| 0 <= k < n ==> was.contains(#[trigger] chosen[k]),
        forall|k: int| 0 <= k < was.len() ==> chosen.take(n).contains(#[trigger] was[k]),
    ensures
        forall|k: int| 0 <= k < n + 1 ==> now.contains(#[trigger] chosen[k]),
        forall|k: int| 0 <= k < now.len() ==> chosen.take(n + 1).contains(#[trigger] now[k]),
{
    assert forall|k: int| 0 <= k < n + 1 implies now.contains(#[trigger] chosen[k]) by {
        if k == n {
            assert(now[p] == x);
        } else {
            let j = choose|j: int| 0 <= j < was.len() && was[j] == chosen[k];
            if j < p {
                assert(now[j] == chosen[k]);
            } else {
                assert(now[j + 1] == chosen[k]);
            }
        }
    }
    assert forall|k: int| 0 <= k < now.len() implies chosen.take(n + 1).contains(
        #[trigger] now[k],
    ) by {
        if k == p {
            assert(chosen.take(n + 1)[n] == x);
        } else {
            let a = if k < p {
                k
            } else {
                k - 1
            };
            assert(now[k] == was[a]);
            let j = choose|j: int| 0 <= j < chosen.take(n).len() && chosen.take(n)[j] == was[a];
            assert(chosen.take(n + 1)[j] == was[a]);
        }
    }
}

proof fn as_ints(out: Seq<usize>, chosen: Seq<usize>)
    requires
        forall|k: int| 0 <= k < chosen.len() ==> out.contains(#[trigger] chosen[k]),
        forall|k: int| 0 <= k < out.len() ==> chosen.contains(#[trigger] out[k]),
    ensures
        forall|k: int| 0 <= k < chosen.len() ==> ints(out).contains(#[trigger] ints(chosen)[k]),
        forall|k: int| 0 <= k < out.len() ==> ints(chosen).contains(#[trigger] ints(out)[k]),
{
    assert forall|k: int| 0 <= k < chosen.len() implies ints(out).contains(
        #[trigger] ints(chosen)[k],
    ) by {
        assert(out.contains(chosen[k]));
        let j = choose|j: int| 0 <= j < out.len() && out[j] == chosen[k];
        assert(ints(out)[j] == ints(chosen)[k]);
    }
    assert forall|k: int| 0 <= k < out.len() implies ints(chosen).contains(
        #[trigger] ints(out)[k],
    ) by {
        assert(chosen.contains(out[k]));
        let j = choose|j: int| 0 <= j < chosen.len() && chosen[j] == out[k];
        assert(ints(chosen)[j] == ints(out)[k]);
    }
}

/// There is only one such order.
pub proof fn the_order_by_number_is_unique(
    a: Seq<int>,
    b: Seq<int>,
    keys: Seq<i128>,
    chosen: Seq<int>,
)
    requires
        is_ordered_by_number(a, keys, chosen),
        is_ordered_by_number(b, keys, chosen),
    ensures
        a == b,
    decreases a.len(),
{
    if a.len() == 0 {
        assert(a =~= b);
    } else {
        let x = a.last();
        let y = b.last();
        assert(chosen.contains(a[a.len() - 1]));
        assert(chosen.contains(b[b.len() - 1]));
        let jx = choose|j: int| 0 <= j < chosen.len() && chosen[j] == x;
        let jy = choose|j: int| 0 <= j < chosen.len() && chosen[j] == y;
        assert(b.contains(chosen[jx]));
        assert(a.contains(chosen[jy]));
        let kb = choose|k: int| 0 <= k < b.len() && b[k] == x;
        let ka = choose|k: int| 0 <= k < a.len() && a[k] == y;
        if x != y {
            assert(number_before(keys, b[kb], b[b.len() - 1]));
            assert(number_before(keys, a[ka], a[a.len() - 1]));
        }
        let rest = a.drop_last();
        assert(is_ordered_by_number(rest, keys, rest));
        assert forall|k: int| 0 <= k < rest.len() implies b.drop_last().contains(
            #[trigger] rest[k],
        ) by {
            assert(chosen.contains(a[k]));
            let j = choose|j: int| 0 <= j < chosen.len() && chosen[j] == a[k];
            assert(b.contains(chosen[j]));
            let l = choose|l: int| 0 <= l < b.len() && b[l] == a[k];
            if l == b.len() - 1 {
                assert(number_before(keys, a[k], a[a.len() - 1]));
            } else {
                assert(b.drop_last()[l] == rest[k]);
            }
        }
        assert forall|k: int| 0 <= k < b.drop_last().len() implies rest.contains(
            #[trigger] b.drop_last()[k],
        ) by {
            assert(chosen.contains(b[k]));
            let j = choose|j: int| 0 <= j < chosen.len() && chosen[j] == b[k];
            assert(a.contains(chosen[j]));
            let l = choose|l: int| 0 <= l < a.len() && a[l] == b[k];
            if l == a.len() - 1 {
                assert(number_before(keys, b[k], b[b.len() - 1]));
            } else {
                assert(rest[l] == b.drop_last()[k]);
            }
        }
        assert(is_ordered_by_number(b.drop_last(), keys, rest));
        the_order_by_number_is_unique(rest, b.drop_last(), keys, rest);
        assert(a =~= rest.push(x));
        assert(b =~= b.drop_last().push(y));
    }
}

// ---- By title ---------------------------------------------------------------------------------

/// Whether position `i` comes before position `j` by title, then by id.
pub open spec fn title_before(games: Seq<Game>, i: int, j: int) -> bool {
    let (t, u) = (games[i].title@, games[j].title@);
    let (a, b) = (games[i].id@, games[j].id@);
    before(t, u) || (t == u && (before(a, b) || (a == b && i < j)))
}

/// Whether `at` holds the positions of `chosen`, each once, ordered by title, then by id.
pub open spec fn is_ordered_by_title(at: Seq<int>, games: Seq<Game>, chosen: Seq<int>) -> bool {
    &&& at.len() == chosen.len()
    &&& forall|k: int| 0 <= k < chosen.len() ==> at.contains(#[trigger] chosen[k])
    &&& forall|k: int| 0 <= k < at.len() ==> chosen.contains(#[trigger] at[k])
    &&& forall|k: int, l: int|
        0 <= k < l < at.len() ==> title_before(games, #[trigger] at[k], #[trigger] at[l])
}

proof fn title_before_is_transitive(games: Seq<Game>, i: int, j: int, k: int)
    requires
        title_before(games, i, j),
        title_before(games, j, k),
    ensures
        title_before(games, i, k),
{
    let (t, u, v) = (games[i].title@, games[j].title@, games[k].title@);
    let (a, b, c) = (games[i].id@, games[j].id@, games[k].id@);
    if before(t, u) && before(u, v) {
        before_is_transitive(t, u, v);
    }
    if before(a, b) && before(b, c) {
        before_is_transitive(a, b, c);
    }
}

proof fn title_before_is_total(games: Seq<Game>, i: int, j: int)
    requires
        i != j,
    ensures
        title_before(games, i, j) || title_before(games, j, i),
{
    before_is_total(games[i].title@, games[j].title@);
    before_is_total(games[i].id@, games[j].id@);
}

/// Of two positions `i < j`, whether `j` comes before `i` by title, then by id.
fn overtakes(games: &Vec<Game>, i: usize, j: usize) -> (r: bool)
    requires
        i < j < games@.len(),
    ensures
        r == title_before(games@, j as int, i as int),
{
    let a = &games[j];
    let b = &games[i];
    if is_before(a.title.as_str(), b.title.as_str()) {
        true
    } else if a.title == b.title {
        is_before(a.id.as_str(), b.id.as_str())
    } else {
        false
    }
}

/// Puts ascending positions in the order of the games' titles, then of their ids.
pub fn order_by_title(games: &Vec<Game>, chosen: &Vec<usize>) -> (r: Vec<usize>)
    requires
        forall|k: int| 0 <= k < chosen@.len() ==> (#[trigger] chosen@[k]) < games@.len(),
        forall|k: int, l: int|
            0 <= k < l < chosen@.len() ==> #[trigger] chosen@[k] < #[trigger] chosen@[l],
    ensures
        is_ordered_by_title(ints(r@), games@, ints(chosen@)),
        forall|k: int| 0 <= k < r@.len() ==> (#[trigger] r@[k]) < games@.len(),
{
    let mut out: Vec<usize> = Vec::new();
    for n in 0..chosen.len()
        invariant
            forall|k: int| 0 <= k < chosen@.len() ==> (#[trigger] chosen@[k]) < games@.len(),
            forall|k: int, l: int|
                0 <= k < l < chosen@.len() ==> #[trigger] chosen@[k] < #[trigger] chosen@[l],
            out@.len() == n,
            forall|k: int| 0 <= k < out@.len() ==> (#[trigger] out@[k]) < games@.len(),
            forall|k: int| 0 <= k < n ==> out@.contains(#[trigger] chosen@[k]),
            forall|k: int|
                0 <= k < out@.len() ==> chosen@.take(n as int).contains(#[trigger] out@[k]),
            forall|k: int, l: int|
                0 <= k < l < out@.len() ==> title_before(
                    games@,
                    #[trigger] out@[k] as int,
                    #[trigger] out@[l] as int,
                ),
    {
        let x: usize = chosen[n];
        assert forall|k: int| 0 <= k < out@.len() implies (#[trigger] out@[k]) < x by {
            let part = chosen@.take(n as int);
            let j = choose|j: int| 0 <= j < part.len() && part[j] == out@[k];
            assert(chosen@[j] < chosen@[n as int]);
        }
        let mut p: usize = 0;
        while p < out.len() && !overtakes(games, out[p], x)
            invariant
                x < games@.len(),
                p <= out@.len(),
                forall|k: int| 0 <= k < out@.len() ==> (#[trigger] out@[k]) < x,
                forall|k: int|
                    0 <= k < p ==> title_before(games@, #[trigger] out@[k] as int, x as int),
            decreases out@.len() - p,
        {
            proof {
                title_before_is_total(games@, out@[p as int] as int, x as int);
            }
            p += 1;
        }
        let ghost was = out@;
        out.insert(p, x);
        proof {
            inserted(was, out@, p as int, x, chosen@, n as int);
        }
        assert forall|k: int, l: int| 0 <= k < l < out@.len() implies title_before(
            games@,
            #[trigger] out@[k] as int,
            #[trigger] out@[l] as int,
        ) by {
            if k == p {
                assert(out@[l] == was[l - 1]);
                assert(title_before(games@, x as int, was[p as int] as int));
                if l - 1 > p {
                    assert(title_before(games@, was[p as int] as int, was[l - 1] as int));
                    title_before_is_transitive(
                        games@,
                        x as int,
                        was[p as int] as int,
                        was[l - 1] as int,
                    );
                }
            } else if l == p {
                assert(out@[k] == was[k]);
            } else {
                let a = if k < p {
                    k
                } else {
                    k - 1
                };
                let b = if l < p {
                    l
                } else {
                    l - 1
                };
                assert(out@[k] == was[a] && out@[l] == was[b]);
            }
        }
    }
    assert(chosen@.take(chosen@.len() as int) =~= chosen@);
    proof {
        as_ints(out@, chosen@);
    }
    out
}

} // verus!
