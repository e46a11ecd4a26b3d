//! The attic whispers: which game is spoken of next.
//!
//! A game that is promised to somebody, or that was spoken of in this cycle, is passed over. A whisper
//! that was not delivered does not count.
use vstd::prelude::*;
use crate::message_laws::nothing_comes_before_itself;
use crate::model::{Game, Link};
use crate::order::{ints, is_ordered_by_title, order_by_title};
use crate::select::{selected, selected_is_exact};
use crate::text::{before, holds, views};

verus! {

/// One whisper, as it was recorded.
#[derive(Debug, PartialEq, Eq)]
pub struct WhisperRecord {
    pub slot: String,
    pub game_id: String,
    pub cycle: u32,
    pub delivered: bool,
}

// ---- What is passed over ----------------------------------------------------------------------

/// Whether the promises of a link still hold: it is not revoked, has not expired and has claims left.
pub open spec fn is_active(l: Link, now: i128) -> bool {
    &&& !l.revoked
    &&& l.expires_at matches Some(e) ==> e > now
    &&& l.claims_used < l.claims_allowed
}

/// Whether a game is promised on a link. An open shelf promises nothing.
pub open spec fn promises(l: Link, id: Seq<char>) -> bool {
    l.curated_game_ids matches Some(ids) && views(ids@).contains(id)
}

/// Whether a game is promised to somebody.
pub open spec fn is_promised(links: Seq<Link>, now: i128, id: Seq<char>) -> bool {
    exists|i: int|
        0 <= i < links.len() && is_active(#[trigger] links[i], now) && promises(links[i], id)
}

/// No text is in the list twice.
pub open spec fn no_doubles(s: Seq<Seq<char>>) -> bool {
    forall|i: int, j: int| 0 <= i < j < s.len() ==> #[trigger] s[i] != #[trigger] s[j]
}

/// Adds a text to a list unless it is there.
fn note(list: &mut Vec<String>, x: &String)
    requires
        no_doubles(views(old(list)@)),
    ensures
        no_doubles(views(final(list)@)),
        forall|y: Seq<char>|
            #![trigger views(final(list)@).contains(y)]
            #![trigger views(old(list)@).contains(y)]
            views(final(list)@).contains(y) <==> views(old(list)@).contains(y) || y == x@,
{
    if !holds(list, x.as_str()) {
        let ghost was = views(list@);
        let one = x.clone();
        assert(views(list@.push(one)) =~= was.push(x@));
        list.push(one);
        assert forall|y: Seq<char>| views(list@).contains(y) <==> was.contains(y) || y == x@ by {
            let now = views(list@);
            if was.contains(y) {
                let i = choose|i: int| 0 <= i < was.len() && was[i] == y;
                assert(now[i] == y);
            }
            if y == x@ {
                assert(now[was.len() as int] == y);
            }
            if now.contains(y) && y != x@ {
                let i = choose|i: int| 0 <= i < now.len() && now[i] == y;
                assert(was[i] == y);
            }
        }
        assert forall|i: int, j: int| 0 <= i < j < views(list@).len() implies #[trigger] views(
            list@,
        )[i] != #[trigger] views(list@)[j] by {
            if j == was.len() {
                assert(was.contains(was[i]));
            }
        }
    }
}

/// The ids of all games that are promised to somebody, each once.
pub fn active_promises(links: &Vec<Link>, now: i128) -> (r: Vec<String>)
    ensures
        forall|id: Seq<char>|
            #![trigger views(r@).contains(id)]
            #![trigger is_promised(links@, now, id)]
            views(r@).contains(id) <==> is_promised(links@, now, id),
        no_doubles(views(r@)),
{
    let mut out: Vec<String> = Vec::new();
    for i in 0..links.len()
        invariant
            no_doubles(views(out@)),
            forall|id: Seq<char>|
                #![trigger views(out@).contains(id)]
                #![trigger is_promised(links@.take(i as int), now, id)]
                views(out@).contains(id) <==> is_promised(links@.take(i as int), now, id),
    {
        let l = &links[i];
        let ghost was = views(out@);
        let live: bool = match l.expires_at {
            Some(e) => e > now,
            None => true,
        };
        if !l.revoked && live && l.claims_used < l.claims_allowed {
            if let Some(ids) = &l.curated_game_ids {
                for k in 0..ids.len()
                    invariant
                        no_doubles(views(out@)),
                        forall|id: Seq<char>|
                            #![trigger views(out@).contains(id)]
                            #![trigger was.contains(id)]
                            views(out@).contains(id) <==> was.contains(id) || views(
                                ids@,
                            ).take(k as int).contains(id),
                {
                    note(&mut out, &ids[k]);
                    assert forall|id: Seq<char>|
                        #![trigger views(ids@).take(k + 1).contains(id)]
                        #![trigger views(ids@).take(k as int).contains(id)]
                        views(ids@).take(k + 1).contains(id) <==> views(ids@).take(
                            k as int,
                        ).contains(id) || id == ids@[k as int]@ by {
                        let a = views(ids@).take(k as int);
                        let b = views(ids@).take(k + 1);
                        assert(b =~= a.push(ids@[k as int]@));
                        if a.contains(id) {
                            let j = choose|j: int| 0 <= j < a.len() && a[j] == id;
                            assert(b[j] == id);
                        }
                        if id == ids@[k as int]@ {
                            assert(b[k as int] == id);
                        }
                        if b.contains(id) && id != ids@[k as int]@ {
                            let j = choose|j: int| 0 <= j < b.len() && b[j] == id;
                            assert(a[j] == id);
                        }
                    }
                }
                assert(views(ids@).take(ids@.len() as int) =~= views(ids@));
            }
        }
        proof {
            let front = links@.take(i as int);
            let part = links@.take(i + 1);
            assert forall|id: Seq<char>|
                #[trigger] is_promised(part, now, id) <==> is_promised(front, now, id) || (
                is_active(*l, now) && promises(*l, id)) by {
                if is_promised(front, now, id) {
                    let j = choose|j: int|
                        0 <= j < front.len() && is_active(#[trigger] front[j], now) && promises(
                            front[j],
                            id,
                        );
                    assert(is_active(part[j], now) && promises(part[j], id));
                }
                if is_active(*l, now) && promises(*l, id) {
                    assert(is_active(part[i as int], now) && promises(part[i as int], id));
                }
                if is_promised(part, now, id) {
                    let j = choose|j: int|
                        0 <= j < part.len() && is_active(#[trigger] part[j], now) && promises(
                            part[j],
                            id,
                        );
                    if j < i {
                        assert(is_active(front[j], now) && promises(front[j], id));
                    }
                }
            }
            assert forall|id: Seq<char>|
                #![trigger views(out@).contains(id)]
                #![trigger is_promised(part, now, id)]
                views(out@).contains(id) <==> is_promised(part, now, id) by {
                assert(was.contains(id) <==> is_promised(front, now, id));
            }
        }
    }
    assert(links@.take(links@.len() as int) =~= links@);
    out
}

/// Whether a cycle is the latest of a list, or the first where the list is empty.
pub open spec fn is_current_cycle(whispers: Seq<WhisperRecord>, cycle: u32) -> bool {
    &&& forall|i: int| 0 <= i < whispers.len() ==> (#[trigger] whispers[i]).cycle <= cycle
    &&& cycle == 0 || exists|i: int| 0 <= i < whispers.len() && (#[trigger] whispers[i]).cycle == cycle
}

/// The latest cycle of the whispers.
pub fn current_cycle(whispers: &Vec<WhisperRecord>) -> (r: u32)
    ensures
        is_current_cycle(whispers@, r),
{
    let mut r: u32 = 0;
    for i in 0..whispers.len()
        invariant
            forall|j: int| 0 <= j < i ==> (#[trigger] whispers@[j]).cycle <= r,
            r == 0 || exists|j: int| 0 <= j < i && (#[trigger] whispers@[j]).cycle == r,
    {
        if whispers[i].cycle > r {
            r = whispers[i].cycle;
            assert(whispers@[i as int].cycle == r);
        }
    }
    r
}

/// Whether a game was spoken of, and heard, in a cycle.
pub open spec fn was_delivered(whispers: Seq<WhisperRecord>, cycle: u32, id: Seq<char>) -> bool {
    exists|i: int|
        0 <= i < whispers.len() && (#[trigger] whispers[i]).cycle == cycle && whispers[i].delivered
            && whispers[i].game_id@ == id
}

/// The ids of all games that were spoken of, and heard, in a cycle, each once.
pub fn delivered_ids(whispers: &Vec<WhisperRecord>, cycle: u32) -> (r: Vec<String>)
    ensures
        forall|id: Seq<char>|
            #![trigger views(r@).contains(id)]
            #![trigger was_delivered(whispers@, cycle, id)]
            views(r@).contains(id) <==> was_delivered(whispers@, cycle, id),
        no_doubles(views(r@)),
{
    let mut out: Vec<String> = Vec::new();
    for i in 0..whispers.len()
        invariant
            no_doubles(views(out@)),
            forall|id: Seq<char>|
                #![trigger views(out@).contains(id)]
                #![trigger was_delivered(whispers@.take(i as int), cycle, id)]
                views(out@).contains(id) <==> was_delivered(whispers@.take(i as int), cycle, id),
    {
        let w = &whispers[i];
        let ghost was = views(out@);
        if w.cycle == cycle && w.delivered {
            note(&mut out, &w.game_id);
        }
        proof {
            let front = whispers@.take(i as int);
            let part = whispers@.take(i + 1);
            assert forall|id: Seq<char>|
                #[trigger] was_delivered(part, cycle, id) <==> was_delivered(front, cycle, id) || (
                w.cycle == cycle && w.delivered && w.game_id@ == id) by {
                if was_delivered(front, cycle, id) {
                    let j = choose|j: int|
                        0 <= j < front.len() && (#[trigger] front[j]).cycle == cycle
                            && front[j].delivered && front[j].game_id@ == id;
                    assert(part[j].cycle == cycle);
                }
                if w.cycle == cycle && w.delivered && w.game_id@ == id {
                    assert(part[i as int].cycle == cycle);
                }
                if was_delivered(part, cycle, id) {
                    let j = choose|j: int|
                        0 <= j < part.len() && (#[trigger] part[j]).cycle == cycle
                            && part[j].delivered && part[j].game_id@ == id;
                    if j < i {
                        assert(front[j].cycle == cycle);
                    }
                }
            }
            assert forall|id: Seq<char>|
                #![trigger views(out@).contains(id)]
                #![trigger was_delivered(part, cycle, id)]
                views(out@).contains(id) <==> was_delivered(part, cycle, id) by {
                assert(was.contains(id) <==> was_delivered(front, cycle, id));
            }
        }
    }
    assert(whispers@.take(whispers@.len() as int) =~= whispers@);
    out
}

/// A whisper that was not delivered passes nothing over.
pub proof fn an_undelivered_whisper_excludes_nothing(
    whispers: Seq<WhisperRecord>,
    failed: WhisperRecord,
    cycle: u32,
    id: Seq<char>,
)
    requires
        !failed.delivered,
    ensures
        was_delivered(whispers.push(failed), cycle, id) == was_delivered(whispers, cycle, id),
{
    let all = whispers.push(failed);
    if was_delivered(whispers, cycle, id) {
        let j = choose|j: int|
            0 <= j < whispers.len() && (#[trigger] whispers[j]).cycle == cycle
                && whispers[j].delivered && whispers[j].game_id@ == id;
        assert(all[j].cycle == cycle);
    }
    if was_delivered(all, cycle, id) {
        let j = choose|j: int|
            0 <= j < all.len() && (#[trigger] all[j]).cycle == cycle && all[j].delivered
                && all[j].game_id@ == id;
        assert(whispers[j].cycle == cycle);
    }
}

/// An open shelf promises nothing, so it keeps no game from being spoken of.
pub proof fn an_open_shelf_promises_nothing(links: Seq<Link>, shelf: Link, now: i128, id: Seq<char>)
    requires
        shelf.curated_game_ids is None,
    ensures
        is_promised(links.push(shelf), now, id) == is_promised(links, now, id),
{
    let all = links.push(shelf);
    if is_promised(links, now, id) {
        let j = choose|j: int|
            0 <= j < links.len() && is_active(#[trigger] links[j], now) && promises(links[j], id);
        assert(is_active(all[j], now) && promises(all[j], id));
    }
    if is_promised(all, now, id) {
        let j = choose|j: int|
            0 <= j < all.len() && is_active(#[trigger] all[j], now) && promises(all[j], id);
        assert(is_active(links[j], now) && promises(links[j], id));
    }
}

// ---- What is left -----------------------------------------------------------------------------

/// Whether a game can be spoken of: it is on offer, nobody was promised it, and it is not excluded.
/// `listable` says which games are on offer.
pub open spec fn is_eligible(
    games: Seq<Game>,
    listable: Seq<bool>,
    promised: Seq<Seq<char>>,
    excluded: Seq<Seq<char>>,
    i: int,
) -> bool {
    listable[i] && !promised.contains(games[i].id@) && !excluded.contains(games[i].id@)
}

/// The positions, below `n`, of the games that can be spoken of.
pub open spec fn eligible_at(
    games: Seq<Game>,
    listable: Seq<bool>,
    promised: Seq<Seq<char>>,
    excluded: Seq<Seq<char>>,
    n: nat,
) -> Seq<int> {
    selected(n, |i: int| is_eligible(games, listable, promised, excluded, i))
}

/// The games that can be spoken of, ordered by title, then by id.
pub fn eligible<'a>(
    games: &'a Vec<Game>,
    listable: &Vec<bool>,
    promised: &Vec<String>,
    excluded: &Vec<String>,
) -> (r: Vec<&'a Game>)
    requires
        games@.len() == listable@.len(),
    ensures
        exists|at: Seq<int>| #[trigger]
            is_ordered_by_title(
                at,
                games@,
                eligible_at(
                    games@,
                    listable@,
                    views(promised@),
                    views(excluded@),
                    games@.len(),
                ),
            ) && r@.len() == at.len() && forall|k: int|
                0 <= k < at.len() ==> *(#[trigger] r@[k]) == games@[at[k]],
{
    let mut chosen: Vec<usize> = Vec::new();
    let ghost p = views(promised@);
    let ghost x = views(excluded@);
    for i in 0..games.len()
        invariant
            games@.len() == listable@.len(),
            p == views(promised@),
            x == views(excluded@),
            ints(chosen@) =~= eligible_at(games@, listable@, p, x, i as nat),
            forall|k: int| 0 <= k < chosen@.len() ==> (#[trigger] chosen@[k]) < i,
            forall|k: int, l: int|
                0 <= k < l < chosen@.len() ==> #[trigger] chosen@[k] < #[trigger] chosen@[l],
    {
        if listable[i] && !holds(promised, games[i].id.as_str()) && !holds(
            excluded,
            games[i].id.as_str(),
        ) {
            chosen.push(i);
        }
    }
    let order = order_by_title(games, &chosen);
    let mut out: Vec<&'a Game> = Vec::new();
    for k in 0..order.len()
        invariant
            forall|j: int| 0 <= j < order@.len() ==> (#[trigger] order@[j]) < games@.len(),
            out@.len() == k,
            forall|j: int| 0 <= j < k ==> *(#[trigger] out@[j]) == games@[ints(order@)[j]],
    {
        out.push(&games[order[k]]);
    }
    assert(is_ordered_by_title(
        ints(order@),
        games@,
        eligible_at(games@, listable@, p, x, games@.len()),
    ));
    out
}

/// A game is among those that can be spoken of exactly if it is on offer, unpromised and not
/// excluded.
pub proof fn eligibility_is_exact(
    at: Seq<int>,
    games: Seq<Game>,
    listable: Seq<bool>,
    promised: Seq<Seq<char>>,
    excluded: Seq<Seq<char>>,
    i: int,
)
    requires
        is_ordered_by_title(
            at,
            games,
            eligible_at(games, listable, promised, excluded, games.len()),
        ),
        0 <= i < games.len(),
    ensures
        at.contains(i) <==> is_eligible(games, listable, promised, excluded, i),
{
    let p = |i: int| is_eligible(games, listable, promised, excluded, i);
    let all = eligible_at(games, listable, promised, excluded, games.len());
    selected_is_exact(games.len(), p);
    if at.contains(i) {
        let k = choose|k: int| 0 <= k < at.len() && at[k] == i;
        assert(all.contains(at[k]));
        let j = choose|j: int| 0 <= j < all.len() && all[j] == i;
        assert(p(all[j]));
    }
    if p(i) {
        assert(all.contains(i));
        let j = choose|j: int| 0 <= j < all.len() && all[j] == i;
        assert(at.contains(all[j]));
    }
}

// ---- The choice -------------------------------------------------------------------------------

/// What spreads the days over the games.
pub const SPREAD: u64 = 2_654_435_761;

/// The distance of a number from 0.
pub open spec fn distance(n: int) -> int {
    if n < 0 {
        -n
    } else {
        n
    }
}

/// The place among `len` games that a day falls on.
pub open spec fn place_of(julian_day: int, len: nat) -> int {
    (distance(julian_day) * SPREAD) % 0x1_0000_0000_0000_0000 % (len as int)
}

/// The positions, below `n`, of the games with artwork.
pub open spec fn dressed_at(pool: Seq<&Game>, n: nat) -> Seq<int> {
    selected(n, |i: int| pool[i].artwork_url is Some)
}

/// The position of the game that is chosen: by the day, among those with artwork, or among all if
/// none has any.
pub open spec fn chosen_at(pool: Seq<&Game>, julian_day: int) -> int {
    let dressed = dressed_at(pool, pool.len());
    if dressed.len() > 0 {
        dressed[place_of(julian_day, dressed.len())]
    } else {
        place_of(julian_day, pool.len())
    }
}

fn place(julian_day: i64, len: usize) -> (r: usize)
    requires
        len > 0,
    ensures
        r == place_of(julian_day as int, len as nat),
        r < len,
{
    let d: u64 = if julian_day >= 0 {
        julian_day as u64
    } else {
        (-(julian_day + 1)) as u64 + 1
    };
    let h: u64 = d.wrapping_mul(SPREAD);
    (h % len as u64) as usize
}

/// Chooses one of the games: none exactly if there is none.
pub fn select<'a>(pool: &Vec<&'a Game>, julian_day: i64) -> (r: Option<&'a Game>)
    ensures
        match r {
            Some(g) => pool@.len() > 0 && *g == *pool@[chosen_at(pool@, julian_day as int)],
            None => pool@.len() == 0,
        },
{
    let mut dressed: Vec<usize> = Vec::new();
    for i in 0..pool.len()
        invariant
            ints(dressed@) =~= dressed_at(pool@, i as nat),
            forall|k: int| 0 <= k < dressed@.len() ==> (#[trigger] dressed@[k]) < i,
    {
        if pool[i].artwork_url.is_some() {
            dressed.push(i);
        }
    }
    assert(ints(dressed@).len() == dressed@.len());
    if dressed.len() > 0 {
        let k: usize = place(julian_day, dressed.len());
        assert(ints(dressed@)[k as int] == dressed@[k as int]);
        Some(pool[dressed[k]])
    } else if pool.len() > 0 {
        Some(pool[place(julian_day, pool.len())])
    } else {
        None
    }
}

/// The game that is chosen has artwork if any has, and the same day chooses the same game from the
/// same list.
pub proof fn a_dressed_game_is_preferred(pool: Seq<&Game>, julian_day: int)
    requires
        pool.len() > 0,
    ensures
        0 <= chosen_at(pool, julian_day) < pool.len(),
        (exists|i: int| 0 <= i < pool.len() && (#[trigger] pool[i]).artwork_url is Some) ==> pool[chosen_at(
            pool,
            julian_day,
        )].artwork_url is Some,
{
    let p = |i: int| pool[i].artwork_url is Some;
    let dressed = dressed_at(pool, pool.len());
    selected_is_exact(pool.len(), p);
    if exists|i: int| 0 <= i < pool.len() && (#[trigger] pool[i]).artwork_url is Some {
        let i = choose|i: int| 0 <= i < pool.len() && (#[trigger] pool[i]).artwork_url is Some;
        assert(p(i));
        assert(dressed.contains(i));
    }
    if dressed.len() > 0 {
        let k = place_of(julian_day, dressed.len());
        assert(0 <= k < dressed.len());
        assert(p(dressed[k]));
    }
}

// ---- What keeps a game back, and which one is chosen ------------------------------------------

/// A game that is on the list of a link is promised as long as the link is not revoked, has not expired
/// and has claims left.
pub proof fn a_link_keeps_what_it_lists(links: Seq<Link>, now: i128, id: Seq<char>, i: int, k: int)
    requires
        0 <= i < links.len(),
        links[i].curated_game_ids matches Some(ids) && 0 <= k < ids@.len() && ids@[k]@ == id,
        !links[i].revoked,
        links[i].claims_used < links[i].claims_allowed,
        links[i].expires_at matches Some(e) ==> now < e,
    ensures
        is_promised(links, now, id),
{
    let ids = links[i].curated_game_ids->0;
    assert(views(ids@)[k] == id);
    assert(is_active(links[i], now) && promises(links[i], id));
}

/// A link that is revoked, has expired or is used up keeps nothing, and neither does one that does not
/// list the game.
pub proof fn a_spent_link_keeps_nothing(links: Seq<Link>, now: i128, id: Seq<char>)
    requires
        forall|i: int|
            0 <= i < links.len() ==> (#[trigger] links[i]).revoked || links[i].claims_used
                >= links[i].claims_allowed || (links[i].expires_at matches Some(e) && e <= now) || (
            links[i].curated_game_ids matches Some(ids) ==> forall|k: int|
                0 <= k < ids@.len() ==> (#[trigger] ids@[k])@ != id),
    ensures
        !is_promised(links, now, id),
{
    if is_promised(links, now, id) {
        let i = choose|i: int|
            0 <= i < links.len() && is_active(#[trigger] links[i], now) && promises(links[i], id);
        let ids = links[i].curated_game_ids->0;
        let k = choose|k: int| 0 <= k < views(ids@).len() && views(ids@)[k] == id;
        assert(ids@[k]@ == id);
    }
}

/// A whisper that was heard keeps its game back in its own cycle, and in no other.
pub proof fn a_whisper_counts_in_its_cycle(
    whispers: Seq<WhisperRecord>,
    heard: WhisperRecord,
    cycle: u32,
    id: Seq<char>,
)
    requires
        heard.delivered,
    ensures
        was_delivered(whispers.push(heard), heard.cycle, heard.game_id@),
        heard.cycle != cycle || heard.game_id@ != id ==> was_delivered(
            whispers.push(heard),
            cycle,
            id,
        ) == was_delivered(whispers, cycle, id),
{
    let all = whispers.push(heard);
    assert(all[whispers.len() as int].cycle == heard.cycle);
    if was_delivered(whispers, cycle, id) {
        let j = choose|j: int|
            0 <= j < whispers.len() && (#[trigger] whispers[j]).cycle == cycle
                && whispers[j].delivered && whispers[j].game_id@ == id;
        assert(all[j].cycle == cycle);
    }
    if was_delivered(all, cycle, id) && (heard.cycle != cycle || heard.game_id@ != id) {
        let j = choose|j: int|
            0 <= j < all.len() && (#[trigger] all[j]).cycle == cycle && all[j].delivered
                && all[j].game_id@ == id;
        assert(whispers[j].cycle == cycle);
    }
}

/// The cycle is the greatest that was recorded, delivered or not, and the first where none was.
pub proof fn the_cycle_is_the_latest(whispers: Seq<WhisperRecord>, cycle: u32, other: u32, i: int)
    requires
        is_current_cycle(whispers, cycle),
    ensures
        whispers.len() == 0 ==> cycle == 0,
        0 <= i < whispers.len() ==> whispers[i].cycle <= cycle,
        is_current_cycle(whispers, other) ==> cycle == other,
{
    if is_current_cycle(whispers, other) && other != cycle {
        if cycle > 0 {
            let j = choose|j: int| 0 <= j < whispers.len() && (#[trigger] whispers[j]).cycle == cycle;
            assert(whispers[j].cycle <= other);
        }
        if other > 0 {
            let j = choose|j: int| 0 <= j < whispers.len() && (#[trigger] whispers[j]).cycle == other;
            assert(whispers[j].cycle <= cycle);
        }
    }
}

/// A game can be spoken of exactly if it is on offer and its id is neither among the promised nor among
/// the excluded.
pub proof fn a_game_that_nothing_keeps_back_can_be_spoken_of(
    games: Seq<Game>,
    listable: Seq<bool>,
    promised: Seq<Seq<char>>,
    excluded: Seq<Seq<char>>,
    i: int,
    k: int,
)
    ensures
        !listable[i] ==> !is_eligible(games, listable, promised, excluded, i),
        0 <= k < promised.len() && promised[k] == games[i].id@ ==> !is_eligible(
            games,
            listable,
            promised,
            excluded,
            i,
        ),
        0 <= k < excluded.len() && excluded[k] == games[i].id@ ==> !is_eligible(
            games,
            listable,
            promised,
            excluded,
            i,
        ),
        listable[i] && (forall|j: int|
            0 <= j < promised.len() ==> #[trigger] promised[j] != games[i].id@) && (forall|j: int|
            0 <= j < excluded.len() ==> #[trigger] excluded[j] != games[i].id@) ==> is_eligible(
            games,
            listable,
            promised,
            excluded,
            i,
        ),
{
}

/// The games come by title, and by id where the titles are the same.
pub proof fn the_games_come_by_title(
    at: Seq<int>,
    games: Seq<Game>,
    chosen: Seq<int>,
    j: int,
    k: int,
)
    requires
        is_ordered_by_title(at, games, chosen),
        0 <= j < k < at.len(),
    ensures
        games[at[j]].title@ == games[at[k]].title@ || before(
            games[at[j]].title@,
            games[at[k]].title@,
        ),
        games[at[j]].title@ == games[at[k]].title@ ==> games[at[j]].id@ == games[at[k]].id@ || before(
            games[at[j]].id@,
            games[at[k]].id@,
        ),
        at.len() == chosen.len(),
{
    nothing_comes_before_itself(games[at[j]].title@);
}

/// A day falls on the place that its number, spread out and wrapped at 64 bits, leaves when the games
/// are counted off; a day before the first falls where its distance does.
pub proof fn a_day_falls_on_its_place(day: int, len: nat)
    requires
        len > 0,
    ensures
        0 <= place_of(day, len) < len,
        place_of(-day, len) == place_of(day, len),
        0 <= day && day * 2_654_435_761 < 0x1_0000_0000_0000_0000 ==> place_of(day, len) == (day
            * 2_654_435_761) % (len as int),
{
    if 0 <= day && day * 2_654_435_761 < 0x1_0000_0000_0000_0000 {
        let h = day * 2_654_435_761;
        assert(h >= 0) by (nonlinear_arith)
            requires
                h == day * 2_654_435_761,
                0 <= day,
        ;
        assert(h % 0x1_0000_0000_0000_0000 == h) by (nonlinear_arith)
            requires
                0 <= h < 0x1_0000_0000_0000_0000,
        ;
    }
}

/// Where all games have artwork, or none has, the game that is chosen is the one on the day's place.
pub proof fn the_day_chooses_among_equals(pool: Seq<&Game>, day: int)
    requires
        pool.len() > 0,
        (forall|i: int| 0 <= i < pool.len() ==> (#[trigger] pool[i]).artwork_url is Some) || (forall|
            i: int,
        |
            0 <= i < pool.len() ==> (#[trigger] pool[i]).artwork_url is None),
    ensures
        chosen_at(pool, day) == place_of(day, pool.len()),
{
    if forall|i: int| 0 <= i < pool.len() ==> (#[trigger] pool[i]).artwork_url is Some {
        all_are_dressed(pool, pool.len());
        a_day_falls_on_its_place(day, pool.len());
    } else {
        none_is_dressed(pool, pool.len());
    }
}

proof fn all_are_dressed(pool: Seq<&Game>, n: nat)
    requires
        n <= pool.len(),
        forall|i: int| 0 <= i < pool.len() ==> (#[trigger] pool[i]).artwork_url is Some,
    ensures
        dressed_at(pool, n).len() == n,
        forall|i: int| 0 <= i < n ==> #[trigger] dressed_at(pool, n)[i] == i,
    decreases n,
{
    if n > 0 {
        all_are_dressed(pool, (n - 1) as nat);
        assert(pool[n - 1].artwork_url is Some);
    }
}

proof fn none_is_dressed(pool: Seq<&Game>, n: nat)
    requires
        n <= pool.len(),
        forall|i: int| 0 <= i < pool.len() ==> (#[trigger] pool[i]).artwork_url is None,
    ensures
        dressed_at(pool, n).len() == 0,
    decreases n,
{
    if n > 0 {
        none_is_dressed(pool, (n - 1) as nat);
        assert(pool[n - 1].artwork_url is None);
    }
}

} // verus!
