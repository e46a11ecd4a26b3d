//! What each turn of a pass over the apps, and of a rebuild of all of them, comes to.
use vstd::prelude::*;
use std::collections::HashMap;
use crate::app_set::ascends;
use crate::backfill_pass::{
    app_ended, backfill_follows, is_decided, is_fresh, BackfillAt, BackfillReply, BackfillRequest,
    BackfillStep, Rebuild,
};
use crate::enrich::{
    all_due, cache_views, ids_to_hide, AppAt, AppOutcome, AppReply, AppRequest, Work,
};
use crate::enrich_pass::{
    adult_among, any_detail, are_detail_ids, enrich_follows, is_prepared, starts, EnrichAt,
    EnrichReply, EnrichRequest, EnrichStep, Prepared,
};
use crate::model::Game;
use crate::select::{selected, selected_is_exact};
use crate::steam::{two_descriptors_mark_an_adult_game, CacheView, SteamAppCache};
use crate::text::views;

verus! {

// ---- A pass -----------------------------------------------------------------------------------

/// A pass starts with the games, unless it is switched off or there is no client; and it ends without a
/// summary where they cannot be listed, or what is kept cannot be read.
pub proof fn a_pass_starts_with_the_games(
    first: EnrichStep,
    disabled: bool,
    client: bool,
    out: EnrichStep,
    now: i64,
    at: EnrichAt,
    reply: EnrichReply,
)
    requires
        starts(first, disabled, client),
        enrich_follows(out, now, at, reply),
    ensures
        first.request is ListGames <==> client && !disabled,
        disabled || !client ==> first.request == EnrichRequest::Done(None),
        reply matches EnrichReply::Games(Err(_)) ==> out.request == EnrichRequest::Done(None),
        reply matches EnrichReply::Caches(Err(_)) ==> out.request == EnrichRequest::Done(None),
        out.request == EnrichRequest::Done(None) ==> reply matches EnrichReply::Games(Err(_))
            || reply matches EnrichReply::Caches(Err(_)),
{
}

/// What is kept is read of every app that a game of the shelf has, each once and in ascending order.
pub proof fn every_app_of_the_shelf_is_looked_at(
    out: EnrichStep,
    now: i64,
    games: Vec<Game>,
    i: int,
    a: u32,
)
    requires
        enrich_follows(out, now, EnrichAt::Listing, EnrichReply::Games(Ok(games))),
        0 <= i < games@.len(),
        games@[i].steam_app_id == Some(a),
    ensures
        out.request matches EnrichRequest::ReadCaches { apps } && (exists|k: int|
            0 <= k < apps@.len() && #[trigger] apps@[k] == a) && forall|j: int, k: int|
            0 <= j < k < apps@.len() ==> #[trigger] apps@[j] < #[trigger] apps@[k],
{
    let apps = out.request->apps@;
    assert(crate::enrich::apps_of(games@).contains(a)) by {
        assert(games@[i].steam_app_id == Some(a));
    }
    assert(apps.to_set().contains(a));
    let k = choose|k: int| 0 <= k < apps.len() && apps[k] == a;
    assert(apps[k] == a);
}

/// A pass does at most 75 apps, those that are due and come first; the others are put off. It starts with
/// every app in mind that is kept with a descriptor of adult content, whether it is due or not, and with
/// nothing counted.
pub proof fn a_pass_is_prepared_from_what_is_kept(
    p: Prepared,
    games: Vec<Game>,
    apps: Seq<u32>,
    caches: Seq<Option<CacheView>>,
    now: i64,
    i: int,
    d: int,
)
    requires
        is_prepared(p, games, apps, caches, now),
        0 <= i < apps.len(),
        apps.len() == caches.len(),
        ascends(apps),
    ensures
        p.work@.len() <= 75,
        p.work@.len() + p.tally.deferred == all_due(apps, caches, now, apps.len()).len(),
        p.tally.deferred > 0 ==> p.work@.len() == 75,
        0 <= i < p.work@.len() ==> p.work@[i] == all_due(apps, caches, now, apps.len())[i],
        caches[i] is None ==> !p.tally.adult@.contains(apps[i]),
        caches[i] matches Some(c) ==> (c.detail matches Some(v) ==> (0 <= d
            < v.content_descriptor_ids.len() && (v.content_descriptor_ids[d] == 3
            || v.content_descriptor_ids[d] == 4) ==> p.tally.adult@.contains(apps[i])) && ((forall|
            k: int,
        |
            0 <= k < v.content_descriptor_ids.len() ==> #[trigger] v.content_descriptor_ids[k] != 3
                && v.content_descriptor_ids[k] != 4) ==> !p.tally.adult@.contains(apps[i]))),
        p.hidden == 0 && p.tally.fetched == 0 && p.tally.lost_race == 0 && !p.tally.aborted_429,
{
    adult_apps_are_known(apps, caches, apps.len(), i);
    if let Some(c) = caches[i] {
        if let Some(v) = c.detail {
            two_descriptors_mark_an_adult_game(v, d);
        }
    }
}

proof fn adult_apps_are_known(apps: Seq<u32>, caches: Seq<Option<CacheView>>, n: nat, i: int)
    requires
        n <= apps.len(),
        apps.len() == caches.len(),
        0 <= i < apps.len(),
        ascends(apps),
    ensures
        adult_among(apps, caches, n).contains(apps[i]) <==> i < n && (caches[i] matches Some(c)
            && crate::steam::is_adult(c.detail)),
    decreases n,
{
    if n > 0 {
        adult_apps_are_known(apps, caches, (n - 1) as nat, i);
        if i != n - 1 {
            assert(apps[i] != apps[n - 1]);
        }
    }
}

/// Once what is kept was read the clock is looked at for the tags if a page is due, and for the first app
/// otherwise; where nothing is due the pass turns to the games to hide.
pub proof fn tags_wait_for_a_page(
    out: EnrichStep,
    now: i64,
    games: Vec<Game>,
    apps: Vec<u32>,
    caches: Vec<Option<SteamAppCache>>,
)
    requires
        enrich_follows(out, now, EnrichAt::Caching { games, apps }, EnrichReply::Caches(Ok(caches))),
    ensures
        exists|p: Prepared| #[trigger]
            is_prepared(p, games, apps@, cache_views(caches@), now) && ((exists|i: int|
                0 <= i < p.work@.len() && (#[trigger] p.work@[i]).need_detail) ==> out.at == (
            EnrichAt::TagTiming { p }) && out.request is CheckClock) && ((forall|i: int|
                0 <= i < p.work@.len() ==> !(#[trigger] p.work@[i]).need_detail) && p.work@.len() > 0
                ==> out.at == (EnrichAt::Timing { p, k: 0 }) && out.request is CheckClock) && (
            p.work@.len() == 0 ==> out.request is Hide || out.request is Done),
{
    let p = choose|p: Prepared| #[trigger]
        is_prepared(p, games, apps@, cache_views(caches@), now) && if any_detail(p.work@) {
            out.at == (EnrichAt::TagTiming { p }) && out.request is CheckClock
        } else {
            out.goes_on(p, 0)
        };
    assert(is_prepared(p, games, apps@, cache_views(caches@), now));
}

/// Tags are fetched if a page is due and there is time, and then for exactly the apps whose pages are.
pub proof fn tags_are_fetched_for_pages(
    out: EnrichStep,
    now: i64,
    p: Prepared,
    late: bool,
    i: int,
)
    requires
        enrich_follows(out, now, EnrichAt::TagTiming { p }, EnrichReply::Late(late)),
        0 <= i < p.work@.len(),
    ensures
        !late ==> (out.request matches EnrichRequest::FetchTags { ids } && (p.work@[i].need_detail
            ==> ids@.contains(p.work@[i].app_id)) && (i < ids@.len() ==> exists|j: int|
            0 <= j < p.work@.len() && (#[trigger] p.work@[j]).need_detail && p.work@[j].app_id
                == ids@[i])),
        late ==> out.at == (EnrichAt::Timing { p, k: 0 }),
{
    if !late {
        let ids = out.request->ids@;
        pages_are_listed(p.work@, p.work@.len(), ids, i);
    }
}

proof fn pages_are_listed(work: Seq<Work>, n: nat, ids: Seq<u32>, i: int)
    requires
        are_detail_ids(ids, work),
        n == work.len(),
        0 <= i < n,
    ensures
        work[i].need_detail ==> ids.contains(work[i].app_id),
        i < ids.len() ==> exists|j: int|
            0 <= j < work.len() && (#[trigger] work[j]).need_detail && work[j].app_id == ids[i],
{
    let f = |i: int| work[i].need_detail;
    selected_is_exact(n, f);
    let at = selected(n, f);
    if work[i].need_detail {
        assert(f(i));
        let k = choose|k: int| 0 <= k < at.len() && at[k] == i;
        assert(ids[k] == work[at[k]].app_id);
    }
    if i < ids.len() {
        assert(f(at[i]));
        assert(work[at[i]].need_detail);
    }
}

/// A batch of tags is used if both its parts came and it has an app; otherwise the pass goes on without,
/// and says so.
pub proof fn a_batch_is_used_or_missed(
    out: EnrichStep,
    now: i64,
    p: Prepared,
    items: Result<HashMap<u32, Vec<u32>>, ()>,
    names: Result<HashMap<u32, String>, ()>,
)
    requires
        enrich_follows(out, now, EnrichAt::Tagging { p }, EnrichReply::Tags { items, names }),
        p.work@.len() > 0,
    ensures
        out.request is CheckClock,
        out.at matches EnrichAt::Timing { p: q, k } && k == 0 && q.work == p.work && q.tally == p.tally
            && q.games == p.games && (q.batch is None <==> q.tag_batch_failed) && (match (
            items,
            names,
        ) {
            (Ok(i), Ok(n)) => if i@.len() == 0 {
                q.batch is None
            } else {
                q.batch matches Some(b) && b.items == i && b.names == n
            },
            _ => q.batch is None,
        }),
{
}

/// An app is taken up while there is time; once there is none all that are left are put off, and the
/// games of adult apps are hidden.
pub proof fn apps_are_taken_up_while_there_is_time(
    out: EnrichStep,
    now: i64,
    p: Prepared,
    k: usize,
    late: bool,
)
    requires
        enrich_follows(out, now, EnrichAt::Timing { p, k }, EnrichReply::Late(late)),
        p.wf(k as int),
        k < p.work@.len(),
    ensures
        !late ==> out.request == (EnrichRequest::App {
            app_id: p.work@[k as int].app_id,
            request: AppRequest::ReadSnapshot,
        }) && out.at == (EnrichAt::Working { p, k, app: AppAt::Reading }),
        late ==> (out.request matches EnrichRequest::Done(s) ==> (s matches Some(s) && s.deferred + k
            == p.tally.deferred + p.work@.len() && s.fetched == p.tally.fetched)),
        late ==> (ids_to_hide(p.games@, p.tally.adult@).len() > 0 ==> (
        out.request matches EnrichRequest::Hide { id } && id@ == ids_to_hide(
            p.games@,
            p.tally.adult@,
        )[0])),
        late ==> (ids_to_hide(p.games@, p.tally.adult@).len() == 0 ==> out.request is Done),
{
}

/// The games to hide are hidden one after the other; only those that were not hidden before count. The
/// last is followed by the summary, which has all counts of the pass.
pub proof fn games_are_hidden_one_by_one(
    out: EnrichStep,
    now: i64,
    p: Prepared,
    ids: Vec<String>,
    i: usize,
    done: bool,
)
    requires
        enrich_follows(out, now, EnrichAt::Hiding { p, ids, i }, EnrichReply::Hidden(done)),
        p.hidden < u32::MAX,
    ensures
        i + 1 < ids@.len() ==> (out.request matches EnrichRequest::Hide { id } && id@ == ids@[i + 1]@)
            && (out.at matches EnrichAt::Hiding { p: q, i: j, .. } && j == i + 1 && q.hidden == (
        if done {
            p.hidden + 1
        } else {
            p.hidden as int
        })),
        i + 1 >= ids@.len() ==> (out.request matches EnrichRequest::Done(Some(s)) && s.auto_hidden == (
        if done {
            p.hidden + 1
        } else {
            p.hidden as int
        }) && s.fetched == p.tally.fetched && s.fresh == p.tally.fresh && s.negative
            == p.tally.negative && s.lost_race == p.tally.lost_race && s.aborted_429
            == p.tally.aborted_429 && s.deferred == p.tally.deferred && s.tag_batch_failed
            == p.tag_batch_failed),
{
    assert(views(ids@).len() == ids@.len());
}

// ---- A rebuild --------------------------------------------------------------------------------

/// A rebuild looks at every app in turn. One that cannot be read counts as failed, one that was fetched a
/// short while ago as skipped; any other joins the work.
pub proof fn a_rebuild_looks_at_every_app(
    b: Rebuild,
    was: Rebuild,
    k: int,
    read: Result<Option<SteamAppCache>, ()>,
    now: i64,
    secs: i64,
)
    requires
        is_decided(b, was, k, read, now, secs),
        was.summary.failed < u32::MAX,
        was.summary.skipped < u32::MAX,
    ensures
        b.apps == was.apps && b.games == was.games,
        read is Err ==> b.summary.failed == was.summary.failed + 1 && b.summary.skipped
            == was.summary.skipped && b.work@ == was.work@,
        read matches Ok(Some(c)) ==> (now < c.fetched_at + secs ==> b.summary.skipped
            == was.summary.skipped + 1 && b.work@ == was.work@ && b.summary.failed
            == was.summary.failed) && (now >= c.fetched_at + secs ==> b.work@ == was.work@.push(
            was.apps@[k],
        ) && b.summary == was.summary),
        read matches Ok(None) ==> b.work@ == was.work@.push(was.apps@[k]) && b.summary == was.summary,
        b.summary.fetched == was.summary.fetched && b.summary.negative == was.summary.negative
            && b.summary.lost_race == was.summary.lost_race && b.summary.auto_hidden
            == was.summary.auto_hidden,
{
}

/// The next app is looked at, in the order of the list. After the last the tags of all the work are
/// fetched; where there is no work the rebuild turns to the games to hide.
pub proof fn a_rebuild_goes_through_its_list(
    out: BackfillStep,
    now: i64,
    secs: i64,
    b: Rebuild,
    k: usize,
    read: Result<Option<SteamAppCache>, ()>,
)
    requires
        backfill_follows(out, now, secs, BackfillAt::Reading { b, k }, BackfillReply::Cache(read)),
    ensures
        k + 1 < b.apps@.len() ==> out.request == (BackfillRequest::ReadCache {
            app_id: b.apps@[k + 1],
        }),
        k + 1 >= b.apps@.len() ==> out.request is FetchTags || out.request is Hide || out.request
            is Done,
        k + 1 >= b.apps@.len() && b.work@.len() > 0 ==> (out.request matches BackfillRequest::FetchTags {
            ids,
        } && forall|i: int| 0 <= i < b.work@.len() ==> #[trigger] ids@[i] == b.work@[i]),
{
}

/// Every app of the work has its page fetched, whatever its age, and its reviews left alone.
pub proof fn a_rebuild_fetches_pages_alone(
    out: BackfillStep,
    now: i64,
    secs: i64,
    b: Rebuild,
    k: usize,
    snap: Option<SteamAppCache>,
)
    requires
        backfill_follows(
            out,
            now,
            secs,
            BackfillAt::Working { b, k, app: AppAt::Reading },
            BackfillReply::App(AppReply::Snapshot(Ok(snap))),
        ),
    ensures
        out.request == (BackfillRequest::App {
            app_id: b.work@[k as int],
            request: AppRequest::FetchDetail,
        }),
{
}

/// A game that was hidden by the rebuild counts, and one that was hidden before does not.
pub proof fn a_rebuild_counts_what_it_hides(
    out: BackfillStep,
    now: i64,
    secs: i64,
    b: Rebuild,
    ids: Vec<String>,
    i: usize,
    done: bool,
)
    requires
        backfill_follows(out, now, secs, BackfillAt::Hiding { b, ids, i }, BackfillReply::Hidden(done)),
        b.summary.auto_hidden < u32::MAX,
    ensures
        i + 1 < ids@.len() ==> (out.request matches BackfillRequest::Hide { id } && id@ == ids@[i
            + 1]@),
        i + 1 >= ids@.len() ==> (out.request matches BackfillRequest::Done(Some(s)) && s.auto_hidden
            == b.summary.auto_hidden + (if done {
            1int
        } else {
            0
        }) && s.fetched == b.summary.fetched && s.failed == b.summary.failed),
{
    assert(views(ids@).len() == ids@.len());
}

/// A rebuild starts with all apps of the shelf before it, and with nothing counted, planned or known.
pub proof fn a_rebuild_starts_afresh(b: Rebuild, games: Vec<Game>, i: int, a: u32)
    requires
        is_fresh(b, games),
        0 <= i < games@.len(),
        games@[i].steam_app_id == Some(a),
    ensures
        b.games == games,
        b.apps@.contains(a),
        b.work@.len() == 0 && b.batch is None && !b.adult@.contains(a),
        b.summary.fetched == 0 && b.summary.negative == 0 && b.summary.skipped == 0
            && b.summary.failed == 0 && b.summary.auto_hidden == 0 && b.summary.lost_race == 0,
        !b.summary.aborted_429 && !b.summary.tag_batch_failed,
{
    assert(crate::enrich::apps_of(games@).contains(a)) by {
        assert(games@[i].steam_app_id == Some(a));
    }
    assert(b.apps@.to_set().contains(a));
}

/// What was planned, and the tags that were fetched for it, stay as they are while the apps are worked
/// on: the next app of the work is taken up with them, unless Steam asks to slow down.
pub proof fn the_work_of_a_rebuild_is_kept(
    out: BackfillStep,
    was: Rebuild,
    k: int,
    outcome: AppOutcome,
)
    requires
        app_ended(out, was, k, outcome),
        0 <= k < was.work@.len() <= usize::MAX,
    ensures
        !outcome.abort && k + 1 < was.work@.len() ==> (out.at matches BackfillAt::Working {
            b,
            k: k2,
            app,
        } && k2 == k + 1 && app is Reading && b.work == was.work && b.batch == was.batch && b.games
            == was.games) && out.request == (BackfillRequest::App {
            app_id: was.work@[k + 1],
            request: AppRequest::ReadSnapshot,
        }),
        outcome.abort || k + 1 == was.work@.len() ==> out.request is Hide || out.request is Done,
{
}

} // verus!
