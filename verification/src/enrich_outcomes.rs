//! What a pass over the Steam apps comes to, in the terms of what is kept and what Steam answers.
use vstd::prelude::*;
use crate::app_set::{ascends, in_order, the_order_is_unique};
use crate::enrich::{
    all_due, app_follows, apps_of, backfill_counted, due, ids_to_hide, ids_with_app, ids_with_apps,
    is_taken_up, noted, superseded, AppAt, AppDetails, AppOutcome, AppReply, AppRequest, AppStep,
    BackfillSummary, EnrichTally, PersistResult, Put, SteamAppPutGuard, SteamError, Work,
};
use crate::model::Game;
use crate::steam::{
    app_tags, merged, CacheView, DetailFetch, FetchedHalves, RecentReviews, ReviewSummary,
    SteamAppCache, SteamAppDetail, TagBatch,
};

verus! {

// ---- What is due ------------------------------------------------------------------------------

/// Everything is due for an app that was never seen. For one that is kept, the page is due after 30
/// days, and the reviews after 14, if it has a page.
pub proof fn a_page_lasts_a_month_and_reviews_a_fortnight(app_id: u32, c: CacheView, now: i64)
    ensures
        due(app_id, None, now).need_detail && due(app_id, None, now).need_reviews,
        due(app_id, None, now).app_id == app_id,
        due(app_id, Some(c), now).app_id == app_id,
        due(app_id, Some(c), now).need_detail <==> c.fetched_at + 2_592_000 <= now,
        c.detail is Some ==> (due(app_id, Some(c), now).need_reviews <==> c.reviews_fetched_at
            + 1_209_600 <= now),
        c.detail is None ==> !due(app_id, Some(c), now).need_reviews,
{
}

/// An app is taken up exactly if something is due for it.
pub proof fn every_app_that_is_due_is_listed(
    apps: Seq<u32>,
    caches: Seq<Option<CacheView>>,
    now: i64,
    n: nat,
    i: int,
)
    requires
        0 <= i < n <= apps.len(),
        apps.len() == caches.len(),
        due(apps[i], caches[i], now).need_detail || due(apps[i], caches[i], now).need_reviews,
    ensures
        all_due(apps, caches, now, n).contains(due(apps[i], caches[i], now)),
    decreases n,
{
    let m = (n - 1) as nat;
    let w = due(apps[i], caches[i], now);
    let all = all_due(apps, caches, now, n);
    if i == m {
        assert(all[all.len() - 1] == w);
    } else {
        every_app_that_is_due_is_listed(apps, caches, now, m, i);
        let head = all_due(apps, caches, now, m);
        let k = choose|k: int| 0 <= k < head.len() && head[k] == w;
        assert(all[k] == w);
    }
}

/// Nothing else is taken up.
pub proof fn only_what_is_due_is_listed(
    apps: Seq<u32>,
    caches: Seq<Option<CacheView>>,
    now: i64,
    n: nat,
    k: int,
)
    requires
        n <= apps.len(),
        0 <= k < all_due(apps, caches, now, n).len(),
    ensures
        ({
            let w = all_due(apps, caches, now, n)[k];
            &&& w.need_detail || w.need_reviews
            &&& exists|i: int| 0 <= i < n && w == due(#[trigger] apps[i], caches[i], now)
        }),
    decreases n,
{
    let m = (n - 1) as nat;
    let head = all_due(apps, caches, now, m);
    if k < head.len() {
        only_what_is_due_is_listed(apps, caches, now, m, k);
        assert(all_due(apps, caches, now, n)[k] == head[k]);
    } else {
        assert(all_due(apps, caches, now, n)[k] == due(apps[n - 1], caches[n - 1], now));
    }
}

/// An app is one of the shelf's exactly if a game of the shelf is it.
pub proof fn the_shelfs_apps_are_those_of_its_games(games: Seq<Game>, i: int, a: u32)
    ensures
        0 <= i < games.len() && games[i].steam_app_id == Some(a) ==> apps_of(games).contains(a),
        (forall|k: int| 0 <= k < games.len() ==> (#[trigger] games[k]).steam_app_id != Some(a))
            ==> !apps_of(games).contains(a),
{
}

// ---- One app ----------------------------------------------------------------------------------

/// Whether the work ends, and with what.
pub open spec fn is_done(out: AppStep, live: bool, delisted: bool, abort: bool) -> bool {
    out.at is Over && (out.request matches AppRequest::Done(o) && o.live == live && o.delisted
        == delisted && o.abort == abort)
}

/// How the work ends.
pub open spec fn result_of(out: AppStep) -> PersistResult {
    out.request->Done_0.result
}

/// What is kept is read first. Then the page is fetched if it is due, and otherwise the reviews are if
/// they are due, unless what is kept has no page.
pub proof fn what_is_due_is_fetched(
    out: AppStep,
    work: Work,
    batch: Option<TagBatch>,
    now: i64,
    read: Result<Option<SteamAppCache>, ()>,
)
    requires
        app_follows(out, work, batch, now, AppAt::Reading, AppReply::Snapshot(read)),
    ensures
        read is Err ==> is_done(out, false, false, false) && result_of(out) is SnapshotFailed,
        read matches Ok(snap) ==> {
            let stub = snap matches Some(c) && c.detail is None;
            &&& work.need_detail ==> out.request is FetchDetail && out.at == (AppAt::Detailing {
                snap,
            })
            &&& !work.need_detail && work.need_reviews && !stub ==> out.request is FetchSummary && (
            out.at matches AppAt::Summing { snap: s, ours } && s == snap && ours.now == now
                && ours.detail is None && ours.reviews is None)
            &&& !work.need_detail && (!work.need_reviews || stub) ==> is_done(
                out,
                false,
                false,
                false,
            ) && result_of(out) is Nothing
        },
{
}

/// A page that was found is kept as it was found, but with the tags of the batch. The reviews follow if
/// they are due; otherwise it is written.
pub proof fn a_found_page_is_kept(
    out: AppStep,
    work: Work,
    batch: Option<TagBatch>,
    now: i64,
    snap: Option<SteamAppCache>,
    found: Box<SteamAppDetail>,
)
    requires
        app_follows(
            out,
            work,
            batch,
            now,
            AppAt::Detailing { snap },
            AppReply::Detail(Ok(AppDetails::Found(found))),
        ),
        snap matches Some(c) ==> c.fetched_at <= now,
        snap is None ==> now >= 0,
    ensures
        work.need_reviews ==> out.request is FetchSummary && (out.at matches AppAt::Summing {
            snap: s,
            ours,
        } && s == snap && ours.now == now && ours.reviews is None && (
        ours.detail matches Some(DetailFetch::Live(d)) && d@.app_id == found.app_id && d@.name
            == found.name@ && d@.short_description == found.short_description@
            && d@.content_descriptor_ids == found.content_descriptor_ids@ && d@.tags == app_tags(
            work.app_id,
            batch,
            match snap {
                Some(c) => c.detail,
                None => None,
            },
        ))),
        !work.need_reviews ==> (out.at matches AppAt::Putting { cache, after_race, abort, .. }
            && !after_race && !abort && cache@.fetched_at == now && (
        cache@.detail matches Some(d) && d.app_id == found.app_id && d.name == found.name@
            && d.short_description == found.short_description@ && d.content_descriptor_ids
            == found.content_descriptor_ids@ && d.tags == app_tags(
            work.app_id,
            batch,
            match snap {
                Some(c) => c.detail,
                None => None,
            },
        )) && (snap matches Some(c) ==> cache@.app_id == c.app_id && cache@.overall == c.overall
            && cache@.recent == c.recent && cache@.reviews_fetched_at == c.reviews_fetched_at) && (
        snap is None ==> cache@.app_id == work.app_id)),
{
}

/// An app that Steam no longer has is kept without a page, and is not asked about its reviews.
pub proof fn an_app_that_is_gone_is_kept_as_a_stub(
    out: AppStep,
    work: Work,
    batch: Option<TagBatch>,
    now: i64,
    snap: Option<SteamAppCache>,
)
    requires
        app_follows(
            out,
            work,
            batch,
            now,
            AppAt::Detailing { snap },
            AppReply::Detail(Ok(AppDetails::Delisted)),
        ),
        snap matches Some(c) ==> c.fetched_at <= now && c.reviews_fetched_at <= now,
        snap is None ==> now >= 0,
    ensures
        out.request is Put,
        out.at matches AppAt::Putting { cache, ours, after_race, abort } && !after_race && !abort
            && cache@.detail is None && cache@.fetched_at == now && cache@.reviews_fetched_at == now
            && ours.now == now && (ours.detail matches Some(DetailFetch::Delisted)) && ours.reviews
            is None,
{
}

/// A page that cannot be fetched ends the work on the app, and the pass with it if Steam asks to slow
/// down.
pub proof fn a_page_that_fails_ends_the_app(
    out: AppStep,
    work: Work,
    batch: Option<TagBatch>,
    now: i64,
    snap: Option<SteamAppCache>,
    e: SteamError,
)
    requires
        app_follows(out, work, batch, now, AppAt::Detailing { snap }, AppReply::Detail(Err(e))),
    ensures
        is_done(out, false, false, e is RateLimited),
        result_of(out) is DetailFailed,
{
}

/// Both kinds of reviews are fetched, all of them first; both are kept, and as old as the pass.
pub proof fn the_reviews_are_kept_together(
    first: AppStep,
    out: AppStep,
    work: Work,
    batch: Option<TagBatch>,
    now: i64,
    snap: Option<SteamAppCache>,
    ours: FetchedHalves,
    overall: ReviewSummary,
    recent: RecentReviews,
)
    requires
        app_follows(
            first,
            work,
            batch,
            now,
            AppAt::Summing { snap, ours },
            AppReply::Summary(Ok(overall)),
        ),
        app_follows(out, work, batch, now, first.at, AppReply::Recent(Ok(recent))),
        !(ours.detail matches Some(DetailFetch::Delisted)),
        snap matches Some(c) ==> c.reviews_fetched_at <= ours.now,
        snap is None ==> ours.now >= 0,
    ensures
        first.request is FetchRecent,
        out.request is Put,
        out.at matches AppAt::Putting { cache, ours: o, after_race, abort } && !after_race && !abort
            && cache@.overall == Some(overall) && cache@.recent == Some(recent)
            && cache@.reviews_fetched_at == ours.now && o.detail == ours.detail && o.reviews == Some(
            (overall, recent),
        ) && (ours.detail is None ==> (snap matches Some(c) ==> cache@.detail == c@.detail
            && cache@.fetched_at == c.fetched_at)),
{
}

/// Reviews that fail leave what was fetched before them: a page is still written, without touching the
/// reviews that are kept; where there is none, nothing is.
pub proof fn reviews_that_fail_leave_the_page(
    out: AppStep,
    work: Work,
    batch: Option<TagBatch>,
    now: i64,
    snap: Option<SteamAppCache>,
    ours: FetchedHalves,
    overall: ReviewSummary,
    e: SteamError,
)
    requires
        app_follows(out, work, batch, now, AppAt::Summing { snap, ours }, AppReply::Summary(Err(e)))
            || app_follows(
            out,
            work,
            batch,
            now,
            AppAt::Recenting { snap, ours, overall },
            AppReply::Recent(Err(e)),
        ),
        ours.reviews is None,
        !(ours.detail matches Some(DetailFetch::Delisted)),
    ensures
        ours.detail is None ==> is_done(out, false, false, e is RateLimited) && result_of(
            out,
        ) is Nothing,
        ours.detail is Some ==> out.request is Put && (out.at matches AppAt::Putting {
            cache,
            ours: o,
            after_race,
            abort,
        } && !after_race && abort == (e is RateLimited) && o == ours && (snap matches Some(c)
            ==> cache@.overall == c.overall && cache@.recent == c.recent && cache@.reviews_fetched_at
            == c.reviews_fetched_at)),
{
}

/// A write must find what was read in place: nothing, if nothing was there. One that is done ends the
/// work with what was written; one that comes too late is followed by another look, and the same halves
/// are then merged into what that look has found. A second one that comes too late gives up.
pub proof fn a_write_is_tried_twice(
    out: AppStep,
    work: Work,
    batch: Option<TagBatch>,
    now: i64,
    cache: SteamAppCache,
    ours: FetchedHalves,
    after_race: bool,
    abort: bool,
    put: Put,
)
    requires
        app_follows(
            out,
            work,
            batch,
            now,
            AppAt::Putting { cache, ours, after_race, abort },
            AppReply::Put(put),
        ),
    ensures
        ({
            let live = ours.detail matches Some(DetailFetch::Live(_));
            let gone = ours.detail matches Some(DetailFetch::Delisted);
            &&& put == Put::Done ==> is_done(out, live, gone, abort) && (result_of(
                out,
            ) matches PersistResult::Written { cache: c, after_race: r } && *c == cache && r
                == after_race)
            &&& put == Put::Failed ==> is_done(out, live, gone, abort) && (result_of(
                out,
            ) matches PersistResult::Failed { after_race: r } && r == after_race)
            &&& put == Put::LostRace && after_race ==> is_done(out, live, gone, abort) && result_of(
                out,
            ) is LostTwice
            &&& put == Put::LostRace && !after_race ==> out.request is ReadSnapshot && out.at == (
            AppAt::Rereading { ours, abort })
        }),
{
}

/// What a second look finds is what the halves are merged into.
pub proof fn a_second_write_starts_from_the_second_look(
    out: AppStep,
    work: Work,
    batch: Option<TagBatch>,
    now: i64,
    ours: FetchedHalves,
    abort: bool,
    read: Result<Option<SteamAppCache>, ()>,
)
    requires
        app_follows(out, work, batch, now, AppAt::Rereading { ours, abort }, AppReply::Snapshot(read)),
        ours.detail is Some || ours.reviews is Some,
    ensures
        read is Err ==> out.at is Over && (result_of(out) matches PersistResult::Failed {
            after_race,
        } && after_race),
        read matches Ok(Some(c)) ==> (out.at matches AppAt::Putting {
            cache,
            ours: o,
            after_race,
            abort: a,
        } && cache@ == merged(c@, ours) && o == ours && after_race && a == abort),
        read matches Ok(Some(_)) ==> out.request == (AppRequest::Put {
            guard: SteamAppPutGuard::Unchanged,
        }),
        read matches Ok(None) ==> out.at is Putting && out.request == (AppRequest::Put {
            guard: SteamAppPutGuard::Absent,
        }),
{
}

// ---- The tally --------------------------------------------------------------------------------

/// An app counts as fetched exactly if it was written, and then as fresh or gone as its page was; as
/// raced if its first write came too late, whatever came of the second. A pass that ends early puts off
/// all apps behind this one.
pub proof fn each_outcome_counts_once(
    was: EnrichTally,
    t: EnrichTally,
    app_id: u32,
    o: AppOutcome,
    count: usize,
    k: usize,
)
    requires
        noted(was, t, app_id, o, count, k),
        k < count,
    ensures
        o.result matches PersistResult::Written { after_race, .. } ==> {
            &&& t.fetched == was.fetched + 1
            &&& o.live ==> t.fresh == was.fresh + 1
            &&& !o.live ==> t.fresh == was.fresh
            &&& o.delisted ==> t.negative == was.negative + 1
            &&& !o.delisted ==> t.negative == was.negative
            &&& after_race ==> t.lost_race == was.lost_race + 1
            &&& !after_race ==> t.lost_race == was.lost_race
        },
        !(o.result is Written) ==> t.fetched == was.fetched && t.fresh == was.fresh && t.negative
            == was.negative && t.adult@ == was.adult@,
        o.result is LostTwice ==> t.lost_race == was.lost_race + 1,
        o.result matches PersistResult::Failed { after_race } ==> t.lost_race == was.lost_race + (
        if after_race {
            1int
        } else {
            0
        }),
        o.result is SnapshotFailed || o.result is DetailFailed || o.result is Nothing ==> t.lost_race
            == was.lost_race,
        o.abort ==> t.aborted_429 && t.deferred + k + 1 == was.deferred + count,
        !o.abort ==> t.aborted_429 == was.aborted_429 && t.deferred == was.deferred,
{
}

/// A page that was found and written decides whether its app is adult: by either of the two descriptors.
pub proof fn a_written_page_decides(
    before: Set<u32>,
    after: Set<u32>,
    app_id: u32,
    o: AppOutcome,
    d: SteamAppDetail,
    i: int,
)
    requires
        superseded(before, after, app_id, o),
        o.live,
        o.result matches PersistResult::Written { cache, .. } && cache.detail == Some(d),
    ensures
        0 <= i < d.content_descriptor_ids@.len() && (d.content_descriptor_ids@[i] == 3
            || d.content_descriptor_ids@[i] == 4) ==> after.contains(app_id),
        (forall|k: int|
            0 <= k < d.content_descriptor_ids@.len() ==> #[trigger] d.content_descriptor_ids@[k] != 3
                && d.content_descriptor_ids@[k] != 4) ==> !after.contains(app_id),
{
    let v = d@;
    assert(v.content_descriptor_ids == d.content_descriptor_ids@);
    crate::steam::two_descriptors_mark_an_adult_game(v, i);
    assert forall|k: int| 0 <= k < v.content_descriptor_ids.len() implies
        #[trigger] v.content_descriptor_ids[k] == d.content_descriptor_ids@[k] by {}
}

// ---- Which games are hidden -------------------------------------------------------------------

/// A game is hidden exactly if its app is known to be adult.
pub proof fn the_games_of_an_adult_app_are_hidden(
    games: Seq<Game>,
    adult: Set<u32>,
    apps: Seq<u32>,
    i: int,
    app: u32,
)
    requires
        ascends(apps),
        apps.to_set() == adult,
        0 <= i < games.len(),
        games[i].steam_app_id == Some(app),
        adult.contains(app),
    ensures
        ids_to_hide(games, adult).contains(games[i].id@),
{
    the_order_is_unique(apps, in_order(adult));
    assert(apps.to_set().contains(app));
    let k = choose|k: int| 0 <= k < apps.len() && apps[k] == app;
    has_its_games(games, app, games.len(), i);
    is_among_all(games, apps, apps.len(), k, games[i].id@);
}

proof fn has_its_games(games: Seq<Game>, app: u32, n: nat, i: int)
    requires
        0 <= i < n <= games.len(),
        games[i].steam_app_id == Some(app),
    ensures
        ids_with_app(games, app, n).contains(games[i].id@),
    decreases n,
{
    let all = ids_with_app(games, app, n);
    if i == n - 1 {
        assert(all[all.len() - 1] == games[i].id@);
    } else {
        has_its_games(games, app, (n - 1) as nat, i);
        let head = ids_with_app(games, app, (n - 1) as nat);
        let k = choose|k: int| 0 <= k < head.len() && head[k] == games[i].id@;
        assert(all[k] == head[k]);
    }
}

proof fn is_among_all(games: Seq<Game>, apps: Seq<u32>, n: nat, k: int, id: Seq<char>)
    requires
        0 <= k < n <= apps.len(),
        ids_with_app(games, apps[k], games.len()).contains(id),
    ensures
        ids_with_apps(games, apps, n).contains(id),
    decreases n,
{
    let head = ids_with_apps(games, apps, (n - 1) as nat);
    let more = ids_with_app(games, apps[n - 1], games.len());
    let all = ids_with_apps(games, apps, n);
    if k == n - 1 {
        let j = choose|j: int| 0 <= j < more.len() && more[j] == id;
        assert(all[head.len() + j] == id);
    } else {
        is_among_all(games, apps, (n - 1) as nat, k, id);
        let j = choose|j: int| 0 <= j < head.len() && head[j] == id;
        assert(all[j] == id);
    }
}

/// No other game is hidden.
pub proof fn no_other_game_is_hidden(games: Seq<Game>, apps: Seq<u32>, n: nat, j: int)
    requires
        n <= apps.len(),
        0 <= j < ids_with_apps(games, apps, n).len(),
    ensures
        exists|i: int|
            0 <= i < games.len() && (#[trigger] games[i]).id@ == ids_with_apps(games, apps, n)[j]
                && (games[i].steam_app_id matches Some(a) && apps.contains(a)),
    decreases n,
{
    let m = (n - 1) as nat;
    let head = ids_with_apps(games, apps, m);
    let more = ids_with_app(games, apps[n - 1], games.len());
    if j < head.len() {
        no_other_game_is_hidden(games, apps, m, j);
        assert(ids_with_apps(games, apps, n)[j] == head[j]);
    } else {
        is_of_the_app(games, apps[n - 1], games.len(), j - head.len());
        assert(ids_with_apps(games, apps, n)[j] == more[j - head.len()]);
        assert(apps.contains(apps[n - 1]));
    }
}

proof fn is_of_the_app(games: Seq<Game>, app: u32, n: nat, j: int)
    requires
        n <= games.len(),
        0 <= j < ids_with_app(games, app, n).len(),
    ensures
        exists|i: int|
            0 <= i < n && (#[trigger] games[i]).id@ == ids_with_app(games, app, n)[j]
                && games[i].steam_app_id == Some(app),
    decreases n,
{
    let head = ids_with_app(games, app, (n - 1) as nat);
    if j < head.len() {
        is_of_the_app(games, app, (n - 1) as nat, j);
        assert(ids_with_app(games, app, n)[j] == head[j]);
    } else {
        assert(games[n - 1].id@ == ids_with_app(games, app, n)[j]);
    }
}

// ---- A rebuild --------------------------------------------------------------------------------

/// A rebuild takes up every app that it can read, but for one that was fetched a short while ago.
pub proof fn a_rebuild_leaves_what_is_fresh(c: SteamAppCache, now: i64, secs: i64)
    ensures
        !is_taken_up(Err(()), now, secs),
        is_taken_up(Ok(None), now, secs),
        is_taken_up(Ok(Some(c)), now, secs) <==> c.fetched_at + secs <= now,
{
}

/// A rebuild counts each app once: as fetched if it was written with a page, as gone if without one, as
/// failed if it was not written. An app at which Steam asks to slow down counts as none of these.
pub proof fn a_rebuild_counts_each_app_once(s: BackfillSummary, o: AppOutcome)
    requires
        s.fetched < u32::MAX,
        s.negative < u32::MAX,
        s.failed < u32::MAX,
        s.lost_race < u32::MAX,
    ensures
        ({
            let t = backfill_counted(s, o);
            let wrote = o.result is Written;
            let slowed = o.result is DetailFailed && o.abort;
            &&& t.skipped == s.skipped && t.auto_hidden == s.auto_hidden && t.tag_batch_failed
                == s.tag_batch_failed
            &&& o.result matches PersistResult::Written { cache, .. } ==> t.failed == s.failed && (
            cache.detail is Some ==> t.fetched == s.fetched + 1 && t.negative == s.negative) && (
            cache.detail is None ==> t.fetched == s.fetched && t.negative == s.negative + 1)
            &&& !wrote ==> t.fetched == s.fetched && t.negative == s.negative
            &&& slowed ==> t.failed == s.failed && t.aborted_429
            &&& !slowed ==> t.aborted_429 == s.aborted_429
            &&& o.result is Nothing ==> t.failed == s.failed
            &&& !wrote && !slowed && !(o.result is Nothing) ==> t.failed == s.failed + 1
            &&& o.result is LostTwice ==> t.lost_race == s.lost_race + 1
            &&& o.result matches PersistResult::Written { after_race, .. } ==> t.lost_race
                == s.lost_race + (if after_race {
                1int
            } else {
                0
            })
        }),
{
}

} // verus!
