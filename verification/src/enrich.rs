//! Passes that bring what is known of the Steam apps up to date: which apps are due, what is done
//! for each, and which games are hidden for what was found.
use vstd::prelude::*;
use crate::app_set::{in_order, AppSet};
use crate::model::Game;
use crate::select::selected;
use crate::steam::{
    app_tags, has_adult_descriptors, is_adult, merge_fetched_halves, merged, stub_freezes_reviews,
    tags_for_app, CacheView, DetailFetch, DetailView, FetchedHalves, RecentReviews, ReviewSummary,
    SteamAppCache, SteamAppDetail, TagBatch,
};
use crate::text::views;

verus! {

/// How many apps one pass brings up to date at most.
pub const STEAM_ENRICH_MAX_APPS: usize = 75;

/// A page is fetched again once it is this old, in seconds.
pub const STEAM_DETAIL_TTL_SECS: i64 = 2_592_000;

/// Reviews are fetched again once they are this old, in seconds.
pub const STEAM_REVIEWS_TTL_SECS: i64 = 1_209_600;

// ---- The apps of the shelf --------------------------------------------------------------------

/// The apps of some games.
pub open spec fn apps_of(games: Seq<Game>) -> Set<u32> {
    Set::new(
        |a: u32|
            exists|i: int| 0 <= i < games.len() && (#[trigger] games[i]).steam_app_id == Some(a),
    )
}

/// The apps of some games, each once.
pub fn appids_of(games: &Vec<Game>) -> (r: AppSet)
    ensures
        r@ == apps_of(games@),
{
    let mut out = AppSet::new();
    assert(out@ =~= apps_of(games@.take(0)));
    for i in 0..games.len()
        invariant
            out@ == apps_of(games@.take(i as int)),
    {
        let ghost part = games@.take(i + 1);
        let ghost front = games@.take(i as int);
        let ghost was = out@;
        if let Some(a) = games[i].steam_app_id {
            out.insert(a);
        }
        assert forall|a: u32| out@.contains(a) <==> apps_of(part).contains(a) by {
            if apps_of(front).contains(a) {
                let j = choose|j: int|
                    0 <= j < front.len() && (#[trigger] front[j]).steam_app_id == Some(a);
                assert(part[j].steam_app_id == Some(a));
            }
            if apps_of(part).contains(a) {
                let j = choose|j: int|
                    0 <= j < part.len() && (#[trigger] part[j]).steam_app_id == Some(a);
                if j < i {
                    assert(front[j].steam_app_id == Some(a));
                }
            }
            if games@[i as int].steam_app_id == Some(a) {
                assert(part[i as int].steam_app_id == Some(a));
            }
        }
        assert(out@ =~= apps_of(part));
    }
    assert(games@.take(games@.len() as int) =~= games@);
    out
}

// ---- What is due ------------------------------------------------------------------------------

/// What a pass has to do for an app.
#[derive(Debug, Clone, Copy, PartialEq, Eq, Structural)]
pub struct Work {
    pub app_id: u32,
    pub need_detail: bool,
    pub need_reviews: bool,
}

/// What is due for an app. The reviews of an app that Steam no longer has are left as they are.
pub open spec fn due(app_id: u32, cache: Option<CacheView>, now: i64) -> Work {
    match cache {
        None => Work { app_id, need_detail: true, need_reviews: true },
        Some(c) => Work {
            app_id,
            need_detail: now - c.fetched_at >= STEAM_DETAIL_TTL_SECS,
            need_reviews: now - c.reviews_fetched_at >= STEAM_REVIEWS_TTL_SECS && c.detail is Some,
        },
    }
}

/// What is kept of an app, by what it holds.
pub open spec fn cache_view(cache: Option<SteamAppCache>) -> Option<CacheView> {
    match cache {
        Some(c) => Some(c@),
        None => None,
    }
}

/// What is due for an app.
pub fn due_for(app_id: u32, cache: &Option<SteamAppCache>, now: i64) -> (r: Work)
    ensures
        r == due(app_id, cache_view(*cache), now),
{
    match cache {
        None => Work { app_id, need_detail: true, need_reviews: true },
        Some(c) => Work {
            app_id,
            need_detail: now as i128 - c.fetched_at as i128 >= STEAM_DETAIL_TTL_SECS as i128,
            need_reviews: now as i128 - c.reviews_fetched_at as i128
                >= STEAM_REVIEWS_TTL_SECS as i128 && c.detail.is_some(),
        },
    }
}

/// What is kept of a list of apps.
pub open spec fn cache_views(caches: Seq<Option<SteamAppCache>>) -> Seq<Option<CacheView>> {
    Seq::new(caches.len(), |i: int| cache_view(caches[i]))
}

/// Everything that is due for the first `n` apps, in their order.
pub open spec fn all_due(apps: Seq<u32>, caches: Seq<Option<CacheView>>, now: i64, n: nat) -> Seq<Work>
    decreases n,
{
    if n == 0 {
        Seq::empty()
    } else {
        let head = all_due(apps, caches, now, (n - 1) as nat);
        let w = due(apps[n - 1], caches[n - 1], now);
        if w.need_detail || w.need_reviews {
            head.push(w)
        } else {
            head
        }
    }
}

/// What a pass does: what is due for the apps, up to the most that one pass does. The second result
/// is how many apps are put off to a later pass.
pub fn enrich_worklist(apps: &Vec<u32>, caches: &Vec<Option<SteamAppCache>>, now: i64) -> (r: (
    Vec<Work>,
    usize,
))
    requires
        apps@.len() == caches@.len(),
    ensures
        ({
            let all = all_due(apps@, cache_views(caches@), now, apps@.len());
            &&& r.0@ == crate::steam::at_most(all, STEAM_ENRICH_MAX_APPS as nat)
            &&& r.0@.len() + r.1 == all.len()
        }),
{
    let mut out: Vec<Work> = Vec::new();
    for i in 0..apps.len()
        invariant
            apps@.len() == caches@.len(),
            out@.len() <= i,
            out@ == all_due(apps@, cache_views(caches@), now, i as nat),
    {
        let w = due_for(apps[i], &caches[i], now);
        if w.need_detail || w.need_reviews {
            out.push(w);
        }
    }
    let n: usize = out.len();
    if n > STEAM_ENRICH_MAX_APPS {
        out.truncate(STEAM_ENRICH_MAX_APPS);
        (out, n - STEAM_ENRICH_MAX_APPS)
    } else {
        (out, 0)
    }
}

/// The apps among some work whose pages are due: those that tags are fetched for.
pub fn detail_ids(work: &Vec<Work>) -> (r: Vec<u32>)
    ensures
        r@.len() == selected(work@.len(), |i: int| work@[i].need_detail).len(),
        forall|k: int|
            0 <= k < r@.len() ==> r@[k] == work@[selected(
                work@.len(),
                |i: int| work@[i].need_detail,
            )[k]].app_id,
{
    let ghost p = |i: int| work@[i].need_detail;
    let mut out: Vec<u32> = Vec::new();
    for i in 0..work.len()
        invariant
            p == (|i: int| work@[i].need_detail),
            out@.len() == selected(i as nat, p).len(),
            forall|k: int|
                0 <= k < out@.len() ==> out@[k] == work@[selected(i as nat, p)[k]].app_id,
    {
        if work[i].need_detail {
            out.push(work[i].app_id);
        }
    }
    out
}

// ---- One app ----------------------------------------------------------------------------------

/// How a call to Steam can fail.
#[derive(Debug, Clone, Copy, PartialEq, Eq, Structural)]
pub enum SteamError {
    RateLimited,
    Api,
    Network,
    Parse,
    KeyRejected,
    NotFound,
    OpenIdRejected,
}

/// What Steam says of an app.
pub enum AppDetails {
    Found(Box<SteamAppDetail>),
    Delisted,
}

/// What a write must find in place: nothing, or what was read before.
#[derive(Debug, Clone, Copy, PartialEq, Eq, Structural)]
pub enum SteamAppPutGuard {
    Absent,
    Unchanged,
}

/// How a guarded write has ended.
#[derive(Debug, Clone, Copy, PartialEq, Eq, Structural)]
pub enum Put {
    Done,
    /// Somebody else wrote in between.
    LostRace,
    Failed,
}

/// Where the work on an app stands: what it waits for.
pub enum AppAt {
    Reading,
    Detailing { snap: Option<SteamAppCache> },
    Summing { snap: Option<SteamAppCache>, ours: FetchedHalves },
    Recenting { snap: Option<SteamAppCache>, ours: FetchedHalves, overall: ReviewSummary },
    /// `cache` is being written; `abort`: the pass ends with this app.
    Putting { cache: SteamAppCache, ours: FetchedHalves, after_race: bool, abort: bool },
    Rereading { ours: FetchedHalves, abort: bool },
    Over,
}

/// How the work on an app has ended.
pub enum PersistResult {
    /// What is kept could not be read.
    SnapshotFailed,
    /// The page could not be fetched.
    DetailFailed,
    /// Nothing was fetched.
    Nothing,
    /// What is kept now. `after_race`: the first write came too late, the second did not.
    Written { cache: Box<SteamAppCache>, after_race: bool },
    /// Both writes came too late.
    LostTwice,
    /// A write failed, or the read before the second. `after_race`: the first came too late.
    Failed { after_race: bool },
}

/// How the work on an app has ended, and what it has found on the way.
pub struct AppOutcome {
    pub result: PersistResult,
    /// The page was found.
    pub live: bool,
    /// Steam no longer has the app.
    pub delisted: bool,
    /// Steam asks to slow down: the pass ends here.
    pub abort: bool,
}

/// What the work on an app requests next.
pub enum AppRequest {
    ReadSnapshot,
    FetchDetail,
    FetchSummary,
    FetchRecent,
    /// Write what `AppAt::Putting` holds.
    Put { guard: SteamAppPutGuard },
    Done(AppOutcome),
}

/// The reply to a request.
pub enum AppReply {
    Snapshot(Result<Option<SteamAppCache>, ()>),
    Detail(Result<AppDetails, SteamError>),
    Summary(Result<ReviewSummary, SteamError>),
    Recent(Result<RecentReviews, SteamError>),
    Put(Put),
}

/// One turn of the work on an app.
pub struct AppStep {
    pub at: AppAt,
    pub request: AppRequest,
}

impl AppAt {
    /// Whether `reply` is a reply to what the work waits for.
    pub open spec fn expects(self, reply: AppReply) -> bool {
        match self {
            AppAt::Reading => reply is Snapshot,
            AppAt::Detailing { .. } => reply is Detail,
            AppAt::Summing { .. } => reply is Summary,
            AppAt::Recenting { .. } => reply is Recent,
            AppAt::Putting { .. } => reply is Put,
            AppAt::Rereading { .. } => reply is Snapshot,
            AppAt::Over => false,
        }
    }
}

/// Nothing but an app's id is known, or what was read of it.
pub open spec fn snapshot_view(app_id: u32, snap: Option<SteamAppCache>) -> CacheView {
    match snap {
        Some(c) => c@,
        None => CacheView {
            app_id,
            detail: None,
            overall: None,
            recent: None,
            fetched_at: 0,
            reviews_fetched_at: 0,
        },
    }
}

pub open spec fn guard_of(snap: Option<SteamAppCache>) -> SteamAppPutGuard {
    match snap {
        Some(_) => SteamAppPutGuard::Unchanged,
        None => SteamAppPutGuard::Absent,
    }
}

pub open spec fn is_live(ours: FetchedHalves) -> bool {
    ours.detail matches Some(DetailFetch::Live(_))
}

pub open spec fn is_delisted(ours: FetchedHalves) -> bool {
    ours.detail matches Some(DetailFetch::Delisted)
}

/// Whether an app is kept as a stub, and its page has not been found again.
pub open spec fn is_frozen(snap: Option<SteamAppCache>, ours: FetchedHalves) -> bool {
    (snap matches Some(c) && c.detail is None) && !is_live(ours)
}

impl AppStep {
    /// The work ends without having fetched anything.
    pub open spec fn ends(self, result: PersistResult, abort: bool) -> bool {
        &&& self.at is Over
        &&& self.request == AppRequest::Done(
            AppOutcome { result, live: false, delisted: false, abort },
        )
    }

    /// The work ends.
    pub open spec fn ends_with(self, result: PersistResult, ours: FetchedHalves, abort: bool) -> bool {
        &&& self.at is Over
        &&& self.request matches AppRequest::Done(o) && {
            &&& o.result == result
            &&& o.live == is_live(ours)
            &&& o.delisted == is_delisted(ours)
            &&& o.abort == abort
        }
    }

    /// What was fetched is written on top of what was read; if nothing was, the work ends.
    pub open spec fn persists(
        self,
        app_id: u32,
        snap: Option<SteamAppCache>,
        ours: FetchedHalves,
        after_race: bool,
        abort: bool,
    ) -> bool {
        if ours.detail is None && ours.reviews is None {
            self.ends_with(PersistResult::Nothing, ours, abort)
        } else {
            &&& self.at matches AppAt::Putting { cache, ours: o2, after_race: r2, abort: a2 } && {
                &&& cache@ == merged(snapshot_view(app_id, snap), ours)
                &&& o2 == ours
                &&& r2 == after_race
                &&& a2 == abort
            }
            &&& self.request == (AppRequest::Put { guard: guard_of(snap) })
        }
    }

    /// The reviews are fetched if they are due, the app is still there and not frozen.
    pub open spec fn reviews(self, work: Work, snap: Option<SteamAppCache>, ours: FetchedHalves) -> bool {
        if work.need_reviews && !is_delisted(ours) && !is_frozen(snap, ours) {
            self.at == (AppAt::Summing { snap, ours }) && self.request is FetchSummary
        } else {
            self.persists(work.app_id, snap, ours, false, false)
        }
    }
}

/// Nothing was fetched at the time `now`.
pub open spec fn no_halves(now: i64) -> FetchedHalves {
    FetchedHalves { now, detail: None, reviews: None }
}

/// Whether `ours` holds the page that was found, with the tags of the batch.
pub open spec fn holds_detail(
    ours: FetchedHalves,
    now: i64,
    found: SteamAppDetail,
    tags: Seq<Seq<char>>,
) -> bool {
    &&& ours.now == now
    &&& ours.reviews is None
    &&& ours.detail matches Some(DetailFetch::Live(d)) && d@ == (DetailView { tags, ..found@ })
}

/// The page of what was read, if any.
pub open spec fn detail_of(snap: Option<SteamAppCache>) -> Option<SteamAppDetail> {
    match snap {
        Some(c) => c.detail,
        None => None,
    }
}

/// The page has been asked for.
pub open spec fn detail_fetched(
    out: AppStep,
    work: Work,
    batch: Option<TagBatch>,
    now: i64,
    snap: Option<SteamAppCache>,
    r: Result<AppDetails, SteamError>,
) -> bool {
    match r {
        Ok(AppDetails::Found(d)) => exists|ours: FetchedHalves|
            holds_detail(ours, now, *d, app_tags(work.app_id, batch, detail_of(snap)))
                && #[trigger] out.reviews(work, snap, ours),
        Ok(AppDetails::Delisted) => out.reviews(
            work,
            snap,
            FetchedHalves { now, detail: Some(DetailFetch::Delisted), reviews: None },
        ),
        Err(SteamError::RateLimited) => out.ends(PersistResult::DetailFailed, true),
        Err(_) => out.ends(PersistResult::DetailFailed, false),
    }
}

/// A write has come back. One that came too late is done again, once, on top of what is there now.
pub open spec fn put_done(
    out: AppStep,
    cache: SteamAppCache,
    ours: FetchedHalves,
    after_race: bool,
    abort: bool,
    put: Put,
) -> bool {
    match put {
        Put::Done => out.ends_with(
            PersistResult::Written { cache: Box::new(cache), after_race },
            ours,
            abort,
        ),
        Put::Failed => out.ends_with(PersistResult::Failed { after_race }, ours, abort),
        Put::LostRace => if after_race {
            out.ends_with(PersistResult::LostTwice, ours, abort)
        } else {
            out.at == (AppAt::Rereading { ours, abort }) && out.request is ReadSnapshot
        },
    }
}

/// Whether `out` is the turn that follows a reply.
pub open spec fn app_follows(
    out: AppStep,
    work: Work,
    batch: Option<TagBatch>,
    now: i64,
    at: AppAt,
    reply: AppReply,
) -> bool {
    match (at, reply) {
        (AppAt::Reading, AppReply::Snapshot(r)) => match r {
            Err(_) => out.ends(PersistResult::SnapshotFailed, false),
            Ok(snap) => if work.need_detail {
                out.at == (AppAt::Detailing { snap }) && out.request is FetchDetail
            } else {
                out.reviews(work, snap, no_halves(now))
            },
        },
        (AppAt::Detailing { snap }, AppReply::Detail(r)) => detail_fetched(
            out,
            work,
            batch,
            now,
            snap,
            r,
        ),
        (AppAt::Summing { snap, ours }, AppReply::Summary(r)) => match r {
            Ok(overall) => out.at == (AppAt::Recenting { snap, ours, overall }) && out.request
                is FetchRecent,
            Err(e) => out.persists(work.app_id, snap, ours, false, e == SteamError::RateLimited),
        },
        (AppAt::Recenting { snap, ours, overall }, AppReply::Recent(r)) => match r {
            Ok(recent) => out.persists(
                work.app_id,
                snap,
                FetchedHalves { reviews: Some((overall, recent)), ..ours },
                false,
                false,
            ),
            Err(e) => out.persists(work.app_id, snap, ours, false, e == SteamError::RateLimited),
        },
        (AppAt::Putting { cache, ours, after_race, abort }, AppReply::Put(p)) => put_done(
            out,
            cache,
            ours,
            after_race,
            abort,
            p,
        ),
        (AppAt::Rereading { ours, abort }, AppReply::Snapshot(r)) => match r {
            Err(_) => out.ends_with(PersistResult::Failed { after_race: true }, ours, abort),
            Ok(snap) => out.persists(work.app_id, snap, ours, true, abort),
        },
        _ => false,
    }
}

fn snapshot_parts(app_id: u32, snap: Option<SteamAppCache>) -> (r: (SteamAppCache, SteamAppPutGuard))
    ensures
        r.0@ == snapshot_view(app_id, snap),
        r.1 == guard_of(snap),
{
    match snap {
        Some(c) => (c, SteamAppPutGuard::Unchanged),
        None => (SteamAppCache::empty(app_id), SteamAppPutGuard::Absent),
    }
}

fn end(result: PersistResult, abort: bool) -> (out: AppStep)
    ensures
        out.ends(result, abort),
{
    AppStep {
        at: AppAt::Over,
        request: AppRequest::Done(AppOutcome { result, live: false, delisted: false, abort }),
    }
}

fn end_with(result: PersistResult, ours: &FetchedHalves, abort: bool) -> (out: AppStep)
    ensures
        out.ends_with(result, *ours, abort),
{
    AppStep {
        at: AppAt::Over,
        request: AppRequest::Done(
            AppOutcome {
                result,
                live: matches!(ours.detail, Some(DetailFetch::Live(_))),
                delisted: matches!(ours.detail, Some(DetailFetch::Delisted)),
                abort,
            },
        ),
    }
}

/// Writes what was fetched on top of what was read.
fn persist_fetched_halves(
    app_id: u32,
    snap: Option<SteamAppCache>,
    ours: FetchedHalves,
    after_race: bool,
    abort: bool,
) -> (out: AppStep)
    ensures
        out.persists(app_id, snap, ours, after_race, abort),
{
    if ours.detail.is_none() && ours.reviews.is_none() {
        return end_with(PersistResult::Nothing, &ours, abort);
    }
    let (cache, guard) = snapshot_parts(app_id, snap);
    let mut cache = cache;
    merge_fetched_halves(&mut cache, &ours);
    AppStep {
        at: AppAt::Putting { cache, ours, after_race, abort },
        request: AppRequest::Put { guard },
    }
}

fn go_on_to_reviews(work: &Work, snap: Option<SteamAppCache>, ours: FetchedHalves) -> (out: AppStep)
    ensures
        out.reviews(*work, snap, ours),
{
    let delisted: bool = matches!(ours.detail, Some(DetailFetch::Delisted));
    let frozen: bool = match &snap {
        Some(c) => stub_freezes_reviews(Some(c), &ours.detail),
        None => false,
    };
    if work.need_reviews && !delisted && !frozen {
        AppStep { at: AppAt::Summing { snap, ours }, request: AppRequest::FetchSummary }
    } else {
        persist_fetched_halves(work.app_id, snap, ours, false, false)
    }
}

/// The first turn of the work on an app.
pub fn start_app() -> (out: AppStep)
    ensures
        out.at is Reading,
        out.request is ReadSnapshot,
{
    AppStep { at: AppAt::Reading, request: AppRequest::ReadSnapshot }
}

/// The turn of the work on an app that follows a reply.
pub fn enrich_app(work: &Work, batch: &Option<TagBatch>, now: i64, at: AppAt, reply: AppReply) -> (out:
    AppStep)
    requires
        at.expects(reply),
    ensures
        app_follows(out, *work, *batch, now, at, reply),
{
    match (at, reply) {
        (AppAt::Reading, AppReply::Snapshot(r)) => match r {
            Err(_) => end(PersistResult::SnapshotFailed, false),
            Ok(snap) => if work.need_detail {
                AppStep { at: AppAt::Detailing { snap }, request: AppRequest::FetchDetail }
            } else {
                go_on_to_reviews(work, snap, FetchedHalves { now, detail: None, reviews: None })
            },
        },
        (AppAt::Detailing { snap }, AppReply::Detail(r)) => match r {
            Ok(AppDetails::Found(d)) => {
                let tags = match &snap {
                    Some(c) => match &c.detail {
                        Some(before) => tags_for_app(work.app_id, batch, Some(before)),
                        None => tags_for_app(work.app_id, batch, None),
                    },
                    None => tags_for_app(work.app_id, batch, None),
                };
                let mut detail = *d;
                detail.tags = tags;
                let ours = FetchedHalves {
                    now,
                    detail: Some(DetailFetch::Live(Box::new(detail))),
                    reviews: None,
                };
                assert(holds_detail(
                    ours,
                    now,
                    *d,
                    app_tags(work.app_id, *batch, detail_of(snap)),
                ));
                go_on_to_reviews(work, snap, ours)
            },
            Ok(AppDetails::Delisted) => go_on_to_reviews(
                work,
                snap,
                FetchedHalves { now, detail: Some(DetailFetch::Delisted), reviews: None },
            ),
            Err(e) => end(PersistResult::DetailFailed, matches!(e, SteamError::RateLimited)),
        },
        (AppAt::Summing { snap, ours }, AppReply::Summary(r)) => match r {
            Ok(overall) => AppStep {
                at: AppAt::Recenting { snap, ours, overall },
                request: AppRequest::FetchRecent,
            },
            Err(e) => persist_fetched_halves(
                work.app_id,
                snap,
                ours,
                false,
                matches!(e, SteamError::RateLimited),
            ),
        },
        (AppAt::Recenting { snap, ours, overall }, AppReply::Recent(r)) => match r {
            Ok(recent) => persist_fetched_halves(
                work.app_id,
                snap,
                FetchedHalves {
                    now: ours.now,
                    detail: ours.detail,
                    reviews: Some((overall, recent)),
                },
                false,
                false,
            ),
            Err(e) => persist_fetched_halves(
                work.app_id,
                snap,
                ours,
                false,
                matches!(e, SteamError::RateLimited),
            ),
        },
        (AppAt::Putting { cache, ours, after_race, abort }, AppReply::Put(p)) => match p {
            Put::Done => end_with(
                PersistResult::Written { cache: Box::new(cache), after_race },
                &ours,
                abort,
            ),
            Put::Failed => end_with(PersistResult::Failed { after_race }, &ours, abort),
            Put::LostRace => if after_race {
                end_with(PersistResult::LostTwice, &ours, abort)
            } else {
                AppStep {
                    at: AppAt::Rereading { ours, abort },
                    request: AppRequest::ReadSnapshot,
                }
            },
        },
        (AppAt::Rereading { ours, abort }, AppReply::Snapshot(r)) => match r {
            Err(_) => end_with(PersistResult::Failed { after_race: true }, &ours, abort),
            Ok(snap) => persist_fetched_halves(work.app_id, snap, ours, true, abort),
        },
        _ => {
            assert(false);
            end(PersistResult::Nothing, false)
        },
    }
}

/// Where Steam asks to slow down the pass ends with this app, and a page that was already fetched is
/// written first. A page that Steam would not give is the end of it at once.
pub proof fn a_rate_limit_ends_the_pass(
    out: AppStep,
    work: Work,
    batch: Option<TagBatch>,
    now: i64,
    at: AppAt,
    reply: AppReply,
)
    requires
        app_follows(out, work, batch, now, at, reply),
        reply matches AppReply::Detail(Err(SteamError::RateLimited)) || reply matches AppReply::Summary(
            Err(SteamError::RateLimited),
        ) || reply matches AppReply::Recent(Err(SteamError::RateLimited)),
    ensures
        out.at matches AppAt::Putting { abort, .. } ==> abort,
        out.request matches AppRequest::Done(o) ==> o.abort,
        out.at is Putting || out.at is Over,
        (at matches AppAt::Summing { ours, .. } && ours.detail is Some) ==> out.at is Putting,
{
}

/// What is written is always a merge of what was fetched with what was last read, and is written a
/// second time at most.
pub proof fn a_write_is_a_merge(
    out: AppStep,
    work: Work,
    batch: Option<TagBatch>,
    now: i64,
    at: AppAt,
    reply: AppReply,
)
    requires
        app_follows(out, work, batch, now, at, reply),
    ensures
        out.at matches AppAt::Putting { cache, ours, after_race, .. } ==> (exists|
            snap: Option<SteamAppCache>,
        |
            cache@ == #[trigger] merged(snapshot_view(work.app_id, snap), ours)) && (after_race <==> at
            is Rereading),
        out.at is Rereading ==> (at matches AppAt::Putting { after_race, .. } && !after_race),
{
}

/// How far the work on an app has to go at most.
pub open spec fn app_rank(at: AppAt) -> nat {
    match at {
        AppAt::Reading => 7,
        AppAt::Detailing { .. } => 6,
        AppAt::Summing { .. } => 5,
        AppAt::Recenting { .. } => 4,
        AppAt::Putting { after_race: false, .. } => 3,
        AppAt::Rereading { .. } => 2,
        AppAt::Putting { after_race: true, .. } => 1,
        AppAt::Over => 0,
    }
}

/// The work on every app ends.
pub proof fn the_work_on_an_app_ends(
    out: AppStep,
    work: Work,
    batch: Option<TagBatch>,
    now: i64,
    at: AppAt,
    reply: AppReply,
)
    requires
        app_follows(out, work, batch, now, at, reply),
    ensures
        app_rank(out.at) < app_rank(at),
        out.at is Over <==> out.request is Done,
{
}

// ---- A pass over the work ---------------------------------------------------------------------

/// What a pass has done so far.
pub struct EnrichTally {
    /// Apps that were written.
    pub fetched: u32,
    /// Of those, the ones whose page was found.
    pub fresh: u32,
    /// Of those, the ones that Steam no longer has.
    pub negative: u32,
    /// Apps whose first write came too late.
    pub lost_race: u32,
    pub aborted_429: bool,
    /// Apps that were not started.
    pub deferred: usize,
    /// Apps that are known to be adult.
    pub adult: AppSet,
}

/// Takes up the next app, if there is one and there is time: its position. Whatever is not taken up
/// is put off.
pub fn next_app(tally: &mut EnrichTally, count: usize, k: usize, late: bool) -> (r: Option<usize>)
    requires
        k <= count,
        old(tally).deferred + (count - k) <= usize::MAX,
    ensures
        r == if k < count && !late {
            Some(k)
        } else {
            None::<usize>
        },
        final(tally).deferred == old(tally).deferred + if k < count && late {
            count - k
        } else {
            0
        },
        final(tally).fetched == old(tally).fetched,
        final(tally).fresh == old(tally).fresh,
        final(tally).negative == old(tally).negative,
        final(tally).lost_race == old(tally).lost_race,
        final(tally).aborted_429 == old(tally).aborted_429,
        final(tally).adult == old(tally).adult,
{
    if k < count && !late {
        Some(k)
    } else {
        if k < count {
            tally.deferred = tally.deferred + (count - k);
        }
        None
    }
}

/// What a page that was found and written says of its app takes the place of what was known before.
/// `before` and `after` are the apps known to be adult.
pub open spec fn superseded(before: Set<u32>, after: Set<u32>, app_id: u32, outcome: AppOutcome) -> bool {
    match outcome.result {
        PersistResult::Written { cache, .. } if outcome.live => if is_adult(cache@.detail) {
            after == before.insert(app_id)
        } else {
            after == before.remove(app_id)
        },
        _ => after == before,
    }
}

/// An app is no longer taken to be adult only because its page was found, says so, and was written;
/// one that Steam no longer has is not cleared by that. No other app is touched.
pub proof fn only_a_written_page_clears_an_app(
    before: Set<u32>,
    after: Set<u32>,
    app_id: u32,
    outcome: AppOutcome,
    a: u32,
)
    requires
        superseded(before, after, app_id, outcome),
        before.contains(a) != after.contains(a),
    ensures
        a == app_id,
        outcome.live,
        outcome.result matches PersistResult::Written { cache, .. } && (after.contains(a)
            <==> is_adult(cache@.detail)),
{
}

/// Takes what was just written of an app over what was known of it before.
fn supersede_adult(set: &mut AppSet, app_id: u32, outcome: &AppOutcome)
    ensures
        superseded(old(set)@, final(set)@, app_id, *outcome),
{
    if let PersistResult::Written { cache, .. } = &outcome.result {
        if outcome.live {
            if has_adult_descriptors(&cache.detail) {
                set.insert(app_id);
            } else {
                set.remove(app_id);
            }
        }
    }
}

/// Notes that an app is adult if what is kept of it says so.
pub fn collect_adult(set: &mut AppSet, app_id: u32, cache: &Option<SteamAppCache>)
    ensures
        final(set)@ == if *cache matches Some(c) && is_adult(c@.detail) {
            old(set)@.insert(app_id)
        } else {
            old(set)@
        },
{
    if let Some(c) = cache {
        if has_adult_descriptors(&c.detail) {
            set.insert(app_id);
        }
    }
}

/// How much one outcome adds to a count.
pub open spec fn one_if(b: bool) -> int {
    if b {
        1
    } else {
        0
    }
}

/// Whether a first write came too late.
pub open spec fn raced(outcome: AppOutcome) -> bool {
    match outcome.result {
        PersistResult::Written { after_race, .. } => after_race,
        PersistResult::LostTwice => true,
        PersistResult::Failed { after_race } => after_race,
        _ => false,
    }
}

fn has_raced(outcome: &AppOutcome) -> (r: bool)
    ensures
        r == raced(*outcome),
{
    match &outcome.result {
        PersistResult::Written { after_race, .. } => *after_race,
        PersistResult::LostTwice => true,
        PersistResult::Failed { after_race } => *after_race,
        _ => false,
    }
}

/// Whether `t` is `was` with the outcome of the work on app `k` of `count` counted in.
pub open spec fn noted(
    was: EnrichTally,
    t: EnrichTally,
    app_id: u32,
    outcome: AppOutcome,
    count: usize,
    k: usize,
) -> bool {
    &&& t.fetched == was.fetched + one_if(outcome.result is Written)
    &&& t.fresh == was.fresh + one_if(outcome.result is Written && outcome.live)
    &&& t.negative == was.negative + one_if(outcome.result is Written && outcome.delisted)
    &&& t.lost_race == was.lost_race + one_if(raced(outcome))
    &&& t.aborted_429 == (was.aborted_429 || outcome.abort)
    &&& t.deferred == was.deferred + if outcome.abort {
        count - k - 1
    } else {
        0
    }
    &&& superseded(was.adult@, t.adult@, app_id, outcome)
}

/// Notes how the work on app `k` of `count` has ended, and says whether the pass goes on. Where it
/// does not, the rest is put off.
pub fn note_enriched(
    tally: &mut EnrichTally,
    app_id: u32,
    outcome: &AppOutcome,
    count: usize,
    k: usize,
) -> (go_on: bool)
    requires
        k < count,
        old(tally).deferred + (count - k) <= usize::MAX,
        old(tally).fetched < u32::MAX,
        old(tally).fresh < u32::MAX,
        old(tally).negative < u32::MAX,
        old(tally).lost_race < u32::MAX,
    ensures
        go_on == !outcome.abort,
        noted(*old(tally), *final(tally), app_id, *outcome, count, k),
{
    if matches!(outcome.result, PersistResult::Written { .. }) {
        tally.fetched = tally.fetched + 1;
        if outcome.live {
            tally.fresh = tally.fresh + 1;
        }
        if outcome.delisted {
            tally.negative = tally.negative + 1;
        }
    }
    if has_raced(outcome) {
        tally.lost_race = tally.lost_race + 1;
    }
    supersede_adult(&mut tally.adult, app_id, outcome);
    if outcome.abort {
        tally.aborted_429 = true;
        tally.deferred = tally.deferred + (count - k - 1);
    }
    !outcome.abort
}

// ---- Which games are hidden -------------------------------------------------------------------

/// The ids of the games of an app, among the first `n`.
pub open spec fn ids_with_app(games: Seq<Game>, app: u32, n: nat) -> Seq<Seq<char>>
    decreases n,
{
    if n == 0 {
        Seq::empty()
    } else {
        let head = ids_with_app(games, app, (n - 1) as nat);
        if games[n - 1].steam_app_id == Some(app) {
            head.push(games[n - 1].id@)
        } else {
            head
        }
    }
}

/// The ids of the games of the first `n` apps, app by app.
pub open spec fn ids_with_apps(games: Seq<Game>, apps: Seq<u32>, n: nat) -> Seq<Seq<char>>
    decreases n,
{
    if n == 0 {
        Seq::empty()
    } else {
        ids_with_apps(games, apps, (n - 1) as nat) + ids_with_app(
            games,
            apps[n - 1],
            games.len(),
        )
    }
}

/// The ids of the games of the apps that are known to be adult, app by app in ascending order.
pub open spec fn ids_to_hide(games: Seq<Game>, adult: Set<u32>) -> Seq<Seq<char>> {
    ids_with_apps(games, in_order(adult), in_order(adult).len())
}

/// The ids of the games of an app.
pub fn games_by_appid(games: &Vec<Game>, app: u32) -> (r: Vec<String>)
    ensures
        views(r@) == ids_with_app(games@, app, games@.len()),
{
    let mut out: Vec<String> = Vec::new();
    assert(views(out@) =~= Seq::empty());
    for i in 0..games.len()
        invariant
            views(out@) == ids_with_app(games@, app, i as nat),
    {
        let is_it: bool = match games[i].steam_app_id {
            Some(a) => a == app,
            None => false,
        };
        if is_it {
            let id = games[i].id.clone();
            assert(views(out@.push(id)) =~= views(out@).push(id@));
            out.push(id);
        }
    }
    out
}

/// The games to hide: all of every app that is known to be adult, app by app in ascending order.
pub fn auto_hide_adult_games(adult: &AppSet, games: &Vec<Game>) -> (r: Vec<String>)
    ensures
        views(r@) == ids_to_hide(games@, adult@),
{
    let apps = adult.ids();
    let mut out: Vec<String> = Vec::new();
    assert(views(out@) =~= Seq::empty());
    for i in 0..apps.len()
        invariant
            views(out@) == ids_with_apps(games@, apps@, i as nat),
    {
        let mut ids = games_by_appid(games, apps[i]);
        let ghost more = ids@;
        assert(views(out@ + more) =~= views(out@) + views(more));
        out.append(&mut ids);
    }
    out
}

// ---- A rebuild of everything ------------------------------------------------------------------

/// What a rebuild has done.
#[derive(Debug, Default)]
pub struct BackfillSummary {
    /// Apps whose page was fetched and written.
    pub fetched: u32,
    /// Apps that Steam no longer has.
    pub negative: u32,
    /// Apps that were fetched a short while ago.
    pub skipped: u32,
    /// Apps that something went wrong for.
    pub failed: u32,
    /// Steam asked to slow down: the rest is left to another rebuild.
    pub aborted_429: bool,
    /// Games that were hidden.
    pub auto_hidden: u32,
    /// The tags could not be fetched: the apps have kept their old ones.
    pub tag_batch_failed: bool,
    /// Apps whose first write came too late.
    pub lost_race: u32,
}

/// Whether a rebuild takes up an app: not if it cannot be read, and not if it was fetched less than
/// `skip_fresh_secs` ago.
pub open spec fn is_taken_up(
    read: Result<Option<SteamAppCache>, ()>,
    now: i64,
    skip_fresh_secs: i64,
) -> bool {
    match read {
        Err(_) => false,
        Ok(None) => true,
        Ok(Some(c)) => now - c.fetched_at >= skip_fresh_secs,
    }
}

/// Decides whether a rebuild takes up an app. Its page may already mark it as adult.
pub fn backfill_takes_up(
    summary: &mut BackfillSummary,
    adult: &mut AppSet,
    app_id: u32,
    read: &Result<Option<SteamAppCache>, ()>,
    now: i64,
    skip_fresh_secs: i64,
) -> (r: bool)
    requires
        old(summary).failed < u32::MAX,
        old(summary).skipped < u32::MAX,
    ensures
        r == is_taken_up(*read, now, skip_fresh_secs),
        final(adult)@ == if *read matches Ok(Some(c)) && is_adult(c@.detail) {
            old(adult)@.insert(app_id)
        } else {
            old(adult)@
        },
        *final(summary) == (BackfillSummary {
            failed: (old(summary).failed + one_if(read is Err)) as u32,
            skipped: (old(summary).skipped + one_if(!r && read is Ok)) as u32,
            ..*old(summary)
        }),
{
    match read {
        Err(_) => {
            summary.failed = summary.failed + 1;
            false
        },
        Ok(cache) => {
            collect_adult(adult, app_id, cache);
            match cache {
                Some(c) => if (now as i128 - c.fetched_at as i128) < skip_fresh_secs as i128 {
                    summary.skipped = summary.skipped + 1;
                    false
                } else {
                    true
                },
                None => true,
            }
        },
    }
}

/// Whether the tags of a rebuild have failed: there was work, and no batch came.
pub fn note_backfill_tags(summary: &mut BackfillSummary, work: usize, batch: &Option<TagBatch>)
    ensures
        *final(summary) == (BackfillSummary {
            tag_batch_failed: work > 0 && *batch is None,
            ..*old(summary)
        }),
{
    summary.tag_batch_failed = work > 0 && batch.is_none();
}

/// What a rebuild asks of an app: its page, whatever its age, and not its reviews.
pub fn backfill_work(app_id: u32) -> (r: Work)
    ensures
        r == (Work { app_id, need_detail: true, need_reviews: false }),
{
    Work { app_id, need_detail: true, need_reviews: false }
}

/// How an outcome counts in a rebuild.
pub open spec fn backfill_counted(s: BackfillSummary, outcome: AppOutcome) -> BackfillSummary {
    match outcome.result {
        PersistResult::DetailFailed if outcome.abort => BackfillSummary {
            aborted_429: true,
            ..s
        },
        PersistResult::Written { cache, .. } => BackfillSummary {
            fetched: (s.fetched + one_if(cache.detail is Some)) as u32,
            negative: (s.negative + one_if(cache.detail is None)) as u32,
            lost_race: (s.lost_race + one_if(raced(outcome))) as u32,
            ..s
        },
        PersistResult::LostTwice => BackfillSummary {
            failed: (s.failed + 1) as u32,
            lost_race: (s.lost_race + 1) as u32,
            ..s
        },
        PersistResult::Nothing => s,
        _ => BackfillSummary {
            failed: (s.failed + 1) as u32,
            lost_race: (s.lost_race + one_if(raced(outcome))) as u32,
            ..s
        },
    }
}

/// Notes how the work on an app has ended, and says whether the rebuild goes on.
pub fn note_backfilled(
    summary: &mut BackfillSummary,
    adult: &mut AppSet,
    app_id: u32,
    outcome: &AppOutcome,
) -> (go_on: bool)
    requires
        old(summary).fetched < u32::MAX,
        old(summary).negative < u32::MAX,
        old(summary).failed < u32::MAX,
        old(summary).lost_race < u32::MAX,
    ensures
        go_on == !outcome.abort,
        *final(summary) == backfill_counted(*old(summary), *outcome),
        superseded(old(adult)@, final(adult)@, app_id, *outcome),
{
    supersede_adult(adult, app_id, outcome);
    match &outcome.result {
        PersistResult::DetailFailed => {
            if outcome.abort {
                summary.aborted_429 = true;
            } else {
                summary.failed = summary.failed + 1;
            }
        },
        PersistResult::Written { cache, after_race } => {
            if cache.detail.is_some() {
                summary.fetched = summary.fetched + 1;
            } else {
                summary.negative = summary.negative + 1;
            }
            if *after_race {
                summary.lost_race = summary.lost_race + 1;
            }
        },
        PersistResult::LostTwice => {
            summary.failed = summary.failed + 1;
            summary.lost_race = summary.lost_race + 1;
        },
        PersistResult::Nothing => {},
        PersistResult::SnapshotFailed => {
            summary.failed = summary.failed + 1;
        },
        PersistResult::Failed { after_race } => {
            summary.failed = summary.failed + 1;
            if *after_race {
                summary.lost_race = summary.lost_race + 1;
            }
        },
    }
    !outcome.abort
}

} // verus!
