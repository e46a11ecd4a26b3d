//! A whole pass over the Steam apps of the shelf, from the list of games to the games that are
//! hidden at the end.
use vstd::prelude::*;
use std::collections::HashMap;
use crate::app_set::{ascends, AppSet};
use crate::enrich::{
    all_due, app_follows, appids_of, apps_of, auto_hide_adult_games, cache_views, collect_adult,
    detail_ids, enrich_app, enrich_worklist, ids_to_hide, next_app, note_enriched, noted,
    start_app, AppAt, AppOutcome, AppReply, AppRequest, AppStep, EnrichTally, SteamError,
    Work, STEAM_ENRICH_MAX_APPS,
};
use crate::model::Game;
use crate::select::selected;
use crate::steam::{at_most, copy_ids, fetch_tag_batch, is_adult, CacheView, SteamAppCache, TagBatch};
use crate::text::views;

verus! {

/// What a pass works from once it knows what is due.
pub struct Prepared {
    pub games: Vec<Game>,
    pub work: Vec<Work>,
    pub batch: Option<TagBatch>,
    pub tag_batch_failed: bool,
    pub tally: EnrichTally,
    /// Games that were hidden.
    pub hidden: u32,
}

/// Where a pass stands: what it waits for.
pub enum EnrichAt {
    Listing,
    Caching { games: Vec<Game>, apps: Vec<u32> },
    /// The clock, before the tags are fetched.
    TagTiming { p: Prepared },
    Tagging { p: Prepared },
    /// The clock, before app `k` is taken up.
    Timing { p: Prepared, k: usize },
    Working { p: Prepared, k: usize, app: AppAt },
    Hiding { p: Prepared, ids: Vec<String>, i: usize },
    Over,
}

/// What a pass has done.
#[derive(Debug, Clone, Copy, PartialEq, Eq, Structural)]
pub struct EnrichSummary {
    pub fetched: u32,
    pub fresh: u32,
    pub negative: u32,
    pub lost_race: u32,
    pub aborted_429: bool,
    pub auto_hidden: u32,
    pub tag_batch_failed: bool,
    pub deferred: usize,
}

/// What a pass requests next.
pub enum EnrichRequest {
    ListGames,
    /// What is kept of each of these apps.
    ReadCaches { apps: Vec<u32> },
    /// Is there no time left to take anything up?
    CheckClock,
    FetchTags { ids: Vec<u32> },
    App { app_id: u32, request: AppRequest },
    Hide { id: String },
    /// The pass is over; there is a summary unless it never got to its work.
    Done(Option<EnrichSummary>),
}

/// The reply to a request.
pub enum EnrichReply {
    Games(Result<Vec<Game>, ()>),
    /// In the order of the apps that were asked for.
    Caches(Result<Vec<Option<SteamAppCache>>, ()>),
    Late(bool),
    Tags { items: Result<HashMap<u32, Vec<u32>>, ()>, names: Result<HashMap<u32, String>, ()> },
    App(AppReply),
    /// Whether the game was hidden by this.
    Hidden(bool),
}

/// One turn of a pass.
pub struct EnrichStep {
    pub at: EnrichAt,
    pub request: EnrichRequest,
}

/// Whether `apps` lists the apps of some games, in ascending order.
pub open spec fn is_list_of(apps: Seq<u32>, games: Seq<Game>) -> bool {
    ascends(apps) && apps.to_set() == apps_of(games)
}

impl Prepared {
    /// The counts are those of at most `k` apps, and everything can be counted.
    pub open spec fn wf(self, k: int) -> bool {
        &&& self.work@.len() <= STEAM_ENRICH_MAX_APPS
        &&& self.tally.fetched <= k
        &&& self.tally.fresh <= k
        &&& self.tally.negative <= k
        &&& self.tally.lost_race <= k
        &&& self.tally.deferred + (self.work@.len() - k) <= usize::MAX
    }
}

impl EnrichAt {
    /// Whether `reply` is a reply to what the pass waits for.
    pub open spec fn expects(self, reply: EnrichReply) -> bool {
        match self {
            EnrichAt::Listing => reply is Games,
            EnrichAt::Caching { apps, .. } => reply matches EnrichReply::Caches(r) && (r matches Ok(
                caches,
            ) ==> caches@.len() == apps@.len()),
            EnrichAt::TagTiming { .. } => reply is Late,
            EnrichAt::Tagging { .. } => reply is Tags,
            EnrichAt::Timing { .. } => reply is Late,
            EnrichAt::Working { app, .. } => reply matches EnrichReply::App(r) && app.expects(r),
            EnrichAt::Hiding { .. } => reply is Hidden,
            EnrichAt::Over => false,
        }
    }

    /// What the pass is at exists, and can be counted.
    pub open spec fn wf(self) -> bool {
        match self {
            EnrichAt::Caching { games, apps } => is_list_of(apps@, games@),
            EnrichAt::TagTiming { p } => p.wf(0),
            EnrichAt::Tagging { p } => p.wf(0),
            EnrichAt::Timing { p, k } => p.wf(k as int) && k < p.work@.len(),
            EnrichAt::Working { p, k, .. } => p.wf(k as int) && k < p.work@.len(),
            EnrichAt::Hiding { p, ids, i } => i < ids@.len(),
            _ => true,
        }
    }
}

/// What a pass has done, all told.
pub open spec fn summary_of(p: Prepared) -> EnrichSummary {
    EnrichSummary {
        fetched: p.tally.fetched,
        fresh: p.tally.fresh,
        negative: p.tally.negative,
        lost_race: p.tally.lost_race,
        aborted_429: p.tally.aborted_429,
        auto_hidden: p.hidden,
        tag_batch_failed: p.tag_batch_failed,
        deferred: p.tally.deferred,
    }
}

impl EnrichStep {
    /// The pass ends before it got to its work.
    pub open spec fn gives_up(self) -> bool {
        self.at is Over && self.request == EnrichRequest::Done(None)
    }

    /// The pass hides game `i` of those to hide, or is over.
    pub open spec fn hides(self, p: Prepared, ids: Seq<Seq<char>>, i: int) -> bool {
        if i < ids.len() {
            &&& self.at matches EnrichAt::Hiding { p: p2, ids: v, i: i2 } && p2 == p && views(v@)
                == ids && i2 == i
            &&& self.request matches EnrichRequest::Hide { id } && id@ == ids[i]
        } else {
            self.at is Over && self.request == EnrichRequest::Done(Some(summary_of(p)))
        }
    }

    /// The pass hides the games of every app that is known to be adult.
    pub open spec fn sweeps(self, p: Prepared) -> bool {
        self.hides(p, ids_to_hide(p.games@, p.tally.adult@), 0)
    }

    /// The pass goes on with app `k`, or with the games to hide.
    pub open spec fn goes_on(self, p: Prepared, k: int) -> bool {
        if k < p.work@.len() {
            self.at == (EnrichAt::Timing { p, k: k as usize }) && self.request is CheckClock
        } else {
            self.sweeps(p)
        }
    }

    /// The work on app `k` goes on.
    pub open spec fn works(self, p: Prepared, k: int, app: AppAt, request: AppRequest) -> bool {
        &&& self.at == (EnrichAt::Working { p, k: k as usize, app })
        &&& self.request == (EnrichRequest::App { app_id: p.work@[k].app_id, request })
    }
}

/// The apps of `apps`, among the first `n`, that what is kept of them marks as adult.
pub open spec fn adult_among(apps: Seq<u32>, caches: Seq<Option<CacheView>>, n: nat) -> Set<u32>
    decreases n,
{
    if n == 0 {
        Set::empty()
    } else {
        let head = adult_among(apps, caches, (n - 1) as nat);
        if caches[n - 1] matches Some(c) && is_adult(c.detail) {
            head.insert(apps[n - 1])
        } else {
            head
        }
    }
}

/// Whether `p` is prepared from what is kept of the apps: what is due is cut to what one pass does,
/// the rest is put off, and every app that is known to be adult is noted, due or not.
pub open spec fn is_prepared(
    p: Prepared,
    games: Vec<Game>,
    apps: Seq<u32>,
    caches: Seq<Option<CacheView>>,
    now: i64,
) -> bool {
    let all = all_due(apps, caches, now, apps.len());
    &&& p.games == games
    &&& p.work@ == at_most(all, STEAM_ENRICH_MAX_APPS as nat)
    &&& p.batch is None
    &&& !p.tag_batch_failed
    &&& p.hidden == 0
    &&& p.tally.fetched == 0
    &&& p.tally.fresh == 0
    &&& p.tally.negative == 0
    &&& p.tally.lost_race == 0
    &&& !p.tally.aborted_429
    &&& p.tally.deferred + p.work@.len() == all.len()
    &&& p.tally.adult@ == adult_among(apps, caches, apps.len())
}

/// Whether any page is due.
pub open spec fn any_detail(work: Seq<Work>) -> bool {
    exists|i: int| 0 <= i < work.len() && (#[trigger] work[i]).need_detail
}

/// The ids of the apps whose pages are due.
pub open spec fn are_detail_ids(ids: Seq<u32>, work: Seq<Work>) -> bool {
    let at = selected(work.len(), |i: int| work[i].need_detail);
    ids.len() == at.len() && forall|k: int| 0 <= k < ids.len() ==> #[trigger] ids[k] == work[at[k]].app_id
}

/// What is kept of the apps has been read. Tags are fetched only if a page is due.
pub open spec fn caches_read(
    out: EnrichStep,
    games: Vec<Game>,
    apps: Vec<u32>,
    now: i64,
    r: Result<Vec<Option<SteamAppCache>>, ()>,
) -> bool {
    match r {
        Err(_) => out.gives_up(),
        Ok(caches) => exists|p: Prepared| #[trigger]
            is_prepared(p, games, apps@, cache_views(caches@), now) && if any_detail(p.work@) {
                out.at == (EnrichAt::TagTiming { p }) && out.request is CheckClock
            } else {
                out.goes_on(p, 0)
            },
    }
}

/// The work on an app has ended. An app that Steam asks to slow down for is the last one.
pub open spec fn app_ended(out: EnrichStep, p: Prepared, k: usize, outcome: AppOutcome) -> bool {
    exists|t: EnrichTally| #[trigger]
        noted(p.tally, t, p.work@[k as int].app_id, outcome, p.work@.len() as usize, k)
            && if outcome.abort {
            out.sweeps(Prepared { tally: t, ..p })
        } else {
            out.goes_on(Prepared { tally: t, ..p }, k + 1)
        }
}

/// The work on an app has gone on.
pub open spec fn app_done(out: EnrichStep, p: Prepared, k: usize, now: i64, app: AppAt, r: AppReply) -> bool {
    exists|step: AppStep| #[trigger]
        app_follows(step, p.work@[k as int], p.batch, now, app, r) && match step.request {
            AppRequest::Done(outcome) => app_ended(out, p, k, outcome),
            _ => out.works(p, k as int, step.at, step.request),
        }
}

/// Whether `out` is the turn that follows a reply.
pub open spec fn enrich_follows(out: EnrichStep, now: i64, at: EnrichAt, reply: EnrichReply) -> bool {
    match (at, reply) {
        (EnrichAt::Listing, EnrichReply::Games(r)) => match r {
            Err(_) => out.gives_up(),
            Ok(games) => {
                &&& out.at matches EnrichAt::Caching { games: g2, apps } && g2 == games
                    && is_list_of(apps@, games@) && (out.request matches EnrichRequest::ReadCaches {
                    apps: ids,
                } && ids@ == apps@)
            },
        },
        (EnrichAt::Caching { games, apps }, EnrichReply::Caches(r)) => caches_read(
            out,
            games,
            apps,
            now,
            r,
        ),
        (EnrichAt::TagTiming { p }, EnrichReply::Late(late)) => if late {
            out.goes_on(p, 0)
        } else {
            out.at == (EnrichAt::Tagging { p }) && (out.request matches EnrichRequest::FetchTags {
                ids,
            } && are_detail_ids(ids@, p.work@))
        },
        (EnrichAt::Tagging { p }, EnrichReply::Tags { items, names }) => {
            let batch = match (items, names) {
                (Ok(i), Ok(n)) => if i@.len() == 0 {
                    None
                } else {
                    Some(TagBatch { items: i, names: n })
                },
                _ => None,
            };
            out.goes_on(Prepared { batch, tag_batch_failed: batch is None, ..p }, 0)
        },
        (EnrichAt::Timing { p, k }, EnrichReply::Late(late)) => if late {
            out.sweeps(
                Prepared {
                    tally: EnrichTally {
                        deferred: (p.tally.deferred + (p.work@.len() - k)) as usize,
                        ..p.tally
                    },
                    ..p
                },
            )
        } else {
            out.works(p, k as int, AppAt::Reading, AppRequest::ReadSnapshot)
        },
        (EnrichAt::Working { p, k, app }, EnrichReply::App(r)) => app_done(
            out,
            p,
            k,
            now,
            app,
            r,
        ),
        (EnrichAt::Hiding { p, ids, i }, EnrichReply::Hidden(done)) => out.hides(
            Prepared {
                hidden: if done {
                    (p.hidden + 1) as u32
                } else {
                    p.hidden
                },
                ..p
            },
            views(ids@),
            i + 1,
        ),
        _ => false,
    }
}

// ---- The machine ------------------------------------------------------------------------------

fn give_up() -> (out: EnrichStep)
    ensures
        out.gives_up(),
{
    EnrichStep { at: EnrichAt::Over, request: EnrichRequest::Done(None) }
}

fn hide_from(p: Prepared, ids: Vec<String>, i: usize) -> (out: EnrichStep)
    requires
        i <= ids@.len(),
    ensures
        out.hides(p, views(ids@), i as int),
        out.at.wf(),
{
    if i < ids.len() {
        let id = ids[i].clone();
        EnrichStep { at: EnrichAt::Hiding { p, ids, i }, request: EnrichRequest::Hide { id } }
    } else {
        let summary = EnrichSummary {
            fetched: p.tally.fetched,
            fresh: p.tally.fresh,
            negative: p.tally.negative,
            lost_race: p.tally.lost_race,
            aborted_429: p.tally.aborted_429,
            auto_hidden: p.hidden,
            tag_batch_failed: p.tag_batch_failed,
            deferred: p.tally.deferred,
        };
        EnrichStep { at: EnrichAt::Over, request: EnrichRequest::Done(Some(summary)) }
    }
}

fn sweep(p: Prepared) -> (out: EnrichStep)
    ensures
        out.sweeps(p),
        out.at.wf(),
{
    let ids = auto_hide_adult_games(&p.tally.adult, &p.games);
    hide_from(p, ids, 0)
}

fn go_on(p: Prepared, k: usize) -> (out: EnrichStep)
    requires
        p.wf(k as int),
    ensures
        out.goes_on(p, k as int),
        out.at.wf(),
{
    if k < p.work.len() {
        EnrichStep { at: EnrichAt::Timing { p, k }, request: EnrichRequest::CheckClock }
    } else {
        sweep(p)
    }
}

fn prepare(games: Vec<Game>, apps: &Vec<u32>, caches: &Vec<Option<SteamAppCache>>, now: i64) -> (p:
    Prepared)
    requires
        caches@.len() == apps@.len(),
    ensures
        is_prepared(p, games, apps@, cache_views(caches@), now),
        p.wf(0),
{
    let mut adult = AppSet::new();
    for i in 0..caches.len()
        invariant
            caches@.len() == apps@.len(),
            adult@ == adult_among(apps@, cache_views(caches@), i as nat),
    {
        collect_adult(&mut adult, apps[i], &caches[i]);
    }
    let (work, deferred) = enrich_worklist(apps, caches, now);
    let n: usize = apps.len();
    proof {
        due_is_short(apps@, cache_views(caches@), now, n as nat);
    }
    Prepared {
        games,
        work,
        batch: None,
        tag_batch_failed: false,
        tally: EnrichTally {
            fetched: 0,
            fresh: 0,
            negative: 0,
            lost_race: 0,
            aborted_429: false,
            deferred,
            adult,
        },
        hidden: 0,
    }
}

proof fn due_is_short(apps: Seq<u32>, caches: Seq<Option<CacheView>>, now: i64, n: nat)
    ensures
        all_due(apps, caches, now, n).len() <= n,
    decreases n,
{
    if n > 0 {
        due_is_short(apps, caches, now, (n - 1) as nat);
    }
}

fn has_detail(work: &Vec<Work>) -> (r: bool)
    ensures
        r == any_detail(work@),
{
    for i in 0..work.len()
        invariant
            forall|j: int| 0 <= j < i ==> !(#[trigger] work@[j]).need_detail,
    {
        if work[i].need_detail {
            assert(work@[i as int].need_detail);
            return true;
        }
    }
    false
}

/// Whether `out` is the first turn of a pass; it is the last where the pass is switched off or there
/// is no client.
pub open spec fn starts(out: EnrichStep, disabled: bool, client: bool) -> bool {
    if disabled || !client {
        out.gives_up()
    } else {
        out.at is Listing && out.request is ListGames
    }
}

/// The first turn of a pass.
pub fn start_enrich(disabled: bool, client: bool) -> (out: EnrichStep)
    ensures
        starts(out, disabled, client),
        out.at.wf(),
{
    if disabled || !client {
        give_up()
    } else {
        EnrichStep { at: EnrichAt::Listing, request: EnrichRequest::ListGames }
    }
}

fn after_tags(
    p: Prepared,
    items: Result<HashMap<u32, Vec<u32>>, ()>,
    names: Result<HashMap<u32, String>, ()>,
) -> (out: EnrichStep)
    requires
        p.wf(0),
    ensures
        enrich_follows(out, 0, EnrichAt::Tagging { p }, EnrichReply::Tags { items, names }),
        out.at.wf(),
{
    let batch = fetch_tag_batch(items, names);
    let failed: bool = batch.is_none();
    let ghost q = Prepared { batch, tag_batch_failed: failed, ..p };
    let next = Prepared {
        games: p.games,
        work: p.work,
        batch,
        tag_batch_failed: failed,
        tally: p.tally,
        hidden: p.hidden,
    };
    assert(next == q);
    go_on(next, 0)
}

fn after_clock(p: Prepared, k: usize, late: bool) -> (out: EnrichStep)
    requires
        p.wf(k as int),
        k < p.work@.len(),
    ensures
        enrich_follows(out, 0, EnrichAt::Timing { p, k }, EnrichReply::Late(late)),
        out.at.wf(),
{
    let ghost was = p;
    let mut p = p;
    let n: usize = p.work.len();
    match next_app(&mut p.tally, n, k, late) {
        Some(_) => {
            assert(p.tally == was.tally);
            assert(p == was);
            let step = start_app();
            let app_id: u32 = p.work[k].app_id;
            EnrichStep {
                at: EnrichAt::Working { p, k, app: step.at },
                request: EnrichRequest::App { app_id, request: step.request },
            }
        },
        None => {
            assert(p.tally == EnrichTally {
                deferred: (was.tally.deferred + (was.work@.len() - k)) as usize,
                ..was.tally
            });
            sweep(p)
        },
    }
}

fn end_app(p: Prepared, k: usize, outcome: &AppOutcome) -> (out: EnrichStep)
    requires
        p.wf(k as int),
        k < p.work@.len(),
    ensures
        app_ended(out, p, k, *outcome),
        out.at.wf(),
{
    let ghost p0 = p;
    let mut p = p;
    let n: usize = p.work.len();
    let app_id: u32 = p.work[k].app_id;
    let more: bool = note_enriched(&mut p.tally, app_id, outcome, n, k);
    let ghost t = p.tally;
    assert(noted(p0.tally, t, p0.work@[k as int].app_id, *outcome, p0.work@.len() as usize, k));
    assert(p == Prepared { tally: t, ..p0 });
    if more {
        go_on(p, k + 1)
    } else {
        sweep(p)
    }
}

fn after_app(p: Prepared, k: usize, now: i64, app: AppAt, r: AppReply) -> (out: EnrichStep)
    requires
        p.wf(k as int),
        k < p.work@.len(),
        app.expects(r),
    ensures
        app_done(out, p, k, now, app, r),
        out.at.wf(),
{
    let ghost p0 = p;
    let step = enrich_app(&p.work[k], &p.batch, now, app, r);
    let ghost s0 = step;
    assert(app_follows(s0, p0.work@[k as int], p0.batch, now, app, r));
    let app_id: u32 = p.work[k].app_id;
    match step.request {
        AppRequest::Done(outcome) => end_app(p, k, &outcome),
        request => EnrichStep {
            at: EnrichAt::Working { p, k, app: step.at },
            request: EnrichRequest::App { app_id, request },
        },
    }
}

/// The turn of a pass that follows a reply.
pub fn enrich_steam_apps(now: i64, at: EnrichAt, reply: EnrichReply) -> (out: EnrichStep)
    requires
        at.wf(),
        at.expects(reply),
        at matches EnrichAt::Hiding { p, .. } ==> p.hidden < u32::MAX,
    ensures
        enrich_follows(out, now, at, reply),
        out.at.wf(),
{
    match (at, reply) {
        (EnrichAt::Listing, EnrichReply::Games(r)) => match r {
            Err(_) => give_up(),
            Ok(games) => {
                let apps = appids_of(&games).ids();
                let ids = copy_ids(&apps);
                EnrichStep {
                    at: EnrichAt::Caching { games, apps },
                    request: EnrichRequest::ReadCaches { apps: ids },
                }
            },
        },
        (EnrichAt::Caching { games, apps }, EnrichReply::Caches(r)) => match r {
            Err(_) => give_up(),
            Ok(caches) => {
                let p = prepare(games, &apps, &caches, now);
                let ghost p0 = p;
                assert(is_prepared(p0, games, apps@, cache_views(caches@), now));
                if has_detail(&p.work) {
                    EnrichStep {
                        at: EnrichAt::TagTiming { p },
                        request: EnrichRequest::CheckClock,
                    }
                } else {
                    go_on(p, 0)
                }
            },
        },
        (EnrichAt::TagTiming { p }, EnrichReply::Late(late)) => if late {
            go_on(p, 0)
        } else {
            let ids = detail_ids(&p.work);
            EnrichStep { at: EnrichAt::Tagging { p }, request: EnrichRequest::FetchTags { ids } }
        },
        (EnrichAt::Tagging { p }, EnrichReply::Tags { items, names }) => after_tags(
            p,
            items,
            names,
        ),
        (EnrichAt::Timing { p, k }, EnrichReply::Late(late)) => after_clock(p, k, late),
        (EnrichAt::Working { p, k, app }, EnrichReply::App(r)) => after_app(p, k, now, app, r),
        (EnrichAt::Hiding { p, ids, i }, EnrichReply::Hidden(done)) => {
            let mut p = p;
            if done {
                p.hidden = p.hidden + 1;
            }
            let n: usize = ids.len();
            assert(ids@.len() == n);
            hide_from(p, ids, i + 1)
        },
        _ => {
            assert(false);
            give_up()
        },
    }
}

// ---- What holds of every pass -----------------------------------------------------------------

/// What a pass knows of its work at a place.
pub open spec fn prepared_at(at: EnrichAt) -> Option<Prepared> {
    match at {
        EnrichAt::TagTiming { p } => Some(p),
        EnrichAt::Tagging { p } => Some(p),
        EnrichAt::Timing { p, .. } => Some(p),
        EnrichAt::Working { p, .. } => Some(p),
        EnrichAt::Hiding { p, .. } => Some(p),
        _ => None,
    }
}

/// How many apps a pass has put off at a place, or all told.
pub open spec fn put_off(step: EnrichStep) -> int {
    match step.request {
        EnrichRequest::Done(Some(s)) => s.deferred as int,
        _ => match prepared_at(step.at) {
            Some(p) => p.tally.deferred as int,
            None => 0,
        },
    }
}

/// No app is dropped in silence: while there are apps left nothing is put off beyond what was at the
/// start, and when the pass turns to the games to hide, for want of time or because Steam asks to
/// slow down, exactly the apps that were not taken up are put off.
pub proof fn every_app_is_taken_up_or_put_off(out: EnrichStep, now: i64, at: EnrichAt, reply: EnrichReply)
    requires
        enrich_follows(out, now, at, reply),
        at.wf(),
        at is Timing || at is Working,
    ensures
        ({
            let p = prepared_at(at)->0;
            let k = match at {
                EnrichAt::Timing { k, .. } => k as int,
                EnrichAt::Working { k, .. } => k + 1,
                _ => 0,
            };
            if out.at is Timing || out.at is Working {
                put_off(out) == p.tally.deferred
            } else {
                put_off(out) == p.tally.deferred + (p.work@.len() - k)
            }
        }),
{
    match at {
        EnrichAt::Timing { p, k } => {},
        EnrichAt::Working { p, k, app } => {
            let r = reply->App_0;
            let step = choose|step: AppStep| #[trigger]
                app_follows(step, p.work@[k as int], p.batch, now, app, r) && match step.request {
                    AppRequest::Done(outcome) => app_ended(out, p, k, outcome),
                    _ => out.works(p, k as int, step.at, step.request),
                };
            if let AppRequest::Done(outcome) = step.request {
                let t = choose|t: EnrichTally| #[trigger]
                    noted(
                        p.tally,
                        t,
                        p.work@[k as int].app_id,
                        outcome,
                        p.work@.len() as usize,
                        k,
                    ) && if outcome.abort {
                        out.sweeps(Prepared { tally: t, ..p })
                    } else {
                        out.goes_on(Prepared { tally: t, ..p }, k + 1)
                    };
                assert(noted(
                    p.tally,
                    t,
                    p.work@[k as int].app_id,
                    outcome,
                    p.work@.len() as usize,
                    k,
                ));
            }
        },
        _ => {},
    }
}

/// A pass takes up no more apps than one pass may, and what is due beyond that is put off from the
/// start.
pub proof fn a_pass_is_bounded(
    p: Prepared,
    games: Vec<Game>,
    apps: Seq<u32>,
    caches: Seq<Option<CacheView>>,
    now: i64,
)
    requires
        is_prepared(p, games, apps, caches, now),
    ensures
        p.work@.len() <= STEAM_ENRICH_MAX_APPS,
        p.work@.len() + p.tally.deferred == all_due(apps, caches, now, apps.len()).len(),
{
}

// ---- What holds of a pass as a whole -----------------------------------------------------------

/// Step `i + 1` is what follows step `i` and its reply.
pub open spec fn pass_goes_on(
    steps: Seq<EnrichStep>,
    replies: Seq<EnrichReply>,
    now: i64,
    i: int,
) -> bool {
    &&& steps[i].at.wf()
    &&& steps[i].at.expects(replies[i])
    &&& enrich_follows(steps[i + 1], now, steps[i].at, replies[i])
}

/// A pass so far, from its first turn on: its turns, and the replies between them.
pub open spec fn is_pass(
    steps: Seq<EnrichStep>,
    replies: Seq<EnrichReply>,
    now: i64,
    disabled: bool,
    client: bool,
) -> bool {
    &&& steps.len() == replies.len() + 1
    &&& starts(steps[0], disabled, client)
    &&& forall|i: int| 0 <= i < replies.len() ==> #[trigger] pass_goes_on(steps, replies, now, i)
}

/// Whether a turn asks for the page of an app.
pub open spec fn asks_for_page(step: EnrichStep) -> bool {
    step.request matches EnrichRequest::App { request, .. } && request is FetchDetail
}

/// Whether a turn asks the storefront for anything.
pub open spec fn asks_steam(step: EnrichStep) -> bool {
    step.request is FetchTags || (step.request matches EnrichRequest::App { request, .. } && (
    request is FetchDetail || request is FetchSummary || request is FetchRecent))
}

/// The apps whose pages were asked for, in the order in which they were.
pub open spec fn pages(steps: Seq<EnrichStep>) -> Seq<u32>
    decreases steps.len(),
{
    if steps.len() == 0 {
        Seq::empty()
    } else if asks_for_page(steps.last()) {
        pages(steps.drop_last()).push(steps.last().request->App_app_id)
    } else {
        pages(steps.drop_last())
    }
}

/// Whether a reply says that Steam asks to slow down.
pub open spec fn slows_down(reply: EnrichReply) -> bool {
    reply matches EnrichReply::App(r) && (r matches AppReply::Detail(Err(SteamError::RateLimited))
        || r matches AppReply::Summary(Err(SteamError::RateLimited)) || r matches AppReply::Recent(
        Err(SteamError::RateLimited),
    ))
}

/// Once the time is up it stays so.
pub open spec fn time_goes_on(replies: Seq<EnrichReply>) -> bool {
    forall|i: int, j: int|
        0 <= i < j < replies.len() && (#[trigger] replies[i]) == EnrichReply::Late(true)
            && (#[trigger] replies[j]) is Late ==> replies[j] == EnrichReply::Late(true)
}

/// The apps of some work ascend.
spec fn work_ascends(work: Seq<Work>) -> bool {
    forall|i: int, j: int|
        0 <= i < j < work.len() ==> (#[trigger] work[i]).app_id < (#[trigger] work[j]).app_id
}

/// How far a pass has come: the pages of all apps before this position have had their turn.
spec fn come_to(at: EnrichAt) -> int {
    match at {
        EnrichAt::Timing { k, .. } => k as int,
        EnrichAt::Working { k, app, .. } => if app is Reading {
            k as int
        } else {
            k + 1
        },
        _ => 0,
    }
}

/// Where a pass stands, the pages `asked` have been asked for: in order, and only of apps that have
/// had their turn.
spec fn in_turn(asked: Seq<u32>, at: EnrichAt) -> bool {
    &&& ascends(asked)
    &&& asked.len() <= STEAM_ENRICH_MAX_APPS
    &&& at is Listing || at is Caching ==> asked.len() == 0
    &&& !(at is Hiding) ==> (prepared_at(at) matches Some(p) ==> {
        &&& work_ascends(p.work@)
        &&& asked.len() <= come_to(at)
        &&& forall|i: int, j: int|
            0 <= i < asked.len() && come_to(at) <= j < p.work@.len() ==> #[trigger] asked[i] < (
            #[trigger] p.work@[j]).app_id
    })
}

/// What is due ascends as the apps do.
proof fn due_ascends(apps: Seq<u32>, caches: Seq<Option<CacheView>>, now: i64, n: nat)
    requires
        ascends(apps),
        n <= apps.len(),
    ensures
        work_ascends(all_due(apps, caches, now, n)),
        forall|i: int, m: int|
            0 <= i < all_due(apps, caches, now, n).len() && n <= m < apps.len() ==> (
            #[trigger] all_due(apps, caches, now, n)[i]).app_id < #[trigger] apps[m],
    decreases n,
{
    if n > 0 {
        due_ascends(apps, caches, now, (n - 1) as nat);
    }
}

/// A turn that goes on with app `k` keeps the order of what was asked for.
proof fn going_on_keeps_order(out: EnrichStep, asked: Seq<u32>, p: Prepared, k: int)
    requires
        out.goes_on(p, k),
        0 <= k,
        p.work@.len() <= STEAM_ENRICH_MAX_APPS,
        ascends(asked),
        asked.len() <= STEAM_ENRICH_MAX_APPS,
        asked.len() <= k,
        work_ascends(p.work@),
        forall|i: int, j: int|
            0 <= i < asked.len() && k <= j < p.work@.len() ==> #[trigger] asked[i] < (
            #[trigger] p.work@[j]).app_id,
    ensures
        in_turn(asked, out.at),
        !asks_for_page(out),
{
}

/// What the work on an app has led to: its turn, and, where it has ended, the tally after it.
proof fn an_app_went_on(out: EnrichStep, p: Prepared, k: usize, now: i64, app: AppAt, r: AppReply) -> (w: (
    AppStep,
    EnrichTally,
))
    requires
        app_done(out, p, k, now, app, r),
    ensures
        app_follows(w.0, p.work@[k as int], p.batch, now, app, r),
        match w.0.request {
            AppRequest::Done(outcome) => if outcome.abort {
                out.sweeps(Prepared { tally: w.1, ..p })
            } else {
                out.goes_on(Prepared { tally: w.1, ..p }, k + 1)
            },
            _ => out.works(p, k as int, w.0.at, w.0.request),
        },
{
    let step = choose|step: AppStep| #[trigger]
        app_follows(step, p.work@[k as int], p.batch, now, app, r) && match step.request {
            AppRequest::Done(outcome) => app_ended(out, p, k, outcome),
            _ => out.works(p, k as int, step.at, step.request),
        };
    match step.request {
        AppRequest::Done(outcome) => {
            let t = choose|t: EnrichTally| #[trigger]
                noted(p.tally, t, p.work@[k as int].app_id, outcome, p.work@.len() as usize, k)
                    && if outcome.abort {
                    out.sweeps(Prepared { tally: t, ..p })
                } else {
                    out.goes_on(Prepared { tally: t, ..p }, k + 1)
                };
            (step, t)
        },
        _ => (step, p.tally),
    }
}

/// Every turn keeps the order of what was asked for.
proof fn a_turn_keeps_order(
    out: EnrichStep,
    asked: Seq<u32>,
    now: i64,
    at: EnrichAt,
    reply: EnrichReply,
)
    requires
        enrich_follows(out, now, at, reply),
        at.wf(),
        at.expects(reply),
        in_turn(asked, at),
    ensures
        in_turn(
            if asks_for_page(out) {
                asked.push(out.request->App_app_id)
            } else {
                asked
            },
            out.at,
        ),
{
    match at {
        EnrichAt::Caching { games, apps } => {
            if let EnrichReply::Caches(Ok(caches)) = reply {
                let p = choose|p: Prepared| #[trigger]
                    is_prepared(p, games, apps@, cache_views(caches@), now) && if any_detail(
                        p.work@,
                    ) {
                        out.at == (EnrichAt::TagTiming { p }) && out.request is CheckClock
                    } else {
                        out.goes_on(p, 0)
                    };
                assert(is_prepared(p, games, apps@, cache_views(caches@), now));
                due_ascends(apps@, cache_views(caches@), now, apps@.len());
                assert(work_ascends(p.work@));
                if !any_detail(p.work@) {
                    going_on_keeps_order(out, asked, p, 0);
                }
            }
        },
        EnrichAt::TagTiming { p } => {
            if reply == EnrichReply::Late(true) {
                going_on_keeps_order(out, asked, p, 0);
            }
        },
        EnrichAt::Tagging { p } => {
            let (items, names) = (reply->Tags_items, reply->Tags_names);
            let batch = match (items, names) {
                (Ok(i), Ok(n)) => if i@.len() == 0 {
                    None
                } else {
                    Some(TagBatch { items: i, names: n })
                },
                _ => None,
            };
            going_on_keeps_order(
                out,
                asked,
                Prepared { batch, tag_batch_failed: batch is None, ..p },
                0,
            );
        },
        EnrichAt::Working { p, k, app } => {
            let (step, t) = an_app_went_on(out, p, k, now, app, reply->App_0);
            match step.request {
                AppRequest::Done(outcome) => {
                    if !outcome.abort {
                        assert forall|i: int, j: int|
                            0 <= i < asked.len() && k + 1 <= j < p.work@.len() implies
                            #[trigger] asked[i] < (#[trigger] p.work@[j]).app_id by {}
                        going_on_keeps_order(out, asked, Prepared { tally: t, ..p }, k + 1);
                    }
                },
                _ => {
                    assert(step.request is FetchDetail ==> app is Reading);
                },
            }
        },
        _ => {},
    }
}

proof fn pages_are_in_turn(
    steps: Seq<EnrichStep>,
    replies: Seq<EnrichReply>,
    now: i64,
    disabled: bool,
    client: bool,
    n: int,
)
    requires
        is_pass(steps, replies, now, disabled, client),
        0 < n <= steps.len(),
    ensures
        in_turn(pages(steps.take(n)), steps[n - 1].at),
    decreases n,
{
    let part = steps.take(n);
    assert(part.drop_last() =~= steps.take(n - 1));
    if n == 1 {
        assert(part.drop_last() =~= Seq::empty());
        assert(pages(part.drop_last()) =~= Seq::empty());
    } else {
        pages_are_in_turn(steps, replies, now, disabled, client, n - 1);
        assert(pass_goes_on(steps, replies, now, n - 2));
        a_turn_keeps_order(
            steps[n - 1],
            pages(steps.take(n - 1)),
            now,
            steps[n - 2].at,
            replies[n - 2],
        );
    }
}

/// A pass asks for no more pages than one pass may, for each app's once, and in ascending order.
pub proof fn pages_are_few_and_in_order(
    steps: Seq<EnrichStep>,
    replies: Seq<EnrichReply>,
    now: i64,
    disabled: bool,
    client: bool,
)
    requires
        is_pass(steps, replies, now, disabled, client),
    ensures
        pages(steps).len() <= STEAM_ENRICH_MAX_APPS,
        ascends(pages(steps)),
{
    pages_are_in_turn(steps, replies, now, disabled, client, steps.len() as int);
    assert(steps.take(steps.len() as int) =~= steps);
}

/// Whether a pass at this place asks the storefront for nothing more.
spec fn is_closing(at: EnrichAt) -> bool {
    match at {
        EnrichAt::Working { app, .. } => match app {
            AppAt::Putting { abort, .. } => abort,
            AppAt::Rereading { abort, .. } => abort,
            _ => false,
        },
        EnrichAt::Hiding { .. } => true,
        EnrichAt::Over => true,
        _ => false,
    }
}

/// A pass that asks for nothing more keeps to that; and where Steam asks to slow down, or the time is
/// up before an app, it comes to that.
proof fn a_turn_keeps_closing(out: EnrichStep, now: i64, at: EnrichAt, reply: EnrichReply)
    requires
        enrich_follows(out, now, at, reply),
        at.expects(reply),
        is_closing(at) || slows_down(reply) || (at is Timing && reply == EnrichReply::Late(true)),
    ensures
        is_closing(out.at),
        !asks_steam(out),
{
    if let EnrichAt::Working { p, k, app } = at {
        let (step, t) = an_app_went_on(out, p, k, now, app, reply->App_0);
    }
}

proof fn closing_stays(
    steps: Seq<EnrichStep>,
    replies: Seq<EnrichReply>,
    now: i64,
    disabled: bool,
    client: bool,
    i: int,
    j: int,
)
    requires
        is_pass(steps, replies, now, disabled, client),
        0 <= i <= j < steps.len(),
        is_closing(steps[i].at),
    ensures
        is_closing(steps[j].at),
        i < j ==> !asks_steam(steps[j]),
    decreases j - i,
{
    if i < j {
        closing_stays(steps, replies, now, disabled, client, i, j - 1);
        assert(pass_goes_on(steps, replies, now, j - 1));
        a_turn_keeps_closing(steps[j], now, steps[j - 1].at, replies[j - 1]);
    }
}

/// Once Steam asks to slow down, or the time is up, the storefront is asked for nothing more.
pub proof fn nothing_is_asked_once_it_is_over(
    steps: Seq<EnrichStep>,
    replies: Seq<EnrichReply>,
    now: i64,
    disabled: bool,
    client: bool,
    i: int,
    j: int,
)
    requires
        is_pass(steps, replies, now, disabled, client),
        time_goes_on(replies),
        0 <= i < j < steps.len(),
        slows_down(replies[i]) || replies[i] == EnrichReply::Late(true),
    ensures
        !asks_steam(steps[j]),
{
    assert(pass_goes_on(steps, replies, now, i));
    if steps[i].at is TagTiming {
        if i + 1 < j {
            assert(pass_goes_on(steps, replies, now, i + 1));
            if steps[i + 1].at is Timing {
                assert(replies[i + 1] == EnrichReply::Late(true));
                a_turn_keeps_closing(steps[i + 2], now, steps[i + 1].at, replies[i + 1]);
                closing_stays(steps, replies, now, disabled, client, i + 2, j);
            } else {
                closing_stays(steps, replies, now, disabled, client, i + 1, j);
            }
        }
    } else {
        a_turn_keeps_closing(steps[i + 1], now, steps[i].at, replies[i]);
        closing_stays(steps, replies, now, disabled, client, i + 1, j);
    }
}

/// A pass that is switched off, or that has no client, is over before it asks for anything.
pub proof fn a_pass_that_is_off_asks_for_nothing(
    steps: Seq<EnrichStep>,
    replies: Seq<EnrichReply>,
    now: i64,
    disabled: bool,
    client: bool,
)
    requires
        is_pass(steps, replies, now, disabled, client),
        disabled || !client,
    ensures
        steps.len() == 1,
        steps[0].request == EnrichRequest::Done(None),
{
    if replies.len() > 0 {
        assert(pass_goes_on(steps, replies, now, 0));
    }
}

} // verus!
