//! A rebuild of what is kept of every Steam app on the shelf: each page is fetched anew, whatever its
//! age, and the reviews are left as they are.
use vstd::prelude::*;
use std::collections::HashMap;
use crate::app_set::AppSet;
use crate::enrich::{
    app_follows, appids_of, apps_of, auto_hide_adult_games, backfill_counted, backfill_takes_up,
    backfill_work, enrich_app, ids_to_hide, note_backfill_tags, note_backfilled, one_if,
    start_app, superseded, AppAt, AppOutcome, AppReply, AppRequest, AppStep,
    BackfillSummary, Work,
};
use crate::enrich_pass::is_list_of;
use crate::model::Game;
use crate::steam::{copy_ids, fetch_tag_batch, is_adult, SteamAppCache, TagBatch};
use crate::text::views;

verus! {

/// What a rebuild works from.
pub struct Rebuild {
    pub games: Vec<Game>,
    pub apps: Vec<u32>,
    /// The apps that are fetched anew.
    pub work: Vec<u32>,
    pub batch: Option<TagBatch>,
    pub adult: AppSet,
    pub summary: BackfillSummary,
}

/// Where a rebuild stands: what it waits for.
pub enum BackfillAt {
    Listing,
    /// What is kept of app `k`.
    Reading { b: Rebuild, k: usize },
    Tagging { b: Rebuild },
    Working { b: Rebuild, k: usize, app: AppAt },
    Hiding { b: Rebuild, ids: Vec<String>, i: usize },
    Over,
}

/// What a rebuild requests next.
pub enum BackfillRequest {
    ListGames,
    ReadCache { app_id: u32 },
    FetchTags { ids: Vec<u32> },
    App { app_id: u32, request: AppRequest },
    Hide { id: String },
    /// The rebuild is over; without a summary the games could not be listed.
    Done(Option<BackfillSummary>),
}

/// The reply to a request.
pub enum BackfillReply {
    Games(Result<Vec<Game>, ()>),
    Cache(Result<Option<SteamAppCache>, ()>),
    Tags { items: Result<HashMap<u32, Vec<u32>>, ()>, names: Result<HashMap<u32, String>, ()> },
    App(AppReply),
    /// Whether the game was hidden by this.
    Hidden(bool),
}

/// One turn of a rebuild.
pub struct BackfillStep {
    pub at: BackfillAt,
    pub request: BackfillRequest,
}

/// The counts have room for one more.
pub open spec fn has_room(s: BackfillSummary) -> bool {
    &&& s.fetched < u32::MAX
    &&& s.negative < u32::MAX
    &&& s.skipped < u32::MAX
    &&& s.failed < u32::MAX
    &&& s.auto_hidden < u32::MAX
    &&& s.lost_race < u32::MAX
}

impl BackfillAt {
    /// Whether `reply` is a reply to what the rebuild waits for.
    pub open spec fn expects(self, reply: BackfillReply) -> bool {
        match self {
            BackfillAt::Listing => reply is Games,
            BackfillAt::Reading { .. } => reply is Cache,
            BackfillAt::Tagging { .. } => reply is Tags,
            BackfillAt::Working { app, .. } => reply matches BackfillReply::App(r)
                && app.expects(r),
            BackfillAt::Hiding { .. } => reply is Hidden,
            BackfillAt::Over => false,
        }
    }

    /// What the rebuild works from, where it has anything.
    pub open spec fn rebuild(self) -> Option<Rebuild> {
        match self {
            BackfillAt::Reading { b, .. } => Some(b),
            BackfillAt::Tagging { b } => Some(b),
            BackfillAt::Working { b, .. } => Some(b),
            BackfillAt::Hiding { b, .. } => Some(b),
            _ => None,
        }
    }

    /// What the rebuild is at exists.
    pub open spec fn wf(self) -> bool {
        match self {
            BackfillAt::Reading { b, k } => k < b.apps@.len(),
            BackfillAt::Working { b, k, .. } => k < b.work@.len(),
            BackfillAt::Hiding { ids, i, .. } => i < ids@.len(),
            _ => true,
        }
    }
}

impl BackfillStep {
    /// The rebuild hides game `i` of those to hide, or is over.
    pub open spec fn hides(self, b: Rebuild, ids: Seq<Seq<char>>, i: int) -> bool {
        if i < ids.len() {
            &&& self.at matches BackfillAt::Hiding { b: b2, ids: v, i: i2 } && b2 == b && views(v@)
                == ids && i2 == i
            &&& self.request matches BackfillRequest::Hide { id } && id@ == ids[i]
        } else {
            self.at is Over && self.request == BackfillRequest::Done(Some(b.summary))
        }
    }

    /// The rebuild hides the games of every app that is known to be adult.
    pub open spec fn sweeps(self, b: Rebuild) -> bool {
        self.hides(b, ids_to_hide(b.games@, b.adult@), 0)
    }

    /// The rebuild takes up app `k` of its work, or goes on to the games to hide.
    pub open spec fn works_from(self, b: Rebuild, k: int) -> bool {
        if k < b.work@.len() {
            self.works(b, k, AppAt::Reading, AppRequest::ReadSnapshot)
        } else {
            self.sweeps(b)
        }
    }

    /// The work on app `k` goes on.
    pub open spec fn works(self, b: Rebuild, k: int, app: AppAt, request: AppRequest) -> bool {
        &&& self.at == (BackfillAt::Working { b, k: k as usize, app })
        &&& self.request == (BackfillRequest::App { app_id: b.work@[k], request })
    }

    /// The rebuild reads what is kept of app `k`, or fetches the tags of its work, if it has any.
    pub open spec fn reads_from(self, b: Rebuild, k: int) -> bool {
        if k < b.apps@.len() {
            &&& self.at == (BackfillAt::Reading { b, k: k as usize })
            &&& self.request == (BackfillRequest::ReadCache { app_id: b.apps@[k] })
        } else if b.work@.len() > 0 {
            &&& self.at == (BackfillAt::Tagging { b })
            &&& self.request matches BackfillRequest::FetchTags { ids } && ids@ == b.work@
        } else {
            self.sweeps(
                Rebuild {
                    summary: BackfillSummary { tag_batch_failed: false, ..b.summary },
                    ..b
                },
            )
        }
    }
}

/// Whether `b` is where a rebuild starts from.
pub open spec fn is_fresh(b: Rebuild, games: Vec<Game>) -> bool {
    &&& b.games == games
    &&& is_list_of(b.apps@, games@)
    &&& b.work@.len() == 0
    &&& b.batch is None
    &&& b.adult@ == Set::<u32>::empty()
    &&& b.summary == (BackfillSummary {
        fetched: 0,
        negative: 0,
        skipped: 0,
        failed: 0,
        aborted_429: false,
        auto_hidden: 0,
        tag_batch_failed: false,
        lost_race: 0,
    })
}

/// Whether `b` is `was` after a look at app `k`: it is fetched anew unless it could not be read or
/// was fetched a short while ago, and noted if it is known to be adult.
pub open spec fn is_decided(
    b: Rebuild,
    was: Rebuild,
    k: int,
    read: Result<Option<SteamAppCache>, ()>,
    now: i64,
    skip_fresh_secs: i64,
) -> bool {
    let app_id = was.apps@[k];
    let taken = match read {
        Err(_) => false,
        Ok(None) => true,
        Ok(Some(c)) => now - c.fetched_at >= skip_fresh_secs,
    };
    &&& b.games == was.games
    &&& b.apps == was.apps
    &&& b.batch == was.batch
    &&& b.work@ == if taken {
        was.work@.push(app_id)
    } else {
        was.work@
    }
    &&& b.adult@ == if read matches Ok(Some(c)) && is_adult(c@.detail) {
        was.adult@.insert(app_id)
    } else {
        was.adult@
    }
    &&& b.summary == (BackfillSummary {
        failed: (was.summary.failed + one_if(read is Err)) as u32,
        skipped: (was.summary.skipped + one_if(!taken && read is Ok)) as u32,
        ..was.summary
    })
}

/// Whether `b` is `was` after the work on app `k`.
pub open spec fn is_counted(b: Rebuild, was: Rebuild, k: int, outcome: AppOutcome) -> bool {
    &&& b.games == was.games
    &&& b.apps == was.apps
    &&& b.work == was.work
    &&& b.batch == was.batch
    &&& superseded(was.adult@, b.adult@, was.work@[k], outcome)
    &&& b.summary == backfill_counted(was.summary, outcome)
}

/// The work on app `k` has ended. One that Steam asks to slow down for is the last.
pub open spec fn app_ended(out: BackfillStep, was: Rebuild, k: int, outcome: AppOutcome) -> bool {
    exists|b: Rebuild| #[trigger]
        is_counted(b, was, k, outcome) && if outcome.abort {
            out.sweeps(b)
        } else {
            out.works_from(b, k + 1)
        }
}

/// Whether `out` is the turn that follows a reply.
pub open spec fn backfill_follows(
    out: BackfillStep,
    now: i64,
    skip_fresh_secs: i64,
    at: BackfillAt,
    reply: BackfillReply,
) -> bool {
    match (at, reply) {
        (BackfillAt::Listing, BackfillReply::Games(r)) => match r {
            Err(_) => out.at is Over && out.request == BackfillRequest::Done(None),
            Ok(games) => exists|b: Rebuild| #[trigger] is_fresh(b, games) && out.reads_from(b, 0),
        },
        (BackfillAt::Reading { b, k }, BackfillReply::Cache(read)) => exists|b2: Rebuild| #[trigger]
            is_decided(b2, b, k as int, read, now, skip_fresh_secs) && out.reads_from(b2, k + 1),
        (BackfillAt::Tagging { b }, BackfillReply::Tags { items, names }) => {
            let batch = match (items, names) {
                (Ok(i), Ok(n)) => if i@.len() == 0 {
                    None
                } else {
                    Some(TagBatch { items: i, names: n })
                },
                _ => None,
            };
            out.works_from(
                Rebuild {
                    batch,
                    summary: BackfillSummary {
                        tag_batch_failed: b.work@.len() > 0 && batch is None,
                        ..b.summary
                    },
                    ..b
                },
                0,
            )
        },
        (BackfillAt::Working { b, k, app }, BackfillReply::App(r)) => exists|step: AppStep| #[trigger]
            app_follows(
                step,
                Work { app_id: b.work@[k as int], need_detail: true, need_reviews: false },
                b.batch,
                now,
                app,
                r,
            ) && match step.request {
                AppRequest::Done(outcome) => app_ended(out, b, k as int, outcome),
                _ => out.works(b, k as int, step.at, step.request),
            },
        (BackfillAt::Hiding { b, ids, i }, BackfillReply::Hidden(done)) => out.hides(
            Rebuild {
                summary: BackfillSummary {
                    auto_hidden: (b.summary.auto_hidden + one_if(done)) as u32,
                    ..b.summary
                },
                ..b
            },
            views(ids@),
            i + 1,
        ),
        _ => false,
    }
}

// ---- The machine ------------------------------------------------------------------------------

fn hide_from(b: Rebuild, ids: Vec<String>, i: usize) -> (out: BackfillStep)
    requires
        i <= ids@.len(),
    ensures
        out.hides(b, views(ids@), i as int),
        out.at.wf(),
{
    if i < ids.len() {
        let id = ids[i].clone();
        BackfillStep { at: BackfillAt::Hiding { b, ids, i }, request: BackfillRequest::Hide { id } }
    } else {
        BackfillStep { at: BackfillAt::Over, request: BackfillRequest::Done(Some(b.summary)) }
    }
}

fn sweep(b: Rebuild) -> (out: BackfillStep)
    ensures
        out.sweeps(b),
        out.at.wf(),
{
    let ids = auto_hide_adult_games(&b.adult, &b.games);
    hide_from(b, ids, 0)
}

fn work_from(b: Rebuild, k: usize) -> (out: BackfillStep)
    ensures
        out.works_from(b, k as int),
        out.at.wf(),
{
    if k < b.work.len() {
        let step = start_app();
        let app_id: u32 = b.work[k];
        BackfillStep {
            at: BackfillAt::Working { b, k, app: step.at },
            request: BackfillRequest::App { app_id, request: step.request },
        }
    } else {
        sweep(b)
    }
}

fn read_from(b: Rebuild, k: usize) -> (out: BackfillStep)
    ensures
        out.reads_from(b, k as int),
        out.at.wf(),
{
    if k < b.apps.len() {
        let app_id: u32 = b.apps[k];
        BackfillStep {
            at: BackfillAt::Reading { b, k },
            request: BackfillRequest::ReadCache { app_id },
        }
    } else if b.work.len() > 0 {
        let ids = copy_ids(&b.work);
        BackfillStep { at: BackfillAt::Tagging { b }, request: BackfillRequest::FetchTags { ids } }
    } else {
        let ghost was = b;
        let mut b = b;
        note_backfill_tags(&mut b.summary, 0, &None);
        assert(b == Rebuild {
            summary: BackfillSummary { tag_batch_failed: false, ..was.summary },
            ..was
        });
        sweep(b)
    }
}

fn start_from(games: Vec<Game>) -> (out: BackfillStep)
    ensures
        exists|b: Rebuild| #[trigger] is_fresh(b, games) && out.reads_from(b, 0),
        out.at.wf(),
{
    let apps = appids_of(&games).ids();
    let b = Rebuild {
        games,
        apps,
        work: Vec::new(),
        batch: None,
        adult: AppSet::new(),
        summary: BackfillSummary {
            fetched: 0,
            negative: 0,
            skipped: 0,
            failed: 0,
            aborted_429: false,
            auto_hidden: 0,
            tag_batch_failed: false,
            lost_race: 0,
        },
    };
    let ghost b0 = b;
    assert(is_fresh(b0, games));
    let out = read_from(b, 0);
    assert(out.reads_from(b0, 0));
    out
}

fn after_read(
    b: Rebuild,
    k: usize,
    read: Result<Option<SteamAppCache>, ()>,
    now: i64,
    skip_fresh_secs: i64,
) -> (out: BackfillStep)
    requires
        k < b.apps@.len(),
        has_room(b.summary),
    ensures
        exists|b2: Rebuild| #[trigger]
            is_decided(b2, b, k as int, read, now, skip_fresh_secs) && out.reads_from(b2, k + 1),
        out.at.wf(),
{
    let ghost was = b;
    let mut b = b;
    let app_id: u32 = b.apps[k];
    let n: usize = b.apps.len();
    assert(b.apps@.len() == n);
    if backfill_takes_up(&mut b.summary, &mut b.adult, app_id, &read, now, skip_fresh_secs) {
        b.work.push(app_id);
    }
    let ghost b2 = b;
    assert(is_decided(b2, was, k as int, read, now, skip_fresh_secs));
    read_from(b, k + 1)
}

fn after_tags(
    b: Rebuild,
    items: Result<HashMap<u32, Vec<u32>>, ()>,
    names: Result<HashMap<u32, String>, ()>,
) -> (out: BackfillStep)
    ensures
        backfill_follows(out, 0, 0, BackfillAt::Tagging { b }, BackfillReply::Tags { items, names }),
        out.at.wf(),
{
    let ghost was = b;
    let batch = fetch_tag_batch(items, names);
    let mut b = b;
    let n: usize = b.work.len();
    note_backfill_tags(&mut b.summary, n, &batch);
    b.batch = batch;
    assert(b == Rebuild {
        batch,
        summary: BackfillSummary {
            tag_batch_failed: was.work@.len() > 0 && batch is None,
            ..was.summary
        },
        ..was
    });
    work_from(b, 0)
}

fn end_app(b: Rebuild, k: usize, outcome: &AppOutcome) -> (out: BackfillStep)
    requires
        k < b.work@.len(),
        has_room(b.summary),
    ensures
        app_ended(out, b, k as int, *outcome),
        out.at.wf(),
{
    let ghost was = b;
    let mut b = b;
    let app_id: u32 = b.work[k];
    let n: usize = b.work.len();
    assert(b.work@.len() == n);
    let more: bool = note_backfilled(&mut b.summary, &mut b.adult, app_id, outcome);
    let ghost b2 = b;
    assert(is_counted(b2, was, k as int, *outcome));
    if more {
        work_from(b, k + 1)
    } else {
        sweep(b)
    }
}

fn after_app(b: Rebuild, k: usize, now: i64, app: AppAt, r: AppReply) -> (out: BackfillStep)
    requires
        k < b.work@.len(),
        has_room(b.summary),
        app.expects(r),
    ensures
        backfill_follows(out, now, 0, BackfillAt::Working { b, k, app }, BackfillReply::App(r)),
        out.at.wf(),
{
    let app_id: u32 = b.work[k];
    let step = enrich_app(&backfill_work(app_id), &b.batch, now, app, r);
    let ghost s0 = step;
    assert(app_follows(
        s0,
        Work { app_id: b.work@[k as int], need_detail: true, need_reviews: false },
        b.batch,
        now,
        app,
        r,
    ));
    match step.request {
        AppRequest::Done(outcome) => end_app(b, k, &outcome),
        request => BackfillStep {
            at: BackfillAt::Working { b, k, app: step.at },
            request: BackfillRequest::App { app_id, request },
        },
    }
}

/// The first turn of a rebuild.
pub fn start_backfill() -> (out: BackfillStep)
    ensures
        out.at is Listing,
        out.request is ListGames,
{
    BackfillStep { at: BackfillAt::Listing, request: BackfillRequest::ListGames }
}

/// The turn of a rebuild that follows a reply.
pub fn backfill_steam_details(
    now: i64,
    skip_fresh_secs: i64,
    at: BackfillAt,
    reply: BackfillReply,
) -> (out: BackfillStep)
    requires
        at.wf(),
        at.expects(reply),
        at.rebuild() matches Some(b) ==> has_room(b.summary),
    ensures
        backfill_follows(out, now, skip_fresh_secs, at, reply),
        out.at.wf(),
{
    match (at, reply) {
        (BackfillAt::Listing, BackfillReply::Games(r)) => match r {
            Err(_) => BackfillStep { at: BackfillAt::Over, request: BackfillRequest::Done(None) },
            Ok(games) => start_from(games),
        },
        (BackfillAt::Reading { b, k }, BackfillReply::Cache(read)) => after_read(
            b,
            k,
            read,
            now,
            skip_fresh_secs,
        ),
        (BackfillAt::Tagging { b }, BackfillReply::Tags { items, names }) => after_tags(
            b,
            items,
            names,
        ),
        (BackfillAt::Working { b, k, app }, BackfillReply::App(r)) => after_app(b, k, now, app, r),
        (BackfillAt::Hiding { b, ids, i }, BackfillReply::Hidden(done)) => {
            let ghost was = b;
            let mut b = b;
            if done {
                b.summary.auto_hidden = b.summary.auto_hidden + 1;
            }
            let n: usize = ids.len();
            assert(ids@.len() == n);
            assert(b == Rebuild {
                summary: BackfillSummary {
                    auto_hidden: (was.summary.auto_hidden + one_if(done)) as u32,
                    ..was.summary
                },
                ..was
            });
            hide_from(b, ids, i + 1)
        },
        _ => {
            assert(false);
            start_backfill()
        },
    }
}

// ---- What holds of every rebuild --------------------------------------------------------------

/// Step `i + 1` is what follows step `i` and its reply.
pub open spec fn rebuild_goes_on(
    steps: Seq<BackfillStep>,
    replies: Seq<BackfillReply>,
    now: i64,
    skip_fresh_secs: i64,
    i: int,
) -> bool {
    &&& steps[i].at.wf()
    &&& steps[i].at.expects(replies[i])
    &&& steps[i].at.rebuild() matches Some(b) ==> has_room(b.summary)
    &&& backfill_follows(steps[i + 1], now, skip_fresh_secs, steps[i].at, replies[i])
}

/// A rebuild so far, from its first turn on: its turns, and the replies between them.
pub open spec fn is_rebuild(
    steps: Seq<BackfillStep>,
    replies: Seq<BackfillReply>,
    now: i64,
    skip_fresh_secs: i64,
) -> bool {
    &&& steps.len() == replies.len() + 1
    &&& steps[0].at is Listing
    &&& steps[0].request is ListGames
    &&& forall|i: int|
        0 <= i < replies.len() ==> #[trigger] rebuild_goes_on(
            steps,
            replies,
            now,
            skip_fresh_secs,
            i,
        )
}

/// How many apps a summary tells of.
pub open spec fn told(s: BackfillSummary) -> int {
    s.fetched + s.negative + s.skipped + s.failed
}

/// Whether a summary accounts for `done` apps, none of which was broken off.
spec fn accounts(s: BackfillSummary, done: int) -> bool {
    told(s) == done && !s.aborted_429 && s.lost_race <= s.fetched + s.negative + s.failed
}

/// Whether a summary is that of a rebuild of `n` apps.
spec fn sums_up(s: BackfillSummary, n: nat) -> bool {
    &&& if s.aborted_429 {
        told(s) < n
    } else {
        told(s) == n
    }
    &&& s.lost_race <= s.fetched + s.negative + s.failed
}

/// The work on an app, as a rebuild does it: what is written holds a page, or says that it is gone,
/// and nothing asks for the reviews.
spec fn is_page_work(app: AppAt) -> bool {
    match app {
        AppAt::Reading => true,
        AppAt::Detailing { .. } => true,
        AppAt::Putting { ours, abort, .. } => ours.detail is Some && !abort,
        AppAt::Rereading { ours, abort } => ours.detail is Some && !abort,
        _ => false,
    }
}

/// Where a rebuild of `n` apps stands, every app so far is told of or still to be fetched.
spec fn is_accounted(step: BackfillStep, n: nat) -> bool {
    match step.at {
        BackfillAt::Listing => false,
        BackfillAt::Reading { b, k } => b.apps@.len() == n && accounts(
            b.summary,
            k - b.work@.len(),
        ),
        BackfillAt::Tagging { b } => accounts(b.summary, n - b.work@.len()),
        BackfillAt::Working { b, k, app } => accounts(b.summary, n - (b.work@.len() - k))
            && is_page_work(app),
        BackfillAt::Hiding { b, .. } => sums_up(b.summary, n),
        BackfillAt::Over => step.request matches BackfillRequest::Done(Some(s)) && sums_up(s, n),
    }
}

/// Every turn keeps the account.
proof fn a_turn_keeps_account(
    out: BackfillStep,
    now: i64,
    skip_fresh_secs: i64,
    step: BackfillStep,
    reply: BackfillReply,
    n: nat,
)
    requires
        backfill_follows(out, now, skip_fresh_secs, step.at, reply),
        step.at.wf(),
        step.at.rebuild() matches Some(b) ==> has_room(b.summary),
        is_accounted(step, n),
    ensures
        is_accounted(out, n),
{
    match step.at {
        BackfillAt::Reading { b, k } => {
            let read = reply->Cache_0;
            let b2 = choose|b2: Rebuild| #[trigger]
                is_decided(b2, b, k as int, read, now, skip_fresh_secs) && out.reads_from(b2, k + 1);
            assert(is_decided(b2, b, k as int, read, now, skip_fresh_secs));
            assert(b.apps@.len() == b.apps.len());
        },
        BackfillAt::Working { b, k, app } => {
            let work = Work {
                app_id: b.work@[k as int],
                need_detail: true,
                need_reviews: false,
            };
            let r = reply->App_0;
            let app_step = choose|app_step: AppStep| #[trigger]
                app_follows(app_step, work, b.batch, now, app, r) && match app_step.request {
                    AppRequest::Done(outcome) => app_ended(out, b, k as int, outcome),
                    _ => out.works(b, k as int, app_step.at, app_step.request),
                };
            assert(app_follows(app_step, work, b.batch, now, app, r));
            if let AppRequest::Done(outcome) = app_step.request {
                let b2 = choose|b2: Rebuild| #[trigger]
                    is_counted(b2, b, k as int, outcome) && if outcome.abort {
                        out.sweeps(b2)
                    } else {
                        out.works_from(b2, k + 1)
                    };
                assert(is_counted(b2, b, k as int, outcome));
                assert(b.work@.len() == b.work.len());
            }
        },
        _ => {},
    }
}

/// The first turn past the list of games starts the account.
proof fn the_account_starts(
    out: BackfillStep,
    now: i64,
    skip_fresh_secs: i64,
    games: Vec<Game>,
)
    requires
        backfill_follows(
            out,
            now,
            skip_fresh_secs,
            BackfillAt::Listing,
            BackfillReply::Games(Ok(games)),
        ),
    ensures
        is_accounted(out, apps_of(games@).len()),
{
    let b = choose|b: Rebuild| #[trigger] is_fresh(b, games) && out.reads_from(b, 0);
    assert(is_fresh(b, games));
    b.apps@.unique_seq_to_set();
}

proof fn the_account_is_kept(
    steps: Seq<BackfillStep>,
    replies: Seq<BackfillReply>,
    now: i64,
    skip_fresh_secs: i64,
    games: Vec<Game>,
    i: int,
)
    requires
        is_rebuild(steps, replies, now, skip_fresh_secs),
        1 <= i < steps.len(),
        replies[0] == BackfillReply::Games(Ok(games)),
    ensures
        is_accounted(steps[i], apps_of(games@).len()),
    decreases i,
{
    assert(rebuild_goes_on(steps, replies, now, skip_fresh_secs, i - 1));
    if i == 1 {
        the_account_starts(steps[1], now, skip_fresh_secs, games);
    } else {
        the_account_is_kept(steps, replies, now, skip_fresh_secs, games, i - 1);
        a_turn_keeps_account(
            steps[i],
            now,
            skip_fresh_secs,
            steps[i - 1],
            replies[i - 1],
            apps_of(games@).len(),
        );
    }
}

/// A rebuild that is not broken off tells of every app of the shelf once: it was fetched, is gone, was
/// skipped or failed. One that Steam has broken off tells of fewer. A write that came too late is
/// one of an app that was fetched, is gone or failed.
pub proof fn a_rebuild_tells_of_every_app(
    steps: Seq<BackfillStep>,
    replies: Seq<BackfillReply>,
    now: i64,
    skip_fresh_secs: i64,
    games: Vec<Game>,
    s: BackfillSummary,
)
    requires
        is_rebuild(steps, replies, now, skip_fresh_secs),
        replies.len() > 0,
        replies[0] == BackfillReply::Games(Ok(games)),
        steps.last().request == BackfillRequest::Done(Some(s)),
    ensures
        s.aborted_429 ==> told(s) < apps_of(games@).len(),
        !s.aborted_429 ==> told(s) == apps_of(games@).len(),
        s.lost_race <= s.fetched + s.negative + s.failed,
{
    let i = steps.len() - 1;
    the_account_is_kept(steps, replies, now, skip_fresh_secs, games, i);
    done_is_over(steps, replies, now, skip_fresh_secs, i);
}

/// A rebuild is over where it says that it is done.
proof fn done_is_over(
    steps: Seq<BackfillStep>,
    replies: Seq<BackfillReply>,
    now: i64,
    skip_fresh_secs: i64,
    i: int,
)
    requires
        is_rebuild(steps, replies, now, skip_fresh_secs),
        1 <= i < steps.len(),
        steps[i].request is Done,
    ensures
        steps[i].at is Over,
{
    assert(rebuild_goes_on(steps, replies, now, skip_fresh_secs, i - 1));
}

/// A rebuild without a summary is one whose games could not be listed.
pub proof fn a_rebuild_sums_up_what_it_listed(
    steps: Seq<BackfillStep>,
    replies: Seq<BackfillReply>,
    now: i64,
    skip_fresh_secs: i64,
)
    requires
        is_rebuild(steps, replies, now, skip_fresh_secs),
        steps.last().request == BackfillRequest::Done(None),
    ensures
        replies.len() == 1,
        replies[0] matches BackfillReply::Games(Err(_)),
{
    let i = steps.len() - 1;
    assert(rebuild_goes_on(steps, replies, now, skip_fresh_secs, i - 1));
    if i > 1 {
        assert(rebuild_goes_on(steps, replies, now, skip_fresh_secs, 0));
        match replies[0] {
            BackfillReply::Games(Ok(games)) => {
                the_account_is_kept(steps, replies, now, skip_fresh_secs, games, i);
                done_is_over(steps, replies, now, skip_fresh_secs, i);
            },
            _ => {
                assert(rebuild_goes_on(steps, replies, now, skip_fresh_secs, 1));
            },
        }
    } else if let BackfillReply::Games(Ok(games)) = replies[0] {
        the_account_is_kept(steps, replies, now, skip_fresh_secs, games, i);
        done_is_over(steps, replies, now, skip_fresh_secs, i);
    }
}

} // verus!
