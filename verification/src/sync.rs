//! One run of the sync: the stages it goes through, and what is recorded of it at the end.
//!
//! A run first looks for claims that have been pending for too long, which needs no session. Then it
//! lists the orders, looks after the pending claims, walks the orders, and brings everything that
//! hangs on them up to date.
use vstd::prelude::*;
use vstd::string::*;
use crate::claim_flow::{names, Tries};
use crate::discovery::OrderIndex;
use crate::humble::{HumbleError, KeyEntry, Order};
use crate::reconcile::Mend;
use crate::session::Heal;
use crate::shelf::Truth;
use crate::text::{decimal, decimal_of};

verus! {

// ---- How long there is for the last stage -----------------------------------------------------

/// How long a run can last, in milliseconds.
pub const SYNC_LAMBDA_TIMEOUT_MILLIS: u64 = 900_000;

/// What is kept back for the bookkeeping at the end, in milliseconds.
pub const STEAM_ENRICH_DEADLINE_MARGIN_MILLIS: u64 = 180_000;

/// The duration that `std::time::Duration::from_millis` makes of a number of milliseconds.
pub uninterp spec fn duration_of_millis(millis: u64) -> std::time::Duration;

/// `std::time::Duration::from_millis`: a duration of that many milliseconds, known here by its name
/// alone.
pub assume_specification[ std::time::Duration::from_millis ](millis: u64) -> (r: std::time::Duration)
    ensures
        r == duration_of_millis(millis),
;

/// How many milliseconds there are for the last stage, at `now_epoch_ms`: what is left of the run,
/// less the margin. Without a deadline the run is taken to start now.
pub open spec fn enrich_millis(context_deadline_epoch_ms: u64, now_epoch_ms: u64) -> int {
    let left = if context_deadline_epoch_ms == 0 {
        SYNC_LAMBDA_TIMEOUT_MILLIS as int
    } else if context_deadline_epoch_ms > now_epoch_ms {
        context_deadline_epoch_ms - now_epoch_ms
    } else {
        0
    };
    if left > STEAM_ENRICH_DEADLINE_MARGIN_MILLIS {
        left - STEAM_ENRICH_DEADLINE_MARGIN_MILLIS
    } else {
        0
    }
}

/// How many milliseconds there are for the last stage.
pub fn enrich_budget_millis(context_deadline_epoch_ms: u64, now_epoch_ms: u64) -> (r: u64)
    ensures
        r == enrich_millis(context_deadline_epoch_ms, now_epoch_ms),
{
    if context_deadline_epoch_ms == 0 {
        return SYNC_LAMBDA_TIMEOUT_MILLIS - STEAM_ENRICH_DEADLINE_MARGIN_MILLIS;
    }
    let left: u64 = context_deadline_epoch_ms.saturating_sub(now_epoch_ms);
    left.saturating_sub(STEAM_ENRICH_DEADLINE_MARGIN_MILLIS)
}

/// How much time there is for the last stage.
pub fn compute_enrich_deadline(context_deadline_epoch_ms: u64, now_epoch_ms: u64) -> (r:
    std::time::Duration)
    ensures
        r == duration_of_millis(
            enrich_millis(context_deadline_epoch_ms, now_epoch_ms) as u64,
        ),
{
    std::time::Duration::from_millis(enrich_budget_millis(context_deadline_epoch_ms, now_epoch_ms))
}

// ---- What is recorded of a run ----------------------------------------------------------------

/// The line that sums up a run. Rows that could not be corrected are reported whether or not any
/// were.
pub open spec fn summary_text(written: nat, failed: nat, pulls: nat, rows_failed: nat) -> Seq<char> {
    "sync ok: "@ + decimal(written) + " written, "@ + decimal(failed) + " order(s) failed"@ + (if pulls
        > 0 {
        ", "@ + decimal(pulls) + " audit-pulled"@
    } else {
        Seq::empty()
    }) + (if rows_failed > 0 {
        ", "@ + decimal(rows_failed) + " audit row(s) failed"@
    } else {
        Seq::empty()
    })
}

/// Rows that could not be corrected are reported in the same words whether or not any were pulled.
pub proof fn failed_rows_are_never_silent(written: nat, failed: nat, pulls: nat, rows_failed: nat)
    requires
        rows_failed > 0,
    ensures
        summary_text(written, failed, pulls, rows_failed) == summary_text(written, failed, pulls, 0)
            + (", "@ + decimal(rows_failed) + " audit row(s) failed"@),
{
    let tail = ", "@ + decimal(rows_failed) + " audit row(s) failed"@;
    let base = "sync ok: "@ + decimal(written) + " written, "@ + decimal(failed)
        + " order(s) failed"@ + (if pulls > 0 {
        ", "@ + decimal(pulls) + " audit-pulled"@
    } else {
        Seq::empty()
    });
    assert(base + Seq::<char>::empty() =~= base);
}

/// The line that sums up a run.
pub fn summary_line(games_written: u32, orders_failed: u32, pulls: u32, audit_rows_failed: u32) -> (r:
    String)
    ensures
        r@ == summary_text(
            games_written as nat,
            orders_failed as nat,
            pulls as nat,
            audit_rows_failed as nat,
        ),
{
    let mut s = String::from_str("sync ok: ");
    s.append(decimal_of(games_written as u64).as_str());
    s.append(" written, ");
    s.append(decimal_of(orders_failed as u64).as_str());
    s.append(" order(s) failed");
    let ghost base = s@;
    if pulls > 0 {
        s.append(", ");
        s.append(decimal_of(pulls as u64).as_str());
        s.append(" audit-pulled");
    }
    let ghost middle = s@;
    assert(middle =~= base + (if pulls > 0 {
        ", "@ + decimal(pulls as nat) + " audit-pulled"@
    } else {
        Seq::empty()
    }));
    if audit_rows_failed > 0 {
        s.append(", ");
        s.append(decimal_of(audit_rows_failed as u64).as_str());
        s.append(" audit row(s) failed");
    }
    assert(s@ =~= middle + (if audit_rows_failed > 0 {
        ", "@ + decimal(audit_rows_failed as nat) + " audit row(s) failed"@
    } else {
        Seq::empty()
    }));
    s
}

/// What is recorded of a run, beside when it was.
pub struct Summary {
    pub ok: bool,
    pub cookie_ok: bool,
    pub games_written: u32,
    pub message: String,
    pub private_pinged: bool,
}

/// What a run has found out so far.
#[derive(Debug, Clone, Copy, PartialEq, Eq, Structural)]
pub struct Tally {
    pub mend: Mend,
    pub games_written: u32,
    pub orders_failed: u32,
    /// The operator has been told that the owner's library cannot be read, and it still cannot.
    pub private_pinged: bool,
}

/// What follows the look at the pending claims.
pub enum AfterReconcile {
    Walk { gamekeys: Vec<String> },
    /// The orders could not be listed.
    Fail { error: String },
}

/// Where a run stands: what it waits for.
pub enum SyncAt {
    Sweeping,
    ReadingState,
    Listing { tries: Tries },
    ListHealing,
    Reconciling { then: AfterReconcile },
    Walking { gamekeys: Vec<String>, i: usize, tries: Tries },
    WalkHealing { gamekeys: Vec<String>, i: usize },
    Storing { gamekeys: Vec<String>, i: usize },
    Scanning,
    Mapping,
    Owning,
    Discovering { scanned: bool },
    Enriching { scanned: bool },
    Auditing,
    Persisting,
    Over,
}

/// What a run requests next.
pub enum SyncRequest {
    /// Tell of the claims that have been pending for too long.
    Sweep,
    ReadState,
    ListOrders,
    Login,
    Reconcile,
    ReadOrder { gamekey: String },
    /// Note the order, and write its keys to the shelf.
    StoreOrder(Order),
    /// Read the whole shelf.
    Scan,
    /// Find app ids by title.
    MapTitles,
    /// Mark what the owner has.
    RefreshOwnership,
    Discover,
    Enrich,
    Audit,
    Persist(Summary),
    Done,
}

/// The reply to a request.
pub enum SyncReply {
    Swept,
    /// Whether the operator has been told of the library before; `None` if that is not known.
    State(Option<bool>),
    /// An error is carried with its text.
    Listed(Result<Vec<String>, (HumbleError, String)>),
    LoggedIn(Heal),
    Reconciled(Mend),
    Order(Result<Order, HumbleError>),
    Stored { written: u32, failed: bool },
    Scanned(bool),
    Mapped,
    Owned { private_pinged: bool },
    Discovered { mend: Mend, written: u32 },
    Enriched,
    Audited { pulls: u32, rows_failed: u32 },
    Persisted,
}

/// One turn of a run. `tell_dead`: the operator is told, before the request is made, that the
/// session is dead.
pub struct SyncStep {
    pub at: SyncAt,
    pub tally: Tally,
    pub tell_dead: bool,
    pub request: SyncRequest,
}

impl SyncAt {
    /// Whether `reply` is a reply to what the run waits for.
    pub open spec fn expects(self, reply: SyncReply) -> bool {
        match self {
            SyncAt::Sweeping => reply is Swept,
            SyncAt::ReadingState => reply is State,
            SyncAt::Listing { .. } => reply is Listed,
            SyncAt::ListHealing => reply is LoggedIn,
            SyncAt::Reconciling { .. } => reply is Reconciled,
            SyncAt::Walking { .. } => reply is Order,
            SyncAt::WalkHealing { .. } => reply is LoggedIn,
            SyncAt::Storing { .. } => reply is Stored,
            SyncAt::Scanning => reply is Scanned,
            SyncAt::Mapping => reply is Mapped,
            SyncAt::Owning => reply is Owned,
            SyncAt::Discovering { .. } => reply is Discovered,
            SyncAt::Enriching { .. } => reply is Enriched,
            SyncAt::Auditing => reply is Audited,
            SyncAt::Persisting => reply is Persisted,
            SyncAt::Over => false,
        }
    }

    /// The order that the run is at exists.
    pub open spec fn wf(self) -> bool {
        match self {
            SyncAt::Walking { gamekeys, i, .. } => i < gamekeys@.len(),
            SyncAt::WalkHealing { gamekeys, i } => i < gamekeys@.len(),
            SyncAt::Storing { gamekeys, i } => i < gamekeys@.len(),
            _ => true,
        }
    }
}

/// The counts have room for what a reply adds.
pub open spec fn counts_fit(tally: Tally, reply: SyncReply) -> bool {
    &&& tally.orders_failed < u32::MAX
    &&& reply matches SyncReply::Stored { written, .. } ==> tally.games_written + written
        <= u32::MAX
    &&& reply matches SyncReply::Discovered { written, .. } ==> tally.games_written + written
        <= u32::MAX
}

impl SyncStep {
    /// The run goes on with a stage, and nothing is told.
    pub open spec fn moves(self, at: SyncAt, tally: Tally, request: SyncRequest) -> bool {
        self.at == at && self.tally == tally && !self.tell_dead && self.request == request
    }

    /// The run is recorded.
    pub open spec fn records(
        self,
        tally: Tally,
        tell_dead: bool,
        ok: bool,
        cookie_ok: bool,
        games_written: u32,
        message: Seq<char>,
    ) -> bool {
        &&& self.at is Persisting
        &&& self.tally == tally
        &&& self.tell_dead == tell_dead
        &&& self.request matches SyncRequest::Persist(s) && {
            &&& s.ok == ok
            &&& s.cookie_ok == cookie_ok
            &&& s.games_written == games_written
            &&& s.message@ == message
            &&& s.private_pinged == tally.private_pinged
        }
    }

    /// The walk goes on with order `i`, or is over.
    pub open spec fn walks(self, gamekeys: Vec<String>, i: int, tally: Tally) -> bool {
        if i < gamekeys@.len() {
            self.moves(
                SyncAt::Walking {
                    gamekeys,
                    i: i as usize,
                    tries: Tries::First { may_heal: !tally.mend.healed },
                },
                tally,
                SyncRequest::ReadOrder { gamekey: gamekeys@[i] },
            )
        } else {
            self.moves(SyncAt::Scanning, tally, SyncRequest::Scan)
        }
    }

    /// The session is dead and stays so: the walk is broken off, the operator is told, and the run
    /// goes on with what it has.
    pub open spec fn breaks_off(self, tally: Tally) -> bool {
        &&& self.at is Scanning
        &&& self.tally == (Tally {
            mend: Mend { healed: tally.mend.healed, cookie_ok: false },
            ..tally
        })
        &&& self.tell_dead
        &&& self.request is Scan
    }
}

/// The orders have been listed. The state of the cookie is what the listing, and a login on the way,
/// have shown of it.
pub open spec fn orders_listed(
    out: SyncStep,
    tally: Tally,
    tries: Tries,
    r: Result<Vec<String>, (HumbleError, String)>,
) -> bool {
    match r {
        Ok(gamekeys) => out.moves(
            SyncAt::Reconciling { then: AfterReconcile::Walk { gamekeys } },
            tally,
            SyncRequest::Reconcile,
        ),
        Err((HumbleError::Unauthorized, _)) => if tries == (Tries::First { may_heal: true }) {
            out.moves(SyncAt::ListHealing, tally, SyncRequest::Login)
        } else {
            out.records(tally, true, false, false, 0, "humble session cookie is dead"@)
        },
        Err((_, error)) => out.moves(
            SyncAt::Reconciling { then: AfterReconcile::Fail { error } },
            tally,
            SyncRequest::Reconcile,
        ),
    }
}

/// An order has been read. One that fails is counted and passed over.
pub open spec fn walk_read(
    out: SyncStep,
    gamekeys: Vec<String>,
    i: int,
    tries: Tries,
    tally: Tally,
    r: Result<Order, HumbleError>,
) -> bool {
    match r {
        Ok(order) => out.moves(
            SyncAt::Storing { gamekeys, i: i as usize },
            tally,
            SyncRequest::StoreOrder(order),
        ),
        Err(HumbleError::Unauthorized) => if tries == (Tries::First { may_heal: true }) {
            out.moves(
                SyncAt::WalkHealing { gamekeys, i: i as usize },
                tally,
                SyncRequest::Login,
            )
        } else {
            out.breaks_off(tally)
        },
        Err(_) => out.walks(
            gamekeys,
            i + 1,
            Tally { orders_failed: (tally.orders_failed + 1) as u32, ..tally },
        ),
    }
}

/// A run with a dead cookie in place of its summary.
pub const COOKIE_DEAD_SUMMARY: &'static str =
    "humble session cookie is dead (or a refreshed one could not be persisted — see pings)";

/// The last stage is over: the run is recorded. It went well if the cookie is alive and no order
/// failed.
pub open spec fn finishes(out: SyncStep, tally: Tally, pulls: u32, rows_failed: u32) -> bool {
    out.records(
        tally,
        false,
        tally.mend.cookie_ok && tally.orders_failed == 0,
        tally.mend.cookie_ok,
        tally.games_written,
        if tally.mend.cookie_ok {
            summary_text(
                tally.games_written as nat,
                tally.orders_failed as nat,
                pulls as nat,
                rows_failed as nat,
            )
        } else {
            COOKIE_DEAD_SUMMARY@
        },
    )
}

/// Whether `out` is the turn that follows a reply.
pub open spec fn sync_follows(out: SyncStep, at: SyncAt, tally: Tally, reply: SyncReply) -> bool {
    match (at, reply) {
        (SyncAt::Sweeping, SyncReply::Swept) => out.moves(
            SyncAt::ReadingState,
            tally,
            SyncRequest::ReadState,
        ),
        (SyncAt::ReadingState, SyncReply::State(pinged)) => out.moves(
            SyncAt::Listing { tries: Tries::First { may_heal: true } },
            Tally { private_pinged: pinged == Some(true), ..tally },
            SyncRequest::ListOrders,
        ),
        (SyncAt::Listing { tries }, SyncReply::Listed(r)) => orders_listed(out, tally, tries, r),
        (SyncAt::ListHealing, SyncReply::LoggedIn(h)) => {
            let t = Tally { mend: Mend { healed: true, cookie_ok: h.is_durable() }, ..tally };
            if h.is_usable() {
                out.moves(
                    SyncAt::Listing { tries: Tries::Again(h) },
                    t,
                    SyncRequest::ListOrders,
                )
            } else {
                out.records(t, true, false, false, 0, "humble session cookie is dead"@)
            }
        },
        (SyncAt::Reconciling { then }, SyncReply::Reconciled(mend)) => {
            let t = Tally { mend, ..tally };
            match then {
                AfterReconcile::Walk { gamekeys } => out.walks(gamekeys, 0, t),
                AfterReconcile::Fail { error } => out.records(
                    t,
                    false,
                    false,
                    mend.cookie_ok,
                    0,
                    "sync failed listing orders: "@ + error@,
                ),
            }
        },
        (SyncAt::Walking { gamekeys, i, tries }, SyncReply::Order(r)) => walk_read(
            out,
            gamekeys,
            i as int,
            tries,
            tally,
            r,
        ),
        (SyncAt::WalkHealing { gamekeys, i }, SyncReply::LoggedIn(h)) => {
            let t = Tally { mend: Mend { healed: true, cookie_ok: h.is_durable() }, ..tally };
            if h.is_usable() {
                out.moves(
                    SyncAt::Walking { gamekeys, i, tries: Tries::Again(h) },
                    t,
                    SyncRequest::ReadOrder { gamekey: gamekeys@[i as int] },
                )
            } else {
                out.breaks_off(t)
            }
        },
        (SyncAt::Storing { gamekeys, i }, SyncReply::Stored { written, failed }) => out.walks(
            gamekeys,
            i + 1,
            Tally {
                games_written: (tally.games_written + written) as u32,
                orders_failed: if failed {
                    (tally.orders_failed + 1) as u32
                } else {
                    tally.orders_failed
                },
                ..tally
            },
        ),
        (SyncAt::Scanning, SyncReply::Scanned(ok)) => if ok {
            out.moves(SyncAt::Mapping, tally, SyncRequest::MapTitles)
        } else {
            out.moves(SyncAt::Discovering { scanned: false }, tally, SyncRequest::Discover)
        },
        (SyncAt::Mapping, SyncReply::Mapped) => out.moves(
            SyncAt::Owning,
            tally,
            SyncRequest::RefreshOwnership,
        ),
        (SyncAt::Owning, SyncReply::Owned { private_pinged }) => out.moves(
            SyncAt::Discovering { scanned: true },
            Tally { private_pinged, ..tally },
            SyncRequest::Discover,
        ),
        (SyncAt::Discovering { scanned }, SyncReply::Discovered { mend, written }) => out.moves(
            SyncAt::Enriching { scanned },
            Tally { mend, games_written: (tally.games_written + written) as u32, ..tally },
            SyncRequest::Enrich,
        ),
        (SyncAt::Enriching { scanned }, SyncReply::Enriched) => if scanned {
            out.moves(SyncAt::Auditing, tally, SyncRequest::Audit)
        } else {
            finishes(out, tally, 0, 0)
        },
        (SyncAt::Auditing, SyncReply::Audited { pulls, rows_failed }) => finishes(
            out,
            tally,
            pulls,
            rows_failed,
        ),
        (SyncAt::Persisting, SyncReply::Persisted) => out.moves(
            SyncAt::Over,
            tally,
            SyncRequest::Done,
        ),
        _ => false,
    }
}

fn move_to(at: SyncAt, tally: Tally, request: SyncRequest) -> (out: SyncStep)
    ensures
        out.moves(at, tally, request),
{
    SyncStep { at, tally, tell_dead: false, request }
}

fn record(
    tally: Tally,
    tell_dead: bool,
    ok: bool,
    cookie_ok: bool,
    games_written: u32,
    message: String,
) -> (out: SyncStep)
    ensures
        out.records(tally, tell_dead, ok, cookie_ok, games_written, message@),
{
    SyncStep {
        at: SyncAt::Persisting,
        tally,
        tell_dead,
        request: SyncRequest::Persist(
            Summary {
                ok,
                cookie_ok,
                games_written,
                message,
                private_pinged: tally.private_pinged,
            },
        ),
    }
}

fn walk(gamekeys: Vec<String>, i: usize, tally: Tally) -> (out: SyncStep)
    ensures
        out.walks(gamekeys, i as int, tally),
        out.at.wf(),
{
    if i < gamekeys.len() {
        let gamekey = gamekeys[i].clone();
        move_to(
            SyncAt::Walking { gamekeys, i, tries: Tries::First { may_heal: !tally.mend.healed } },
            tally,
            SyncRequest::ReadOrder { gamekey },
        )
    } else {
        move_to(SyncAt::Scanning, tally, SyncRequest::Scan)
    }
}

fn break_off(tally: Tally) -> (out: SyncStep)
    ensures
        out.breaks_off(tally),
        out.at.wf(),
{
    SyncStep {
        at: SyncAt::Scanning,
        tally: Tally { mend: Mend { healed: tally.mend.healed, cookie_ok: false }, ..tally },
        tell_dead: true,
        request: SyncRequest::Scan,
    }
}

fn finish(tally: Tally, pulls: u32, rows_failed: u32) -> (out: SyncStep)
    ensures
        finishes(out, tally, pulls, rows_failed),
        out.at.wf(),
{
    let message = if tally.mend.cookie_ok {
        summary_line(tally.games_written, tally.orders_failed, pulls, rows_failed)
    } else {
        String::from_str(COOKIE_DEAD_SUMMARY)
    };
    record(
        tally,
        false,
        tally.mend.cookie_ok && tally.orders_failed == 0,
        tally.mend.cookie_ok,
        tally.games_written,
        message,
    )
}

/// Whether `out` is the first turn of a run.
pub open spec fn sync_starts(out: SyncStep) -> bool {
    out.moves(
        SyncAt::Sweeping,
        Tally {
            mend: Mend { healed: false, cookie_ok: true },
            games_written: 0,
            orders_failed: 0,
            private_pinged: false,
        },
        SyncRequest::Sweep,
    )
}

/// The first turn of a run.
pub fn start_sync() -> (out: SyncStep)
    ensures
        sync_starts(out),
        out.at.wf(),
{
    move_to(
        SyncAt::Sweeping,
        Tally {
            mend: Mend { healed: false, cookie_ok: true },
            games_written: 0,
            orders_failed: 0,
            private_pinged: false,
        },
        SyncRequest::Sweep,
    )
}

fn sync_turn(at: SyncAt, tally: Tally, reply: SyncReply) -> (out: SyncStep)
    requires
        at.wf(),
        at.expects(reply),
        counts_fit(tally, reply),
    ensures
        sync_follows(out, at, tally, reply),
        out.at.wf(),
{
    match (at, reply) {
        (SyncAt::Sweeping, SyncReply::Swept) => move_to(
            SyncAt::ReadingState,
            tally,
            SyncRequest::ReadState,
        ),
        (SyncAt::ReadingState, SyncReply::State(pinged)) => {
            let private_pinged: bool = match pinged {
                Some(p) => p,
                None => false,
            };
            move_to(
                SyncAt::Listing { tries: Tries::First { may_heal: true } },
                Tally { private_pinged, ..tally },
                SyncRequest::ListOrders,
            )
        },
        (SyncAt::Listing { tries }, SyncReply::Listed(r)) => match r {
            Ok(gamekeys) => move_to(
                SyncAt::Reconciling { then: AfterReconcile::Walk { gamekeys } },
                tally,
                SyncRequest::Reconcile,
            ),
            Err((HumbleError::Unauthorized, _)) => if matches!(tries, Tries::First { may_heal: true }) {
                move_to(SyncAt::ListHealing, tally, SyncRequest::Login)
            } else {
                record(
                    tally,
                    true,
                    false,
                    false,
                    0,
                    String::from_str("humble session cookie is dead"),
                )
            },
            Err((_, error)) => move_to(
                SyncAt::Reconciling { then: AfterReconcile::Fail { error } },
                tally,
                SyncRequest::Reconcile,
            ),
        },
        (SyncAt::ListHealing, SyncReply::LoggedIn(h)) => {
            let t = Tally { mend: Mend { healed: true, cookie_ok: h.durable() }, ..tally };
            if h.usable() {
                move_to(
                    SyncAt::Listing { tries: Tries::Again(h) },
                    t,
                    SyncRequest::ListOrders,
                )
            } else {
                record(
                    t,
                    true,
                    false,
                    false,
                    0,
                    String::from_str("humble session cookie is dead"),
                )
            }
        },
        (SyncAt::Reconciling { then }, SyncReply::Reconciled(mend)) => {
            let t = Tally { mend, ..tally };
            match then {
                AfterReconcile::Walk { gamekeys } => walk(gamekeys, 0, t),
                AfterReconcile::Fail { error } => record(
                    t,
                    false,
                    false,
                    mend.cookie_ok,
                    0,
                    String::from_str("sync failed listing orders: ").concat(error.as_str()),
                ),
            }
        },
        (SyncAt::Walking { gamekeys, i, tries }, SyncReply::Order(r)) => match r {
            Ok(order) => move_to(
                SyncAt::Storing { gamekeys, i },
                tally,
                SyncRequest::StoreOrder(order),
            ),
            Err(HumbleError::Unauthorized) => if matches!(tries, Tries::First { may_heal: true }) {
                move_to(SyncAt::WalkHealing { gamekeys, i }, tally, SyncRequest::Login)
            } else {
                break_off(tally)
            },
            Err(_) => {
                let n: usize = gamekeys.len();
                assert(gamekeys@.len() == n);
                walk(gamekeys, i + 1, Tally { orders_failed: tally.orders_failed + 1, ..tally })
            },
        },
        (SyncAt::WalkHealing { gamekeys, i }, SyncReply::LoggedIn(h)) => {
            let t = Tally { mend: Mend { healed: true, cookie_ok: h.durable() }, ..tally };
            if h.usable() {
                let gamekey = gamekeys[i].clone();
                move_to(
                    SyncAt::Walking { gamekeys, i, tries: Tries::Again(h) },
                    t,
                    SyncRequest::ReadOrder { gamekey },
                )
            } else {
                break_off(t)
            }
        },
        (SyncAt::Storing { gamekeys, i }, SyncReply::Stored { written, failed }) => {
            let n: usize = gamekeys.len();
            assert(gamekeys@.len() == n);
            let orders_failed: u32 = if failed {
                tally.orders_failed + 1
            } else {
                tally.orders_failed
            };
            walk(
                gamekeys,
                i + 1,
                Tally { games_written: tally.games_written + written, orders_failed, ..tally },
            )
        },
        (SyncAt::Scanning, SyncReply::Scanned(ok)) => if ok {
            move_to(SyncAt::Mapping, tally, SyncRequest::MapTitles)
        } else {
            move_to(SyncAt::Discovering { scanned: false }, tally, SyncRequest::Discover)
        },
        (SyncAt::Mapping, SyncReply::Mapped) => move_to(
            SyncAt::Owning,
            tally,
            SyncRequest::RefreshOwnership,
        ),
        (SyncAt::Owning, SyncReply::Owned { private_pinged }) => move_to(
            SyncAt::Discovering { scanned: true },
            Tally { private_pinged, ..tally },
            SyncRequest::Discover,
        ),
        (SyncAt::Discovering { scanned }, SyncReply::Discovered { mend, written }) => move_to(
            SyncAt::Enriching { scanned },
            Tally { mend, games_written: tally.games_written + written, ..tally },
            SyncRequest::Enrich,
        ),
        (SyncAt::Enriching { scanned }, SyncReply::Enriched) => if scanned {
            move_to(SyncAt::Auditing, tally, SyncRequest::Audit)
        } else {
            finish(tally, 0, 0)
        },
        (SyncAt::Auditing, SyncReply::Audited { pulls, rows_failed }) => finish(
            tally,
            pulls,
            rows_failed,
        ),
        (SyncAt::Persisting, SyncReply::Persisted) => move_to(
            SyncAt::Over,
            tally,
            SyncRequest::Done,
        ),
        _ => {
            assert(false);
            move_to(SyncAt::Over, tally, SyncRequest::Done)
        },
    }
}

// ---- What a run learns from the orders --------------------------------------------------------

/// What a run has learned from the orders that it could read.
pub struct Learned {
    pub index: OrderIndex,
    pub truth: Truth,
}

/// What is known of the keys once the first `n` keys of an order have been looked at.
pub open spec fn with_keys(
    truth: Map<(Seq<char>, Seq<char>), KeyEntry>,
    gamekey: Seq<char>,
    keys: Seq<KeyEntry>,
    n: nat,
) -> Map<(Seq<char>, Seq<char>), KeyEntry>
    decreases n,
{
    if n == 0 {
        truth
    } else {
        with_keys(truth, gamekey, keys, (n - 1) as nat).insert(
            (gamekey, keys[n - 1].machine_name@),
            keys[n - 1],
        )
    }
}

/// Whether `out` is `was` with an order noted: its keys, the product it belongs to, and what it says
/// of each key.
pub open spec fn is_noted(out: Learned, was: Learned, order: Order) -> bool {
    &&& out.index.keys() == was.index.keys().insert(order.gamekey@, names(order.keys@))
    &&& out.index.orders() == if order.product_machine_name@.len() == 0 {
        was.index.orders()
    } else {
        was.index.orders().insert(order.product_machine_name@, order.gamekey@)
    }
    &&& out.truth@ == with_keys(
        was.truth@,
        order.gamekey@,
        order.keys@,
        order.keys@.len(),
    )
}

/// What follows a reply for what is learned: an order is noted when it has come, and nothing else is.
pub open spec fn learned_follows(out: Learned, was: Learned, reply: SyncReply) -> bool {
    match reply {
        SyncReply::Order(Ok(order)) => is_noted(out, was, order),
        _ => out == was,
    }
}

/// Nothing is learned yet.
pub open spec fn is_unlearned(l: Learned) -> bool {
    &&& l.index.keys() == Map::<Seq<char>, Seq<Seq<char>>>::empty()
    &&& l.index.orders() == Map::<Seq<char>, Seq<char>>::empty()
    &&& l.truth@ == Map::<(Seq<char>, Seq<char>), KeyEntry>::empty()
}

impl Learned {
    pub fn new() -> (r: Learned)
        ensures
            is_unlearned(r),
    {
        Learned { index: OrderIndex::new(), truth: Truth::new() }
    }

    /// Notes an order that was read.
    fn note(&mut self, order: &Order)
        ensures
            is_noted(*final(self), *old(self), *order),
    {
        self.index.record(order);
        let ghost after = self.index;
        for i in 0..order.keys.len()
            invariant
                self.index == after,
                self.truth@ == with_keys(
                    old(self).truth@,
                    order.gamekey@,
                    order.keys@,
                    i as nat,
                ),
        {
            self.truth.record(order.gamekey.as_str(), &order.keys[i]);
        }
    }
}

/// The turn of a run that follows a reply, and what is learned from then on.
pub fn run_sync(at: SyncAt, tally: Tally, learned: Learned, reply: SyncReply) -> (r: (
    Learned,
    SyncStep,
))
    requires
        at.wf(),
        at.expects(reply),
        counts_fit(tally, reply),
    ensures
        learned_follows(r.0, learned, reply),
        sync_follows(r.1, at, tally, reply),
        r.1.at.wf(),
{
    let mut learned = learned;
    if let SyncReply::Order(Ok(order)) = &reply {
        learned.note(order);
    }
    (learned, sync_turn(at, tally, reply))
}

// ---- Whether a run is taken up ----------------------------------------------------------------

/// Whether a request to sync is taken up: only one run goes on at a time, and a marker that cannot
/// be read counts as held.
pub open spec fn is_free(started: Result<bool, ()>) -> bool {
    started == Ok::<bool, ()>(true)
}

/// A run starts only where its marker could be set: neither beside another, nor in the dark.
pub proof fn a_run_starts_alone()
    ensures
        is_free(Ok(true)),
        !is_free(Ok(false)),
        !is_free(Err(())),
{
}

/// Whether a request to sync is taken up.
pub fn handle_sync(started: Result<bool, ()>) -> (r: bool)
    ensures
        r <==> is_free(started),
{
    match started {
        Ok(s) => s,
        Err(_) => false,
    }
}

// ---- What holds of every run ------------------------------------------------------------------

/// A call that may still lead to a login is made only by a run that has not tried to log in.
pub open spec fn logins_left(at: SyncAt, tally: Tally) -> bool {
    match at {
        SyncAt::Sweeping => !tally.mend.healed,
        SyncAt::ReadingState => !tally.mend.healed,
        SyncAt::Listing { tries } => tries == (Tries::First { may_heal: true })
            ==> !tally.mend.healed,
        SyncAt::ListHealing => !tally.mend.healed,
        SyncAt::Walking { tries, .. } => tries == (Tries::First { may_heal: true })
            ==> !tally.mend.healed,
        SyncAt::WalkHealing { .. } => !tally.mend.healed,
        _ => true,
    }
}

/// A stage that reports on the session has not forgotten a login.
pub open spec fn keeps_login(mend: Mend, reply: SyncReply) -> bool {
    &&& reply matches SyncReply::Reconciled(m) ==> (mend.healed ==> m.healed)
    &&& reply matches SyncReply::Discovered { mend: m, .. } ==> (mend.healed ==> m.healed)
}

/// Step `i + 1` is what follows step `i` and its reply.
pub open spec fn sync_goes_on(steps: Seq<SyncStep>, replies: Seq<SyncReply>, i: int) -> bool {
    &&& sync_follows(steps[i + 1], steps[i].at, steps[i].tally, replies[i])
    &&& keeps_login(steps[i].tally.mend, replies[i])
}

/// A run so far: its steps, and the replies between them.
pub open spec fn is_sync(steps: Seq<SyncStep>, replies: Seq<SyncReply>) -> bool {
    &&& steps.len() == replies.len() + 1
    &&& sync_starts(steps[0])
    &&& forall|i: int| 0 <= i < replies.len() ==> #[trigger] sync_goes_on(steps, replies, i)
}

/// A login is requested only where none was tried, and is remembered.
proof fn a_login_is_remembered(out: SyncStep, at: SyncAt, tally: Tally, reply: SyncReply)
    requires
        sync_follows(out, at, tally, reply),
        keeps_login(tally.mend, reply),
        logins_left(at, tally),
    ensures
        out.request is Login ==> !tally.mend.healed && (out.at is ListHealing || out.at
            is WalkHealing),
        (at is ListHealing || at is WalkHealing) ==> out.tally.mend.healed,
        tally.mend.healed ==> out.tally.mend.healed,
        logins_left(out.at, out.tally),
{
}

proof fn logins_stay_left(steps: Seq<SyncStep>, replies: Seq<SyncReply>, i: int)
    requires
        is_sync(steps, replies),
        0 <= i < steps.len(),
    ensures
        logins_left(steps[i].at, steps[i].tally),
    decreases i,
{
    if i > 0 {
        logins_stay_left(steps, replies, i - 1);
        assert(sync_goes_on(steps, replies, i - 1));
        a_login_is_remembered(
            steps[i],
            steps[i - 1].at,
            steps[i - 1].tally,
            replies[i - 1],
        );
    }
}

proof fn no_login_after_one(steps: Seq<SyncStep>, replies: Seq<SyncReply>, i: int, j: int)
    requires
        is_sync(steps, replies),
        0 <= i <= j < steps.len(),
        steps[i].tally.mend.healed,
    ensures
        steps[j].tally.mend.healed,
        i < j ==> !(steps[j].request is Login),
    decreases j - i,
{
    if i < j {
        no_login_after_one(steps, replies, i, j - 1);
        logins_stay_left(steps, replies, j - 1);
        assert(sync_goes_on(steps, replies, j - 1));
        a_login_is_remembered(
            steps[j],
            steps[j - 1].at,
            steps[j - 1].tally,
            replies[j - 1],
        );
    }
}

/// A run logs in at most once, and from then on every stage is told that it has.
pub proof fn a_sync_logs_in_at_most_once(
    steps: Seq<SyncStep>,
    replies: Seq<SyncReply>,
    i: int,
    j: int,
)
    requires
        is_sync(steps, replies),
        0 <= i < j < steps.len(),
        steps[i].request is Login,
    ensures
        !(steps[j].request is Login),
        steps[j].tally.mend.healed,
{
    assert(i > 0);
    logins_stay_left(steps, replies, i - 1);
    assert(sync_goes_on(steps, replies, i - 1));
    a_login_is_remembered(steps[i], steps[i - 1].at, steps[i - 1].tally, replies[i - 1]);
    logins_stay_left(steps, replies, i);
    assert(sync_goes_on(steps, replies, i));
    a_login_is_remembered(steps[i + 1], steps[i].at, steps[i].tally, replies[i]);
    no_login_after_one(steps, replies, i + 1, j);
}

/// What a run has learned after each of its replies.
pub open spec fn is_learning(learned: Seq<Learned>, replies: Seq<SyncReply>) -> bool {
    &&& learned.len() == replies.len() + 1
    &&& is_unlearned(learned[0])
    &&& forall|i: int| 0 <= i < replies.len() ==> #[trigger] learning_goes_on(learned, replies, i)
}

/// What is known after reply `i` follows from it.
pub open spec fn learning_goes_on(learned: Seq<Learned>, replies: Seq<SyncReply>, i: int) -> bool {
    learned_follows(learned[i + 1], learned[i], replies[i])
}

/// Whether a reply is the order, and the order holds a key of the name.
pub open spec fn brings_key(reply: SyncReply, gamekey: Seq<char>, machine_name: Seq<char>) -> bool {
    reply matches SyncReply::Order(Ok(order)) && order.gamekey@ == gamekey && exists|k: int|
        0 <= k < order.keys@.len() && (#[trigger] order.keys@[k]).machine_name@ == machine_name
}

proof fn keys_come_from_the_order(
    truth: Map<(Seq<char>, Seq<char>), KeyEntry>,
    gamekey: Seq<char>,
    keys: Seq<KeyEntry>,
    n: nat,
    id: (Seq<char>, Seq<char>),
)
    requires
        n <= keys.len(),
    ensures
        with_keys(truth, gamekey, keys, n).contains_key(id) ==> truth.contains_key(id) || (id.0
            == gamekey && exists|k: int|
            0 <= k < keys.len() && (#[trigger] keys[k]).machine_name@ == id.1),
    decreases n,
{
    if n > 0 {
        keys_come_from_the_order(truth, gamekey, keys, (n - 1) as nat, id);
        assert(keys[n - 1].machine_name@ == keys[n - 1].machine_name@);
    }
}

/// Only what was read is known: a key is known of only if its order came, with that key, and the keys
/// of an order only if it came. So an order that could not be read has left nothing.
pub proof fn only_what_was_read_is_known(
    learned: Seq<Learned>,
    replies: Seq<SyncReply>,
    n: int,
    gamekey: Seq<char>,
    machine_name: Seq<char>,
)
    requires
        is_learning(learned, replies),
        0 <= n < learned.len(),
    ensures
        learned[n].truth@.contains_key((gamekey, machine_name)) ==> exists|i: int|
            0 <= i < n && brings_key(#[trigger] replies[i], gamekey, machine_name),
        learned[n].index.keys().contains_key(gamekey) ==> exists|i: int|
            0 <= i < n && (#[trigger] replies[i] matches SyncReply::Order(Ok(order))
                && order.gamekey@ == gamekey),
    decreases n,
{
    if n > 0 {
        only_what_was_read_is_known(learned, replies, n - 1, gamekey, machine_name);
        assert(learning_goes_on(learned, replies, n - 1));
        match replies[n - 1] {
            SyncReply::Order(Ok(order)) => {
                keys_come_from_the_order(
                    learned[n - 1].truth@,
                    order.gamekey@,
                    order.keys@,
                    order.keys@.len(),
                    (gamekey, machine_name),
                );
                if learned[n].truth@.contains_key((gamekey, machine_name))
                    && !learned[n - 1].truth@.contains_key((gamekey, machine_name)) {
                    assert(brings_key(replies[n - 1], gamekey, machine_name));
                }
            },
            _ => {},
        }
    }
}

/// A run that is recorded as having gone well has a live cookie and no failed order; and a run in
/// which the owner's library was not looked at carries over what the last one knew of it.
pub proof fn a_good_run_had_no_failures(out: SyncStep, at: SyncAt, tally: Tally, reply: SyncReply)
    requires
        sync_follows(out, at, tally, reply),
    ensures
        out.request matches SyncRequest::Persist(s) ==> (s.ok ==> s.cookie_ok
            && out.tally.orders_failed == 0),
        out.request matches SyncRequest::Persist(s) ==> s.private_pinged
            == out.tally.private_pinged,
        !(at is ReadingState) && !(at is Owning) ==> out.tally.private_pinged
            == tally.private_pinged,
{
}

/// How far a run has to go at most, with `n` orders.
pub open spec fn sync_rank(at: SyncAt, n: int) -> int {
    match at {
        SyncAt::Sweeping => 4 * n + 20,
        SyncAt::ReadingState => 4 * n + 19,
        SyncAt::Listing { tries: Tries::First { .. } } => 4 * n + 18,
        SyncAt::ListHealing => 4 * n + 17,
        SyncAt::Listing { tries: Tries::Again(_) } => 4 * n + 16,
        SyncAt::Reconciling { .. } => 4 * n + 15,
        SyncAt::Walking { i, tries: Tries::First { .. }, .. } => 4 * (n - i) + 10,
        SyncAt::WalkHealing { i, .. } => 4 * (n - i) + 9,
        SyncAt::Walking { i, tries: Tries::Again(_), .. } => 4 * (n - i) + 8,
        SyncAt::Storing { i, .. } => 4 * (n - i) + 7,
        SyncAt::Scanning => 8,
        SyncAt::Mapping => 7,
        SyncAt::Owning => 6,
        SyncAt::Discovering { .. } => 5,
        SyncAt::Enriching { .. } => 4,
        SyncAt::Auditing => 3,
        SyncAt::Persisting => 2,
        SyncAt::Over => 0,
    }
}

/// How many orders a place knows of.
pub open spec fn orders_at(at: SyncAt, n: nat) -> bool {
    match at {
        SyncAt::Reconciling { then: AfterReconcile::Walk { gamekeys } } => gamekeys@.len() == n,
        SyncAt::Walking { gamekeys, .. } => gamekeys@.len() == n,
        SyncAt::WalkHealing { gamekeys, .. } => gamekeys@.len() == n,
        SyncAt::Storing { gamekeys, .. } => gamekeys@.len() == n,
        _ => true,
    }
}

/// Every run ends, and is recorded before it does: each reply brings it closer.
pub proof fn every_sync_ends(out: SyncStep, at: SyncAt, tally: Tally, reply: SyncReply, n: nat)
    requires
        sync_follows(out, at, tally, reply),
        at.wf(),
        orders_at(at, n),
        reply matches SyncReply::Listed(Ok(gamekeys)) ==> gamekeys@.len() == n,
        n <= usize::MAX,
    ensures
        0 <= sync_rank(out.at, n as int) < sync_rank(at, n as int),
        orders_at(out.at, n),
        out.at is Over ==> at is Persisting,
{
}

} // verus!
