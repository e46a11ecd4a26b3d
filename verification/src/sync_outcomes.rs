//! What each reply leads to in a sync, in the terms of the reply and of what was counted before.
use vstd::prelude::*;
use crate::claim_flow::Tries;
use crate::humble::{HumbleError, KeyEntry, Order};
use crate::reconcile::Mend;
use crate::session::Heal;
use crate::sync::{
    enrich_millis, learned_follows, summary_text, sync_follows, with_keys, AfterReconcile, Learned,
    SyncAt, SyncReply, SyncRequest, SyncStep, Tally,
};
use crate::text::decimal;

verus! {

/// The run goes on quietly, and nothing has changed in its counts.
pub open spec fn goes_on_quietly(out: SyncStep, tally: Tally) -> bool {
    out.tally == tally && !out.tell_dead
}

/// A run whose stages are all done is recorded: as having gone well exactly if the cookie is alive and
/// no order failed; with the cookie's state, the number of games and the marker as they were counted;
/// and with a line that names the games, the failed orders, the rows that were pulled and those that
/// could not be, the last two only where there are any.
pub proof fn a_finished_run_is_recorded_as_it_went(out: SyncStep, tally: Tally, pulls: u32, rows: u32)
    requires
        sync_follows(
            out,
            SyncAt::Auditing,
            tally,
            SyncReply::Audited { pulls, rows_failed: rows },
        ) || (pulls == 0 && rows == 0 && sync_follows(
            out,
            SyncAt::Enriching { scanned: false },
            tally,
            SyncReply::Enriched,
        )),
    ensures
        out.at is Persisting,
        goes_on_quietly(out, tally),
        out.request matches SyncRequest::Persist(s) && {
            &&& s.ok <==> tally.mend.cookie_ok && tally.orders_failed == 0
            &&& s.cookie_ok == tally.mend.cookie_ok
            &&& s.games_written == tally.games_written
            &&& s.private_pinged == tally.private_pinged
            &&& s.message@ == if !tally.mend.cookie_ok {
                "humble session cookie is dead (or a refreshed one could not be persisted — see pings)"@
            } else {
                let head = "sync ok: "@ + decimal(tally.games_written as nat) + " written, "@
                    + decimal(tally.orders_failed as nat) + " order(s) failed"@;
                let pulled = ", "@ + decimal(pulls as nat) + " audit-pulled"@;
                let failed = ", "@ + decimal(rows as nat) + " audit row(s) failed"@;
                if pulls > 0 && rows > 0 {
                    head + pulled + failed
                } else if pulls > 0 {
                    head + pulled
                } else if rows > 0 {
                    head + failed
                } else {
                    head
                }
            }
        },
{
    let head = "sync ok: "@ + decimal(tally.games_written as nat) + " written, "@ + decimal(
        tally.orders_failed as nat,
    ) + " order(s) failed"@;
    let pulled = ", "@ + decimal(pulls as nat) + " audit-pulled"@;
    let failed = ", "@ + decimal(rows as nat) + " audit row(s) failed"@;
    let none = Seq::<char>::empty();
    assert(head + none =~= head);
    assert(head + none + none =~= head);
    assert(head + none + failed =~= head + failed);
    assert(head + pulled + none =~= head + pulled);
}

/// The list of orders. One that came leads to the pending claims and then to the orders, in the order
/// listed. A dead session leads to one login, and if it stays dead the run is recorded as failed, with
/// a dead cookie, and the operator is told. Any other failure still looks after the pending claims, and
/// is then recorded as one.
pub proof fn the_listing_decides(
    out: SyncStep,
    tally: Tally,
    tries: Tries,
    gamekeys: Vec<String>,
    e: HumbleError,
    error: String,
    mend: Mend,
)
    ensures
        sync_follows(out, SyncAt::Listing { tries }, tally, SyncReply::Listed(Ok(gamekeys)))
            ==> goes_on_quietly(out, tally) && out.request is Reconcile && out.at
            == (SyncAt::Reconciling { then: AfterReconcile::Walk { gamekeys } }),
        sync_follows(out, SyncAt::Listing { tries }, tally, SyncReply::Listed(Err((e, error))))
            ==> if e != HumbleError::Unauthorized {
            goes_on_quietly(out, tally) && out.request is Reconcile && out.at
                == (SyncAt::Reconciling { then: AfterReconcile::Fail { error } })
        } else if tries == (Tries::First { may_heal: true }) {
            goes_on_quietly(out, tally) && out.request is Login && out.at is ListHealing
        } else {
            out.tell_dead && out.at is Persisting && (out.request matches SyncRequest::Persist(s)
                && !s.ok && !s.cookie_ok && s.games_written == 0 && s.private_pinged
                == tally.private_pinged && s.message@ == "humble session cookie is dead"@)
        },
        sync_follows(
            out,
            SyncAt::Reconciling { then: AfterReconcile::Fail { error } },
            tally,
            SyncReply::Reconciled(mend),
        ) ==> !out.tell_dead && out.at is Persisting && (out.request matches SyncRequest::Persist(s)
            && !s.ok && s.cookie_ok == mend.cookie_ok && s.games_written == 0 && s.private_pinged
            == tally.private_pinged && s.message@ == "sync failed listing orders: "@ + error@),
{
}

/// Whether the run is at order `i`, and asks for it; or past the last one, and lists the games.
pub open spec fn is_at_order(out: SyncStep, gamekeys: Vec<String>, i: int, tally: Tally) -> bool {
    &&& out.tally == tally
    &&& if i < gamekeys@.len() {
        &&& out.at == (SyncAt::Walking {
            gamekeys,
            i: i as usize,
            tries: Tries::First { may_heal: !tally.mend.healed },
        })
        &&& out.request matches SyncRequest::ReadOrder { gamekey } && gamekey@ == gamekeys@[i]@
    } else {
        out.at is Scanning && out.request is Scan
    }
}

/// The orders are read one after the other. One that came is stored, and what was written of it is
/// counted; one that could not be read, or not be stored whole, is counted as failed; and the next one
/// follows. A dead session leads to a login where the run has had none; where it stays dead no more
/// orders are read, the operator is told, and the run goes on with what it has.
pub proof fn every_order_is_read_and_counted(
    out: SyncStep,
    tally: Tally,
    gamekeys: Vec<String>,
    i: usize,
    tries: Tries,
    order: Order,
    e: HumbleError,
    written: u32,
    failed: bool,
    mend: Mend,
)
    requires
        i < gamekeys@.len() <= usize::MAX,
        tally.orders_failed < u32::MAX,
        tally.games_written + written <= u32::MAX,
    ensures
        sync_follows(
            out,
            SyncAt::Reconciling { then: AfterReconcile::Walk { gamekeys } },
            tally,
            SyncReply::Reconciled(mend),
        ) ==> !out.tell_dead && is_at_order(out, gamekeys, 0, Tally { mend, ..tally }),
        sync_follows(
            out,
            SyncAt::Walking { gamekeys, i, tries },
            tally,
            SyncReply::Order(Ok(order)),
        ) ==> goes_on_quietly(out, tally) && out.at == (SyncAt::Storing { gamekeys, i })
            && out.request == SyncRequest::StoreOrder(order),
        sync_follows(
            out,
            SyncAt::Walking { gamekeys, i, tries },
            tally,
            SyncReply::Order(Err(e)),
        ) ==> if e != HumbleError::Unauthorized {
            !out.tell_dead && is_at_order(
                out,
                gamekeys,
                i + 1,
                Tally { orders_failed: (tally.orders_failed + 1) as u32, ..tally },
            )
        } else if tries == (Tries::First { may_heal: true }) {
            goes_on_quietly(out, tally) && out.request is Login && out.at
                == (SyncAt::WalkHealing { gamekeys, i })
        } else {
            out.tell_dead && out.at is Scanning && out.request is Scan && out.tally == (Tally {
                mend: Mend { healed: tally.mend.healed, cookie_ok: false },
                ..tally
            })
        },
        sync_follows(
            out,
            SyncAt::Storing { gamekeys, i },
            tally,
            SyncReply::Stored { written, failed },
        ) ==> !out.tell_dead && is_at_order(
            out,
            gamekeys,
            i + 1,
            Tally {
                games_written: (tally.games_written + written) as u32,
                orders_failed: if failed {
                    (tally.orders_failed + 1) as u32
                } else {
                    tally.orders_failed
                },
                ..tally
            },
        ),
{
}

/// A login is remembered, and the cookie counts as alive exactly if the new one was kept. One that
/// worked leads to the same call again; one that failed ends the list, or the walk.
pub proof fn a_login_leads_back(out: SyncStep, tally: Tally, gamekeys: Vec<String>, i: usize, heal: Heal)
    requires
        i < gamekeys@.len(),
    ensures
        sync_follows(out, SyncAt::ListHealing, tally, SyncReply::LoggedIn(heal)) ==> {
            &&& out.tally == (Tally {
                mend: Mend { healed: true, cookie_ok: heal == Heal::Persisted },
                ..tally
            })
            &&& if heal == Heal::Failed {
                out.tell_dead && out.at is Persisting && (out.request matches SyncRequest::Persist(s)
                    && !s.ok && !s.cookie_ok)
            } else {
                !out.tell_dead && out.at == (SyncAt::Listing { tries: Tries::Again(heal) })
                    && out.request is ListOrders
            }
        },
        sync_follows(
            out,
            SyncAt::WalkHealing { gamekeys, i },
            tally,
            SyncReply::LoggedIn(heal),
        ) ==> {
            &&& out.tally.mend.healed
            &&& out.tally.mend.cookie_ok == (heal == Heal::Persisted)
            &&& out.tally.games_written == tally.games_written
            &&& out.tally.orders_failed == tally.orders_failed
            &&& if heal == Heal::Failed {
                out.tell_dead && out.at is Scanning && out.request is Scan
            } else {
                !out.tell_dead && out.at == (SyncAt::Walking {
                    gamekeys,
                    i,
                    tries: Tries::Again(heal),
                }) && (out.request matches SyncRequest::ReadOrder { gamekey } && gamekey@
                    == gamekeys@[i as int]@)
            }
        },
{
}

/// The stages after the walk follow each other: titles and ownership only if the games could be
/// listed, then the monthly games, the apps, and the audit, again only if the games could be listed.
/// What the monthly games have added is counted, and what was learned of the session is kept.
pub proof fn the_stages_follow_each_other(
    out: SyncStep,
    tally: Tally,
    ok: bool,
    pinged: bool,
    marker: Option<bool>,
    mend: Mend,
    written: u32,
)
    requires
        tally.games_written + written <= u32::MAX,
    ensures
        sync_follows(out, SyncAt::Sweeping, tally, SyncReply::Swept) ==> goes_on_quietly(out, tally)
            && out.at is ReadingState && out.request is ReadState,
        sync_follows(out, SyncAt::ReadingState, tally, SyncReply::State(marker)) ==> {
            &&& !out.tell_dead
            &&& out.at == (SyncAt::Listing { tries: Tries::First { may_heal: true } })
            &&& out.request is ListOrders
            &&& out.tally == (Tally { private_pinged: marker == Some(true), ..tally })
        },
        sync_follows(out, SyncAt::Scanning, tally, SyncReply::Scanned(ok)) ==> goes_on_quietly(
            out,
            tally,
        ) && if ok {
            out.at is Mapping && out.request is MapTitles
        } else {
            out.at == (SyncAt::Discovering { scanned: false }) && out.request is Discover
        },
        sync_follows(out, SyncAt::Mapping, tally, SyncReply::Mapped) ==> goes_on_quietly(out, tally)
            && out.at is Owning && out.request is RefreshOwnership,
        sync_follows(out, SyncAt::Owning, tally, SyncReply::Owned { private_pinged: pinged }) ==> {
            &&& !out.tell_dead
            &&& out.at == (SyncAt::Discovering { scanned: true })
            &&& out.request is Discover
            &&& out.tally == (Tally { private_pinged: pinged, ..tally })
        },
        sync_follows(
            out,
            SyncAt::Discovering { scanned: ok },
            tally,
            SyncReply::Discovered { mend, written },
        ) ==> {
            &&& !out.tell_dead
            &&& out.at == (SyncAt::Enriching { scanned: ok })
            &&& out.request is Enrich
            &&& out.tally == (Tally {
                mend,
                games_written: (tally.games_written + written) as u32,
                ..tally
            })
        },
        sync_follows(out, SyncAt::Enriching { scanned: true }, tally, SyncReply::Enriched)
            ==> goes_on_quietly(out, tally) && out.at is Auditing && out.request is Audit,
        sync_follows(out, SyncAt::Persisting, tally, SyncReply::Persisted) ==> out.at is Over
            && out.request is Done && !out.tell_dead,
{
}

/// The time for the last stage and the three minutes that are kept back make up what is left of the
/// run; where less than that is left there is none. A run without a deadline has a quarter of an hour.
pub proof fn the_margin_is_kept_back(deadline: u64, now: u64)
    ensures
        deadline == 0 ==> enrich_millis(deadline, now) + 180_000 == 900_000,
        deadline > 0 && deadline >= now + 180_000 ==> now + enrich_millis(deadline, now) + 180_000
            == deadline,
        deadline > 0 && deadline < now + 180_000 ==> enrich_millis(deadline, now) == 0,
{
}

// ---- What is learned --------------------------------------------------------------------------

/// All that an order says is known once it has come: the names of its keys, the product it is of, and of
/// each key what it says, by the last where several bear one name. What was known of other orders stays.
pub proof fn all_that_was_read_is_known(
    out: Learned,
    was: Learned,
    order: Order,
    k: int,
    other: (Seq<char>, Seq<char>),
)
    requires
        learned_follows(out, was, SyncReply::Order(Ok(order))),
        0 <= k < order.keys@.len(),
        forall|j: int|
            k < j < order.keys@.len() ==> (#[trigger] order.keys@[j]).machine_name@
                != order.keys@[k].machine_name@,
    ensures
        out.truth@.contains_key((order.gamekey@, order.keys@[k].machine_name@)),
        out.truth@[(order.gamekey@, order.keys@[k].machine_name@)] == order.keys@[k],
        out.index.keys().contains_key(order.gamekey@),
        out.index.keys()[order.gamekey@].len() == order.keys@.len(),
        out.index.keys()[order.gamekey@][k] == order.keys@[k].machine_name@,
        order.product_machine_name@.len() > 0 ==> out.index.orders().contains_key(
            order.product_machine_name@,
        ) && out.index.orders()[order.product_machine_name@] == order.gamekey@,
        other.0 != order.gamekey@ ==> (out.truth@.contains_key(other) <==> was.truth@.contains_key(
            other,
        )),
        other.0 != order.gamekey@ && was.truth@.contains_key(other) ==> out.truth@[other]
            == was.truth@[other],
{
    each_key_is_noted(was.truth@, order.gamekey@, order.keys@, order.keys@.len(), k, other);
}

proof fn each_key_is_noted(
    truth: Map<(Seq<char>, Seq<char>), KeyEntry>,
    gamekey: Seq<char>,
    keys: Seq<KeyEntry>,
    n: nat,
    k: int,
    other: (Seq<char>, Seq<char>),
)
    requires
        n <= keys.len(),
        0 <= k < keys.len(),
        forall|j: int|
            k < j < keys.len() ==> (#[trigger] keys[j]).machine_name@ != keys[k].machine_name@,
    ensures
        ({
            let all = with_keys(truth, gamekey, keys, n);
            let id = (gamekey, keys[k].machine_name@);
            &&& k < n ==> all.contains_key(id) && all[id] == keys[k]
            &&& other.0 != gamekey ==> (all.contains_key(other) <==> truth.contains_key(other)) && all[other]
                == truth[other]
        }),
    decreases n,
{
    if n > 0 {
        each_key_is_noted(truth, gamekey, keys, (n - 1) as nat, k, other);
        if k < n - 1 {
            assert(keys[n - 1].machine_name@ != keys[k].machine_name@);
        }
    }
}

/// Nothing is learned from any other reply.
pub proof fn nothing_else_is_learned(out: Learned, was: Learned, reply: SyncReply)
    requires
        learned_follows(out, was, reply),
        !(reply matches SyncReply::Order(Ok(_))),
    ensures
        out == was,
{
}

/// A run is summed up by the games that were written and the orders that failed, then by the rows that
/// were pulled and those that could not be corrected, if there are any.
pub proof fn a_run_is_summed_up(written: nat, failed: nat, pulls: nat, rows: nat)
    requires
        pulls > 0,
        rows > 0,
    ensures
        ({
            let head = "sync ok: "@ + decimal(written) + " written, "@ + decimal(failed)
                + " order(s) failed"@;
            &&& summary_text(written, failed, 0, 0) == head
            &&& summary_text(written, failed, pulls, 0) == head + ", "@ + decimal(pulls)
                + " audit-pulled"@
            &&& summary_text(written, failed, 0, rows) == head + ", "@ + decimal(rows)
                + " audit row(s) failed"@
            &&& summary_text(written, failed, pulls, rows) == head + ", "@ + decimal(pulls)
                + " audit-pulled"@ + ", "@ + decimal(rows) + " audit row(s) failed"@
        }),
{
    let head = "sync ok: "@ + decimal(written) + " written, "@ + decimal(failed)
        + " order(s) failed"@;
    assert(summary_text(written, failed, 0, 0) =~= head);
    assert(summary_text(written, failed, pulls, 0) =~= head + ", "@ + decimal(pulls)
        + " audit-pulled"@);
    assert(summary_text(written, failed, 0, rows) =~= head + ", "@ + decimal(rows)
        + " audit row(s) failed"@);
    assert(summary_text(written, failed, pulls, rows) =~= head + ", "@ + decimal(pulls)
        + " audit-pulled"@ + ", "@ + decimal(rows) + " audit row(s) failed"@);
}

} // verus!
