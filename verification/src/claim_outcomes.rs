//! What each reply leads to in a claim's run, in the terms of the reply itself.
use vstd::prelude::*;
use crate::claim_flow::{
    is_job_of, named, named_is_exact, next, At, Call, ClaimFlavor, DeadReason, Effect, Job, Notice,
    Read, Reply, Request, Tries, Turn,
};
use crate::humble::{
    new_keys, new_pick, same_ignoring_case, titled, GiftUrl, HumbleError, KeyEntry, Order, Pick,
    RevealedKey,
};
use crate::model::{Claim, ClaimState, Game};
use crate::operator_message::ErrorSummary;
use crate::protocol::{
    Answer, ChoicePoint, FulfillRequest, FulfillResponse, Inconclusive, Park, PickInconclusive,
    Unrecorded,
};
use crate::select::{selected_first, selected_is_empty, selected_is_exact};
use crate::session::Heal;

verus! {

// ---- Names ------------------------------------------------------------------------------------

/// Two texts that differ in the case of ASCII letters at most have the same length, and where they
/// differ one has a capital and the other the small letter, 32 places on.
pub proof fn only_ascii_case_is_ignored(a: Seq<char>, b: Seq<char>)
    ensures
        same_ignoring_case(a, b) <==> a.len() == b.len() && forall|i: int|
            0 <= i < a.len() ==> {
                ||| #[trigger] a[i] == b[i]
                ||| 65 <= (a[i] as u32) <= 90 && (b[i] as u32) == (a[i] as u32) + 32
                ||| 65 <= (b[i] as u32) <= 90 && (a[i] as u32) == (b[i] as u32) + 32
            },
{
    assert forall|c: char, d: char|
        #![trigger crate::humble::ascii_lower(c), crate::humble::ascii_lower(d)]
        crate::humble::ascii_lower(c) == crate::humble::ascii_lower(d) <==> {
            ||| c == d
            ||| 65 <= (c as u32) <= 90 && (d as u32) == (c as u32) + 32
            ||| 65 <= (d as u32) <= 90 && (c as u32) == (d as u32) + 32
        } by {
        lower_is_32_on(c);
        lower_is_32_on(d);
    }
    if a.len() == b.len() {
        assert forall|i: int| 0 <= i < a.len() implies (crate::humble::ascii_lower(#[trigger] a[i])
            == crate::humble::ascii_lower(b[i]) <==> {
            ||| a[i] == b[i]
            ||| 65 <= (a[i] as u32) <= 90 && (b[i] as u32) == (a[i] as u32) + 32
            ||| 65 <= (b[i] as u32) <= 90 && (a[i] as u32) == (b[i] as u32) + 32
        }) by {}
    }
}

proof fn lower_is_32_on(c: char)
    ensures
        (crate::humble::ascii_lower(c) as u32) == if 65 <= (c as u32) <= 90 {
            ((c as u32) + 32) as u32
        } else {
            c as u32
        },
{
}

// ---- The barrier ------------------------------------------------------------------------------

/// The run ends with the claim left pending for the given reason, and nobody is told.
pub open spec fn parks_quietly(t: Turn, why: Park) -> bool {
    t.at is Over && t.effects.len() == 0 && t.request == Request::Answer(Answer::Parked(why))
}

/// A claim that is missing, unreadable, settled, or for another game is turned away, each for its own
/// reason; any other leads to its game.
pub proof fn the_claim_is_looked_at_first(job: Job, c: Claim, e: String)
    ensures
        parks_quietly(next(job, At::GateClaim, Reply::Claim(Read::Missing)), Park::ClaimNotFound),
        parks_quietly(
            next(job, At::GateClaim, Reply::Claim(Read::Failed(e))),
            Park::ClaimReadFailed(e),
        ),
        ({
            let t = next(job, At::GateClaim, Reply::Claim(Read::Found(c)));
            match c.state {
                ClaimState::Compensated => parks_quietly(
                    t,
                    Park::ClaimTerminal(ClaimState::Compensated),
                ),
                ClaimState::Failed => parks_quietly(t, Park::ClaimTerminal(ClaimState::Failed)),
                _ => if c.game_id@ == job.game_id@ {
                    t.at is GateGame && t.request is ReadGame && t.effects.len() == 0
                } else {
                    parks_quietly(t, Park::LinkageMismatch)
                },
            }
        }),
{
}

/// A game that is missing, unreadable, or belongs to another order is turned away; without a pick also
/// one whose key has another name or index. Any other leads to the key, or to the title for a pick.
pub proof fn the_game_is_looked_at_next(job: Job, g: Game, e: String)
    ensures
        parks_quietly(next(job, At::GateGame, Reply::Game(Read::Missing)), Park::GameMissing),
        parks_quietly(
            next(job, At::GateGame, Reply::Game(Read::Failed(e))),
            Park::GameReadFailed(e),
        ),
        ({
            let t = next(job, At::GateGame, Reply::Game(Read::Found(g)));
            let moved = g.machine_name@ != job.machine_name@ || g.keyindex != job.keyindex;
            if g.gamekey@ != job.gamekey@ {
                parks_quietly(t, Park::GamekeyDrift)
            } else if job.choice {
                t.at is Title && t.request is ReadGame && t.effects.len() == 0
            } else if moved {
                parks_quietly(t, Park::KeyDrift)
            } else {
                t.effects.len() == 0 && t.request == match job.flavor {
                    ClaimFlavor::Gift => Request::Redeem {
                        machine_name: job.machine_name,
                        keyindex: job.keyindex,
                    },
                    ClaimFlavor::SelfClaim => Request::Reveal {
                        machine_name: job.machine_name,
                        keyindex: job.keyindex,
                    },
                }
            }
        }),
        parks_quietly(
            next(job, At::Title, Reply::Game(Read::Missing)),
            Park::Choice(ChoicePoint::GameMissing),
        ),
        parks_quietly(
            next(job, At::Title, Reply::Game(Read::Failed(e))),
            Park::Choice(ChoicePoint::GameMissing),
        ),
        ({
            let t = next(job, At::Title, Reply::Game(Read::Found(g)));
            &&& t.request is ReadOrder
            &&& t.effects.len() == 0
            &&& t.at matches At::Calling { call: Call::PreRead { title }, tries } && title == g.title
                && tries == (Tries::First { may_heal: job.self_login })
        }),
{
}

// ---- A dead session ---------------------------------------------------------------------------

/// Whether a reply to a call of the key store says that the session is dead.
pub open spec fn says_dead(reply: Reply) -> bool {
    ||| reply matches Reply::Order(Err(HumbleError::Unauthorized))
    ||| reply matches Reply::Chosen(Err(HumbleError::Unauthorized))
    ||| reply matches Reply::Redeemed(Err(HumbleError::Unauthorized))
    ||| reply matches Reply::Revealed(Err(HumbleError::Unauthorized))
}

/// The run ends with the cookie marked as dead and the operator told.
pub open spec fn gives_the_session_up(t: Turn) -> bool {
    &&& t.at is Over
    &&& t.effects.len() == 2
    &&& t.effects[0] == Effect::CookieOk(false)
    &&& t.effects[1] == Effect::Tell(Notice::SessionDead)
    &&& t.request == Request::Answer(Answer::Parked(Park::SessionDead))
}

/// A dead session leads to a login where one is allowed. Where none is, where the login fails, and
/// where the call fails again after it, the session is given up. A login that worked leads to the same
/// call again.
pub proof fn a_dead_session_is_healed_or_given_up(
    job: Job,
    call: Call,
    tries: Tries,
    reply: Reply,
    heal: Heal,
)
    requires
        call.expects(job.flavor, reply),
        says_dead(reply),
    ensures
        ({
            let t = next(job, At::Calling { call, tries }, reply);
            if tries == (Tries::First { may_heal: true }) {
                t.at == (At::Healing { call }) && t.request is Login && t.effects.len() == 0
            } else {
                gives_the_session_up(t)
            }
        }),
        gives_the_session_up(next(job, At::Healing { call }, Reply::LoggedIn(Heal::Failed))),
        heal != Heal::Failed ==> {
            let t = next(job, At::Healing { call }, Reply::LoggedIn(heal));
            &&& t.at == (At::Calling { call, tries: Tries::Again(heal) })
            &&& t.effects.len() == 0
            &&& match call {
                Call::PreRead { .. } => t.request is ReadOrder,
                Call::ReRead { .. } => t.request is ReadOrder,
                Call::Choose { .. } => t.request == (Request::Choose {
                    gift: job.flavor == ClaimFlavor::Gift,
                }),
                Call::Burn { machine_name, keyindex } => t.request == match job.flavor {
                    ClaimFlavor::Gift => Request::Redeem { machine_name, keyindex },
                    ClaimFlavor::SelfClaim => Request::Reveal { machine_name, keyindex },
                },
            }
        },
{
}

/// A call that gets through after a login first marks the cookie: as alive exactly if the new cookie
/// was kept. Without a login it is not marked at all.
pub proof fn the_cookie_is_marked_after_a_login(job: Job, call: Call, tries: Tries, reply: Reply)
    requires
        call.expects(job.flavor, reply),
        !says_dead(reply),
    ensures
        ({
            let fx = next(job, At::Calling { call, tries }, reply).effects;
            &&& tries matches Tries::Again(h) ==> fx.len() > 0 && fx[0] == Effect::CookieOk(
                h == Heal::Persisted,
            )
            &&& forall|i: int|
                0 <= i < fx.len() && (i > 0 || tries is First) ==> (#[trigger] fx[i]) is Tell
        }),
{
}

// ---- Recovering a key -------------------------------------------------------------------------

/// The value that is saved in place of a key that was revealed before is that of a key of the order
/// with the name that the run recovers. If the first key of that name has a value, that is the one,
/// and once it is saved it is the answer; else the operator is told.
pub proof fn a_recovered_key_is_the_claims_own(job: Job, machine_name: String, order: Order)
    ensures
        ({
            let t = next(job, At::Recovering { machine_name }, Reply::Order(Ok(order)));
            let keys = order.keys@;
            &&& t.at matches At::SavingKey { key } ==> t.request == Request::SaveKey(key)
                && exists|i: int|
                0 <= i < keys.len() && (#[trigger] keys[i]).machine_name@ == machine_name@
                    && keys[i].redeemed_key_val == Some(key)
            &&& forall|i: int|
                0 <= i < keys.len() && (#[trigger] keys[i]).machine_name@ == machine_name@ && (
                forall|j: int|
                    0 <= j < i ==> (#[trigger] keys[j]).machine_name@ != machine_name@) ==> {
                    match keys[i].redeemed_key_val {
                        Some(key) => t.at == (At::SavingKey { key }) && t.request
                            == Request::SaveKey(key) && t.effects.len() == 0 && next(
                            job,
                            t.at,
                            Reply::Written(Ok(())),
                        ).request == Request::Answer(Answer::RevealedKey(key)),
                        None => t.at is Over,
                    }
                }
            &&& (forall|i: int|
                0 <= i < keys.len() ==> (#[trigger] keys[i]).machine_name@ != machine_name@)
                ==> t.at is Over
            &&& t.at is SavingKey || {
                &&& t.at is Over
                &&& t.effects == seq![Effect::Tell(Notice::NoKeyValue { machine_name })]
                &&& t.request == Request::Answer(Answer::Parked(Park::NoRecoverableKey))
            }
        }),
        forall|e: HumbleError|
            parks_quietly(
                #[trigger] next(job, At::Recovering { machine_name }, Reply::Order(Err(e))),
                Park::RecoverReadFailed,
            ),
{
    let keys = order.keys@;
    let name = machine_name@;
    named_is_exact(keys, name, keys.len());
    let at = named(keys, name, keys.len());
    if at.len() > 0 {
        assert(keys[at[0]].machine_name@ == name);
    }
    assert forall|i: int|
        0 <= i < keys.len() && (#[trigger] keys[i]).machine_name@ == name && (forall|j: int|
            0 <= j < i ==> (#[trigger] keys[j]).machine_name@ != name) implies at.len() > 0 && at[0]
        == i by {
        first_named_is_first(keys, name, keys.len(), i);
    }
}

pub proof fn first_named_is_first(keys: Seq<KeyEntry>, name: Seq<char>, n: nat, i: int)
    requires
        0 <= i < n <= keys.len(),
        keys[i].machine_name@ == name,
        forall|j: int| 0 <= j < i ==> (#[trigger] keys[j]).machine_name@ != name,
    ensures
        named(keys, name, n).len() > 0,
        named(keys, name, n)[0] == i,
    decreases n,
{
    let m = (n - 1) as nat;
    if i < m {
        first_named_is_first(keys, name, m, i);
    } else {
        named_is_exact(keys, name, m);
        if named(keys, name, m).len() > 0 {
            assert(keys[named(keys, name, m)[0]].machine_name@ == name);
        }
    }
}

// ---- Redeeming a key --------------------------------------------------------------------------

/// The effects without the mark of the cookie that a call after a login starts with.
pub open spec fn notices(t: Turn, tries: Tries) -> Seq<Effect> {
    match tries {
        Tries::Again(_) => t.effects.skip(1),
        _ => t.effects,
    }
}

/// What was won is saved before anything else is done.
pub proof fn what_was_won_is_saved(job: Job, machine_name: String, keyindex: u32, tries: Tries, s: String)
    ensures
        ({
            let at = At::Calling { call: Call::Burn { machine_name, keyindex }, tries };
            let t = next(job, at, Reply::Redeemed(Ok(GiftUrl(s))));
            let u = next(job, at, Reply::Revealed(Ok(RevealedKey(s))));
            &&& t.at == (At::SavingUrl { url: s }) && t.request == Request::SaveUrl(s)
            &&& u.at == (At::SavingKey { key: s }) && u.request == Request::SaveKey(s)
            &&& notices(t, tries).len() == 0 && notices(u, tries).len() == 0
        }),
{
}

/// Whether `t` is the turn that follows a redemption of the key `machine_name` that failed with `e`,
/// on a session that is alive.
pub open spec fn is_after_failure(t: Turn, job: Job, machine_name: String, tries: Tries, e: HumbleError) -> bool {
    let told = notices(t, tries);
    let gift = job.flavor == ClaimFlavor::Gift;
    let plain_self = !gift && !job.choice;
    let parked = |d: Inconclusive|
        t.at is Over && t.request == Request::Answer(
            Answer::Parked(
                if plain_self {
                    Park::RevealInconclusive(d)
                } else {
                    Park::RedeemInconclusive(d)
                },
            ),
        );
    match e {
        HumbleError::AlreadyRedeemed => if !gift {
            t.at == (At::Recovering { machine_name }) && t.request is ReadOrder && told.len() == 0
        } else if job.choice {
            t.at is Over && t.request == Request::Answer(Answer::Parked(Park::ChoiceAlreadyRedeemed))
                && told == seq![Effect::Tell(Notice::ChoiceAlreadyRedeemed)]
        } else {
            t.at is Compensating && t.request is Compensate && told.len() == 0
        },
        HumbleError::KeyExpired { msg, code } => {
            let reason = DeadReason::Said { msg, code };
            t.at == (At::Retiring { reason }) && t.request == (Request::Retire {
                own: job.link_token@ == "SELF"@,
                reason,
            }) && told.len() == 0
        },
        HumbleError::RedeemRefused { .. } => parked(Inconclusive::Refused) && told.len() == 0,
        HumbleError::AmbiguousRedeem => parked(Inconclusive::Ambiguous) && told.len() == 0,
        HumbleError::RateLimited => parked(Inconclusive::RateLimited) && told.len() == 0,
        HumbleError::RedeemAuthRejected { status, csrf_minted } => parked(Inconclusive::AuthRejected)
            && told == if plain_self {
            seq![]
        } else {
            seq![Effect::Tell(Notice::AuthRejected { machine_name, status, csrf_minted })]
        },
        HumbleError::SecureAreaStepUpFailed { reason } => parked(Inconclusive::StepUpFailed) && told
            == seq![Effect::Tell(Notice::StepUpFailed { machine_name, reason })],
        _ => parked(Inconclusive::Transient) && told.len() == 0,
    }
}

/// What a redemption that failed leads to, error by error. Only a friend's plain claim gives its slot
/// back, and only for a key that was redeemed before; the owner's is looked for in the order. Only an
/// expired key is retired. Everything else is left to a later look.
pub proof fn each_failure_has_its_outcome(
    job: Job,
    machine_name: String,
    keyindex: u32,
    tries: Tries,
    e: HumbleError,
)
    requires
        e != HumbleError::Unauthorized,
    ensures
        ({
            let at = At::Calling { call: Call::Burn { machine_name, keyindex }, tries };
            let t = match job.flavor {
                ClaimFlavor::Gift => next(job, at, Reply::Redeemed(Err(e))),
                ClaimFlavor::SelfClaim => next(job, at, Reply::Revealed(Err(e))),
            };
            is_after_failure(t, job, machine_name, tries, e)
        }),
{
    let at = At::Calling { call: Call::Burn { machine_name, keyindex }, tries };
    let t = match job.flavor {
        ClaimFlavor::Gift => next(job, at, Reply::Redeemed(Err(e))),
        ClaimFlavor::SelfClaim => next(job, at, Reply::Revealed(Err(e))),
    };
    let told = notices(t, tries);
    assert(told =~= match e {
        HumbleError::AlreadyRedeemed => if job.flavor == ClaimFlavor::Gift && job.choice {
            seq![Effect::Tell(Notice::ChoiceAlreadyRedeemed)]
        } else {
            seq![]
        },
        HumbleError::RedeemAuthRejected { status, csrf_minted } => if job.flavor
            == ClaimFlavor::SelfClaim && !job.choice {
            seq![]
        } else {
            seq![Effect::Tell(Notice::AuthRejected { machine_name, status, csrf_minted })]
        },
        HumbleError::SecureAreaStepUpFailed { reason } => seq![
            Effect::Tell(Notice::StepUpFailed { machine_name, reason }),
        ],
        _ => seq![],
    });
}

/// What the last write leads to. A link or a key is handed out, a slot counted as given back and a
/// claim as failed only if it was written; else the operator is told, and of a dead key the claim stays
/// pending.
pub proof fn the_last_write_decides(job: Job, s: String, reason: DeadReason, e: ErrorSummary)
    ensures
        ({
            let ok = Reply::Written(Ok(()));
            let bad = Reply::Written(Err(e));
            let answers = |t: Turn, a: Answer, fx: Seq<Effect>|
                t.at is Over && t.request == Request::Answer(a) && t.effects == fx;
            let none = Seq::<Effect>::empty();
            &&& answers(next(job, At::SavingUrl { url: s }, ok), Answer::GiftUrl(s), none)
            &&& answers(
                next(job, At::SavingUrl { url: s }, bad),
                Answer::Unrecorded(Unrecorded::Gift),
                seq![Effect::Tell(Notice::UrlUnsaved(e))],
            )
            &&& answers(next(job, At::SavingKey { key: s }, ok), Answer::RevealedKey(s), none)
            &&& answers(
                next(job, At::SavingKey { key: s }, bad),
                Answer::Unrecorded(Unrecorded::Key),
                seq![Effect::Tell(Notice::KeyUnsaved(e))],
            )
            &&& answers(next(job, At::Compensating, ok), Answer::AlreadyRedeemed, none)
            &&& answers(
                next(job, At::Compensating, bad),
                Answer::Unrecorded(Unrecorded::Compensation),
                seq![Effect::Tell(Notice::CompensateFailed(e))],
            )
            &&& answers(
                next(job, At::Retiring { reason }, ok),
                Answer::KeyDead,
                seq![Effect::Tell(Notice::KeyDead { cause: reason })],
            )
            &&& answers(
                next(job, At::Retiring { reason }, bad),
                Answer::Parked(Park::DeadKeyUnrecorded),
                seq![
                    Effect::Tell(
                        Notice::RetireFailed {
                            marked: reason is MarkedExpired,
                            error: e,
                        },
                    ),
                ],
            )
        }),
{
}

// ---- Spending a pick --------------------------------------------------------------------------

/// Whether `t` redeems `key`, or retires it, without a redemption, where the order marks it as expired.
pub open spec fn takes_key(t: Turn, job: Job, key: KeyEntry, may_heal: bool) -> bool {
    if key.expired {
        let reason = DeadReason::MarkedExpired { machine_name: key.machine_name };
        t.at == (At::Retiring { reason }) && t.request == (Request::Retire {
            own: job.link_token@ == "SELF"@,
            reason,
        })
    } else {
        &&& t.at == (At::Calling {
            call: Call::Burn { machine_name: key.machine_name, keyindex: key.keyindex },
            tries: Tries::First { may_heal },
        })
        &&& t.request == match job.flavor {
            ClaimFlavor::Gift => Request::Redeem {
                machine_name: key.machine_name,
                keyindex: key.keyindex,
            },
            ClaimFlavor::SelfClaim => Request::Reveal {
                machine_name: key.machine_name,
                keyindex: key.keyindex,
            },
        }
    }
}

/// The order before a pick. If some key bears the title, the first such is at hand and no pick will be
/// spent; if none does, the pick is prepared. Either way a snapshot is recorded first. An order that
/// cannot be read parks the claim.
pub proof fn the_order_is_searched_for_the_title(
    job: Job,
    title: String,
    tries: Tries,
    order: Order,
    e: HumbleError,
)
    ensures
        ({
            let at = At::Calling { call: Call::PreRead { title }, tries };
            let t = next(job, at, Reply::Order(Ok(order)));
            let keys = order.keys@;
            let may = tries == (Tries::First { may_heal: true });
            &&& t.request is RecordIntent
            &&& notices(t, tries).len() == 0
            &&& forall|i: int|
                0 <= i < keys.len() && same_ignoring_case(
                    (#[trigger] keys[i]).human_name@,
                    title@,
                ) && (forall|j: int|
                    0 <= j < i ==> !same_ignoring_case(
                        (#[trigger] keys[j]).human_name@,
                        title@,
                    )) && i <= usize::MAX ==> t.at == (At::Resuming {
                    title,
                    order,
                    found: i as usize,
                    may_heal: may,
                })
            &&& (forall|i: int|
                0 <= i < keys.len() ==> !same_ignoring_case(
                    (#[trigger] keys[i]).human_name@,
                    title@,
                )) ==> t.at == (At::Intending { title, order, may_heal: may })
            &&& e != HumbleError::Unauthorized ==> {
                let u = next(job, at, Reply::Order(Err(e)));
                u.at is Over && notices(u, tries).len() == 0 && u.request == Request::Answer(
                    Answer::Parked(Park::Choice(ChoicePoint::PreRead)),
                )
            }
        }),
{
    let keys = order.keys@;
    let p = |i: int| same_ignoring_case(keys[i].human_name@, title@);
    selected_is_empty(keys.len(), p);
    assert forall|i: int|
        0 <= i < keys.len() && same_ignoring_case((#[trigger] keys[i]).human_name@, title@) && (
        forall|j: int|
            0 <= j < i ==> !same_ignoring_case(
                (#[trigger] keys[j]).human_name@,
                title@,
            )) implies crate::claim_flow::bearing(keys, title@, keys.len()).len() > 0
        && crate::claim_flow::bearing(keys, title@, keys.len())[0] == i by {
        assert(p(i));
        assert forall|j: int| 0 <= j < i implies !#[trigger] p(j) by {
            assert(!same_ignoring_case(keys[j].human_name@, title@));
        }
        selected_first(keys.len(), p, i);
    }
    if forall|i: int|
        0 <= i < keys.len() ==> !same_ignoring_case((#[trigger] keys[i]).human_name@, title@) {
        assert forall|i: int| 0 <= i < keys.len() implies !#[trigger] p(i) by {
            assert(!same_ignoring_case(keys[i].human_name@, title@));
        }
    }
}

/// What is recorded before a pick: every key's name, save that a key that is already there for the
/// title, and is to be used, is left out.
pub proof fn the_snapshot_leaves_out_the_key_at_hand(
    title: String,
    order: Order,
    found: usize,
    may_heal: bool,
    i: int,
)
    requires
        found < order.keys@.len(),
        0 <= i < order.keys@.len(),
    ensures
        (At::Intending { title, order, may_heal }).snapshot_names().contains(
            order.keys@[i].machine_name@,
        ),
        (At::Resuming { title, order, found, may_heal }).snapshot_names().contains(
            order.keys@[i].machine_name@,
        ) <==> order.keys@[i].machine_name@ != order.keys@[found as int].machine_name@,
{
    let keys = order.keys@;
    let name = keys[found as int].machine_name@;
    let all = (At::Intending { title, order, may_heal }).snapshot_names();
    assert(all[i] == keys[i].machine_name@);
    let at = crate::claim_flow::not_named(keys, name, keys.len());
    let some = (At::Resuming { title, order, found, may_heal }).snapshot_names();
    not_named_is_exact(keys, name, keys.len());
    if keys[i].machine_name@ != name {
        let k = choose|k: int| 0 <= k < at.len() && at[k] == i;
        assert(some[k] == keys[i].machine_name@);
    }
    if some.contains(keys[i].machine_name@) {
        let k = choose|k: int| 0 <= k < some.len() && some[k] == keys[i].machine_name@;
        assert(keys[at[k]].machine_name@ != name);
    }
}

proof fn not_named_is_exact(keys: Seq<KeyEntry>, name: Seq<char>, n: nat)
    requires
        n <= keys.len(),
    ensures
        forall|k: int|
            0 <= k < crate::claim_flow::not_named(keys, name, n).len() ==> 0
                <= #[trigger] crate::claim_flow::not_named(keys, name, n)[k] < n
                && keys[crate::claim_flow::not_named(keys, name, n)[k]].machine_name@ != name,
        forall|i: int|
            0 <= i < n && (#[trigger] keys[i]).machine_name@ != name
                ==> crate::claim_flow::not_named(keys, name, n).contains(i),
    decreases n,
{
    if n > 0 {
        let m = (n - 1) as nat;
        not_named_is_exact(keys, name, m);
        let front = crate::claim_flow::not_named(keys, name, m);
        let all = crate::claim_flow::not_named(keys, name, n);
        assert forall|i: int|
            0 <= i < n && (#[trigger] keys[i]).machine_name@ != name implies all.contains(i) by {
            if i == n - 1 {
                assert(all[all.len() - 1] == i);
            } else {
                let k = choose|k: int| 0 <= k < front.len() && front[k] == i;
                assert(all[k] == i);
            }
        }
    }
}

/// After the snapshot for a title that is taken, the key at hand is used, as it is; one that was
/// redeemed before is looked for by the owner, and left to a person for a friend. After the snapshot
/// for a pick, the pick is spent. Where the snapshot was not written, nothing is.
pub proof fn the_snapshot_decides(
    job: Job,
    title: String,
    order: Order,
    found: usize,
    may_heal: bool,
    e: ErrorSummary,
)
    requires
        found < order.keys@.len(),
    ensures
        ({
            let taken = At::Resuming { title, order, found, may_heal };
            let free = At::Intending { title, order, may_heal };
            let key = order.keys@[found as int];
            let t = next(job, taken, Reply::Written(Ok(())));
            let u = next(job, free, Reply::Written(Ok(())));
            &&& parks_quietly(
                next(job, taken, Reply::Written(Err(e))),
                Park::Choice(ChoicePoint::ResumeIntentWrite),
            )
            &&& parks_quietly(
                next(job, free, Reply::Written(Err(e))),
                Park::Choice(ChoicePoint::IntentWrite),
            )
            &&& !key.redeemed ==> takes_key(t, job, key, may_heal) && t.effects.len() == 0
            &&& key.redeemed && job.flavor == ClaimFlavor::SelfClaim ==> t.at == (At::Recovering {
                machine_name: key.machine_name,
            }) && t.request is ReadOrder && t.effects.len() == 0
            &&& key.redeemed && job.flavor == ClaimFlavor::Gift ==> t.at is Over && t.request
                == Request::Answer(Answer::Parked(Park::Choice(ChoicePoint::AlreadyClaimedRedeemed)))
                && t.effects == seq![Effect::Tell(Notice::PickAlreadyRedeemed { title })]
            &&& u.at == (At::Calling {
                call: Call::Choose { title, before: order },
                tries: Tries::First { may_heal },
            })
            &&& u.request == (Request::Choose { gift: job.flavor == ClaimFlavor::Gift })
            &&& u.effects.len() == 0
        }),
{
}

/// What the outcome of a pick leads to: to the order, where it worked; else the claim is left pending,
/// error by error, and the operator is told of a refusal and of a login that did not complete.
pub proof fn each_pick_has_its_outcome(
    job: Job,
    title: String,
    before: Order,
    tries: Tries,
    e: HumbleError,
)
    requires
        e != HumbleError::Unauthorized,
    ensures
        ({
            let at = At::Calling { call: Call::Choose { title, before }, tries };
            let t = next(job, at, Reply::Chosen(Ok(())));
            let u = next(job, at, Reply::Chosen(Err(e)));
            let parked = |d: PickInconclusive|
                u.at is Over && u.request == Request::Answer(
                    Answer::Parked(Park::PickInconclusive(d)),
                );
            let told = notices(u, tries);
            &&& t.request is ReadOrder
            &&& t.at == (At::Calling {
                call: Call::ReRead { title, before },
                tries: Tries::First { may_heal: tries == (Tries::First { may_heal: true }) },
            })
            &&& notices(t, tries).len() == 0
            &&& match e {
                HumbleError::ChooseFailed { reason } => parked(PickInconclusive::Refused) && told
                    == seq![Effect::Tell(Notice::PickRefused { title, reason })],
                HumbleError::SecureAreaStepUpFailed { reason } => parked(
                    PickInconclusive::StepUpFailed,
                ) && told == seq![Effect::Tell(Notice::PickStepUpFailed { title, reason })],
                HumbleError::RateLimited => parked(PickInconclusive::RateLimited) && told.len()
                    == 0,
                HumbleError::Api(_) => parked(PickInconclusive::Api) && told.len() == 0,
                HumbleError::Network => parked(PickInconclusive::Network) && told.len() == 0,
                HumbleError::Parse => parked(PickInconclusive::Parse) && told.len() == 0,
                _ => parked(PickInconclusive::Transient) && told.len() == 0,
            }
        }),
{
    let at = At::Calling { call: Call::Choose { title, before }, tries };
    let u = next(job, at, Reply::Chosen(Err(e)));
    assert(notices(u, tries) =~= match e {
        HumbleError::ChooseFailed { reason } => seq![
            Effect::Tell(Notice::PickRefused { title, reason }),
        ],
        HumbleError::SecureAreaStepUpFailed { reason } => seq![
            Effect::Tell(Notice::PickStepUpFailed { title, reason }),
        ],
        _ => seq![],
    });
}

/// Whether a key of an order was not there before a pick.
pub open spec fn is_new(key: KeyEntry, before: Order) -> bool {
    forall|j: int|
        0 <= j < before.keys@.len() ==> (#[trigger] before.keys@[j]).machine_name@
            != key.machine_name@
}

/// The order after a pick. If one key alone is new it is used, whatever its title. If several are, the
/// only one among them that bears the title is. If none is new, or no title or several decide, the
/// operator is told and no key is touched.
pub proof fn the_new_key_is_used(
    job: Job,
    title: String,
    before: Order,
    after: Order,
    tries: Tries,
    i: int,
)
    requires
        0 <= i < after.keys@.len(),
        is_new(after.keys@[i], before),
    ensures
        ({
            let at = At::Calling { call: Call::ReRead { title, before }, tries };
            let t = next(job, at, Reply::Order(Ok(after)));
            let keys = after.keys@;
            let may = tries == (Tries::First { may_heal: true });
            let alone = forall|j: int|
                0 <= j < keys.len() && j != i ==> !is_new(#[trigger] keys[j], before);
            let titled = same_ignoring_case(keys[i].human_name@, title@);
            let only_titled = titled && forall|j: int|
                0 <= j < keys.len() && j != i && is_new(#[trigger] keys[j], before)
                    ==> !same_ignoring_case(keys[j].human_name@, title@);
            let no_title = forall|j: int|
                0 <= j < keys.len() && is_new(#[trigger] keys[j], before) ==> !same_ignoring_case(
                    keys[j].human_name@,
                    title@,
                );
            &&& alone || only_titled ==> takes_key(t, job, keys[i], may) && notices(
                t,
                tries,
            ).len() == 0
            &&& !alone && no_title ==> t.at is Over && notices(t, tries) == seq![
                Effect::Tell(Notice::AmbiguousTpk { title }),
            ] && t.request == Request::Answer(
                Answer::Parked(Park::Choice(ChoicePoint::AmbiguousTpk)),
            )
            &&& !alone && titled && !only_titled ==> t.at is Over && notices(t, tries) == seq![
                Effect::Tell(Notice::AmbiguousTpk { title }),
            ] && t.request == Request::Answer(
                Answer::Parked(Park::Choice(ChoicePoint::AmbiguousTpk)),
            )
        }),
{
    let at = At::Calling { call: Call::ReRead { title, before }, tries };
    let t = next(job, at, Reply::Order(Ok(after)));
    let pre = crate::claim_flow::names(before.keys@);
    newness(before, after.keys@);
    picks_are_exact(after.keys@, pre, title@, i);
    let keys = after.keys@;
    let alone = forall|j: int| 0 <= j < keys.len() && j != i ==> !is_new(#[trigger] keys[j], before);
    let alone2 = forall|j: int|
        0 <= j < keys.len() && j != i ==> pre.contains((#[trigger] keys[j]).machine_name@);
    assert(alone == alone2) by {
        assert forall|j: int| 0 <= j < keys.len() implies is_new(#[trigger] keys[j], before)
            == !pre.contains(keys[j].machine_name@) by {}
        if alone2 {
            assert forall|j: int| 0 <= j < keys.len() && j != i implies !is_new(
                #[trigger] keys[j],
                before,
            ) by {
                assert(pre.contains(keys[j].machine_name@));
            }
        }
        if alone {
            assert forall|j: int| 0 <= j < keys.len() && j != i implies pre.contains(
                (#[trigger] keys[j]).machine_name@,
            ) by {
                assert(!is_new(keys[j], before));
            }
        }
    }
    if new_pick(keys, pre, title@) is Ambiguous {
        assert(notices(t, tries) =~= seq![Effect::Tell(Notice::AmbiguousTpk { title })]);
    }
}

/// Where nothing is new after a pick, the operator is told and the claim left pending; so it is where
/// the order cannot be read.
pub proof fn without_a_new_key_a_pick_waits(
    job: Job,
    title: String,
    before: Order,
    after: Order,
    tries: Tries,
    e: HumbleError,
)
    requires
        forall|j: int| 0 <= j < after.keys@.len() ==> !is_new(#[trigger] after.keys@[j], before),
        e != HumbleError::Unauthorized,
    ensures
        ({
            let at = At::Calling { call: Call::ReRead { title, before }, tries };
            let t = next(job, at, Reply::Order(Ok(after)));
            let u = next(job, at, Reply::Order(Err(e)));
            &&& t.at is Over
            &&& notices(t, tries) == seq![Effect::Tell(Notice::NoTpkYet { title })]
            &&& t.request == Request::Answer(Answer::Parked(Park::Choice(ChoicePoint::NoTpkYet)))
            &&& u.at is Over
            &&& notices(u, tries).len() == 0
            &&& u.request == Request::Answer(Answer::Parked(Park::Choice(ChoicePoint::ReRead)))
        }),
{
    let at = At::Calling { call: Call::ReRead { title, before }, tries };
    let t = next(job, at, Reply::Order(Ok(after)));
    let pre = crate::claim_flow::names(before.keys@);
    newness(before, after.keys@);
    crate::humble::a_picked_key_is_new(after.keys@, pre, title@);
    assert forall|j: int| 0 <= j < after.keys@.len() implies pre.contains(
        (#[trigger] after.keys@[j]).machine_name@,
    ) by {
        assert(!is_new(after.keys@[j], before));
    }
    assert(notices(t, tries) =~= seq![Effect::Tell(Notice::NoTpkYet { title })]);
}

proof fn newness(before: Order, keys: Seq<KeyEntry>)
    ensures
        forall|j: int|
            0 <= j < keys.len() ==> is_new(#[trigger] keys[j], before)
                == !crate::claim_flow::names(before.keys@).contains(keys[j].machine_name@),
{
    let pre = crate::claim_flow::names(before.keys@);
    assert forall|j: int| 0 <= j < keys.len() implies is_new(#[trigger] keys[j], before)
        == !pre.contains(keys[j].machine_name@) by {
        if pre.contains(keys[j].machine_name@) {
            let k = choose|k: int| 0 <= k < pre.len() && pre[k] == keys[j].machine_name@;
            assert(before.keys@[k].machine_name@ == keys[j].machine_name@);
        }
        if !is_new(keys[j], before) {
            let k = choose|k: int|
                0 <= k < before.keys@.len() && (#[trigger] before.keys@[k]).machine_name@
                    == keys[j].machine_name@;
            assert(pre[k] == keys[j].machine_name@);
        }
    }
}

/// Which key a pick has yielded. One that is new is the one if it is new alone, or if it alone among
/// the new ones bears the title. If several are new and the title names none of them, or this one and
/// another, it cannot be told.
pub proof fn picks_are_exact(keys: Seq<KeyEntry>, pre: Seq<Seq<char>>, title: Seq<char>, i: int)
    requires
        0 <= i < keys.len(),
        !pre.contains(keys[i].machine_name@),
    ensures
        ({
            let alone = forall|j: int|
                0 <= j < keys.len() && j != i ==> pre.contains((#[trigger] keys[j]).machine_name@);
            let titled = same_ignoring_case(keys[i].human_name@, title);
            let only_titled = titled && forall|j: int|
                0 <= j < keys.len() && j != i && !pre.contains((#[trigger] keys[j]).machine_name@)
                    ==> !same_ignoring_case(keys[j].human_name@, title);
            let no_title = forall|j: int|
                0 <= j < keys.len() && !pre.contains((#[trigger] keys[j]).machine_name@)
                    ==> !same_ignoring_case(keys[j].human_name@, title);
            &&& alone || only_titled ==> new_pick(keys, pre, title) == Pick::Unique(i)
            &&& !alone && (no_title || (titled && !only_titled)) ==> new_pick(keys, pre, title)
                is Ambiguous
        }),
{
    let p = |j: int| !pre.contains(keys[j].machine_name@);
    let new = new_keys(keys, pre, keys.len());
    selected_is_exact(keys.len(), p);
    let q = |j: int| same_ignoring_case(keys[new[j]].human_name@, title);
    let exact = titled(keys, new, title, new.len());
    selected_is_exact(new.len(), q);
    assert(p(i));
    let k = choose|k: int| 0 <= k < new.len() && new[k] == i;
    let alone = forall|j: int|
        0 <= j < keys.len() && j != i ==> pre.contains((#[trigger] keys[j]).machine_name@);
    if alone {
        if new.len() > 1 {
            let l: int = if k == 0 {
                1
            } else {
                0
            };
            assert(p(new[l]));
            assert(new[l] != i);
            assert(pre.contains(keys[new[l]].machine_name@));
        }
    } else {
        let j = choose|j: int|
            0 <= j < keys.len() && j != i && !pre.contains((#[trigger] keys[j]).machine_name@);
        assert(p(j));
        let l = choose|l: int| 0 <= l < new.len() && new[l] == j;
        assert(new.len() > 1);
    }
    let only_titled = same_ignoring_case(keys[i].human_name@, title) && forall|j: int|
        0 <= j < keys.len() && j != i && !pre.contains((#[trigger] keys[j]).machine_name@)
            ==> !same_ignoring_case(keys[j].human_name@, title);
    if only_titled {
        assert(q(k));
        let m = choose|m: int| 0 <= m < exact.len() && exact[m] == k;
        if exact.len() > 1 {
            let o: int = if m == 0 {
                1
            } else {
                0
            };
            assert(q(exact[o]));
            let l = exact[o];
            assert(l != k);
            assert(new[l] != new[k]) by {
                if l < k {
                    assert(new[l] < new[k]);
                } else {
                    assert(new[k] < new[l]);
                }
            }
            assert(p(new[l]));
            assert(!same_ignoring_case(keys[new[l]].human_name@, title));
        }
    }
    let no_title = forall|j: int|
        0 <= j < keys.len() && !pre.contains((#[trigger] keys[j]).machine_name@)
            ==> !same_ignoring_case(keys[j].human_name@, title);
    if no_title && exact.len() > 0 {
        assert(q(exact[0]));
        assert(p(new[exact[0]]));
        assert(!pre.contains(keys[new[exact[0]]].machine_name@));
    }
    if !alone && same_ignoring_case(keys[i].human_name@, title) && !only_titled {
        let j = choose|j: int|
            0 <= j < keys.len() && j != i && !pre.contains((#[trigger] keys[j]).machine_name@)
                && same_ignoring_case(keys[j].human_name@, title);
        assert(p(j));
        let l = choose|l: int| 0 <= l < new.len() && new[l] == j;
        assert(q(k) && q(l));
        let a = choose|a: int| 0 <= a < exact.len() && exact[a] == k;
        let b = choose|b: int| 0 <= b < exact.len() && exact[b] == l;
        assert(a != b);
        assert(exact.len() > 1);
    }
}

/// A request leads to a run for the claim, the game and the key that it names: a friend's to a gift link
/// under the friend's link, the owner's to a key under the owner's own.
pub proof fn a_request_becomes_its_run(job: Job, req: FulfillRequest, self_login: bool)
    requires
        is_job_of(job, req, self_login),
    ensures
        job.self_login == self_login,
        req is Gift || req is SelfClaim,
        req is Gift <==> job.flavor is Gift,
        req matches FulfillRequest::Gift {
            claim_id,
            link_token,
            game_id,
            gamekey,
            machine_name,
            keyindex,
            requires_choice,
        } ==> job.claim_id@ == claim_id@ && job.link_token@ == link_token@ && job.game_id@ == game_id@
            && job.gamekey@ == gamekey@ && job.machine_name@ == machine_name@ && job.keyindex
            == keyindex && job.choice == requires_choice,
        req matches FulfillRequest::SelfClaim {
            claim_id,
            game_id,
            gamekey,
            machine_name,
            keyindex,
            requires_choice,
        } ==> job.claim_id@ == claim_id@ && job.link_token@ == "SELF"@ && job.game_id@ == game_id@
            && job.gamekey@ == gamekey@ && job.machine_name@ == machine_name@ && job.keyindex
            == keyindex && job.choice == requires_choice,
{
}

/// What was won is handed out as it was recorded, and no answer but the two that hand it out does so.
pub proof fn an_answer_hands_out_what_was_won(a: Answer, r: FulfillResponse)
    requires
        a.reads(r),
    ensures
        a matches Answer::GiftUrl(u) ==> (r matches FulfillResponse::GiftUrl { url } && url@ == u@),
        a matches Answer::RevealedKey(k) ==> (r matches FulfillResponse::RevealedKey { key } && key@
            == k@),
        r is GiftUrl <==> a is GiftUrl,
        r is RevealedKey <==> a is RevealedKey,
        r is AlreadyRedeemed <==> a is AlreadyRedeemed,
        r is KeyDead <==> a is KeyDead,
        r is Parked <==> a is Parked,
        r is Error <==> a is Unrecorded,
        a matches Answer::Parked(p) ==> (r matches FulfillResponse::Parked { reason } && reason@
            == p.text()),
{
}

/// The reason why a claim is left pending names where it was left, and why.
pub proof fn a_reason_names_where_a_claim_was_left(
    d: Inconclusive,
    q: PickInconclusive,
    c: ChoicePoint,
    e: String,
    s: ClaimState,
)
    ensures
        Park::RedeemInconclusive(d).text() == "humble call inconclusive: park for reconcile ("@
            + d.text() + ")"@,
        Park::RevealInconclusive(d).text() == "self-claim reveal inconclusive: park for reconcile ("@
            + d.text() + ")"@,
        Park::PickInconclusive(q).text() == "choice choose inconclusive: park for reconcile ("@
            + q.text() + ")"@,
        Park::Choice(c).text() == "choice fulfillment inconclusive: park for reconcile ("@ + c.text()
            + ")"@,
        Park::ClaimReadFailed(e).text() == "pre-redeem gate: claim read failed: "@ + e@,
        Park::GameReadFailed(e).text() == "pre-redeem gate: game read failed: "@ + e@,
        Park::ClaimTerminal(s).text() == "pre-redeem gate: claim state "@ + s.text()
            + " is terminal — refusing to touch a key"@,
{
}

} // verus!
