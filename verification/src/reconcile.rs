//! Claims that were left pending, held against the orders they came from.
//!
//! A pass goes over the claims one by one. It never spends a monthly pick: it uses what an order
//! already holds, gives a slot back where nothing was spent, and otherwise tells the operator.
use vstd::prelude::*;
use vstd::string::*;
use crate::calendar::{DAY_NANOS, HOUR_NANOS};
use crate::claim_flow::{
    bearing, burn_key, finish_run, first_bearing, first_named, named, named_is_exact, recover,
    recover_run, reveal_run, Call, ClaimFlavor, Job, Reply, Step, Tries, Turn,
};
use crate::claim_laws::{a_later_run_spends_no_pick, is_stretch};
use crate::humble::{
    find_new_tpk, is_same_ignoring_case, new_pick, same_ignoring_case, HumbleError, KeyEntry, Order,
    Pick, TpkPick,
};
use crate::model::{is_instant, Claim, Game, MAX_INSTANT, MIN_INSTANT, SELF_LINK_TOKEN};
use crate::operator_message::{fmt_text, part_texts, OperatorMessage, Part};
use crate::select::{selected, selected_first, selected_is_empty};
use crate::session::Heal;
use crate::text::{chars_of, decimal, decimal_of, same, text_of, views};
use crate::wording;

verus! {

/// A younger claim may still be in the middle of its run.
pub const RECONCILE_MIN_AGE: i128 = 900_000_000_000;

/// An older claim that nothing can be done about is reported.
pub const RECONCILE_STUCK_ALERT_AGE: i128 = 86_400_000_000_000;

/// A message to the operator, as the texts it is made of.
pub open spec fn says(m: OperatorMessage, template: &'static str, args: Seq<Seq<char>>) -> bool {
    m@ == fmt_text(template@, args)
}

fn say2(template: &'static str, a: &str, b: &str) -> (m: OperatorMessage)
    ensures
        says(m, template, seq![a@, b@]),
{
    let parts = [Part::Id(a), Part::Id(b)];
    assert(part_texts(parts@) =~= seq![a@, b@]);
    OperatorMessage::fmt(template, &parts)
}

fn say3(template: &'static str, a: &str, b: &str, c: &str) -> (m: OperatorMessage)
    ensures
        says(m, template, seq![a@, b@, c@]),
{
    let parts = [Part::Id(a), Part::Id(b), Part::Id(c)];
    assert(part_texts(parts@) =~= seq![a@, b@, c@]);
    OperatorMessage::fmt(template, &parts)
}

fn say4(template: &'static str, a: &str, b: &str, c: &str, d: &str) -> (m: OperatorMessage)
    ensures
        says(m, template, seq![a@, b@, c@, d@]),
{
    let parts = [Part::Id(a), Part::Id(b), Part::Id(c), Part::Id(d)];
    assert(part_texts(parts@) =~= seq![a@, b@, c@, d@]);
    OperatorMessage::fmt(template, &parts)
}

// ---- How old a claim is -----------------------------------------------------------------------

/// How long ago a claim was made.
pub open spec fn age_of(claim: Claim, now: i128) -> int {
    now - claim.created_at
}

/// Every claim was made at a point in time.
pub open spec fn dated(claims: Seq<Claim>) -> bool {
    forall|i: int| 0 <= i < claims.len() ==> is_instant((#[trigger] claims[i]).created_at)
}

fn age(claim: &Claim, now: i128) -> (r: i128)
    requires
        is_instant(now),
        is_instant(claim.created_at),
    ensures
        r == age_of(*claim, now),
        r <= MAX_INSTANT - MIN_INSTANT,
{
    now - claim.created_at
}

/// The positions, below `n`, of the claims that have been pending for too long.
pub open spec fn overdue(claims: Seq<Claim>, now: i128, n: nat) -> Seq<int> {
    selected(n, |i: int| age_of(claims[i], now) >= RECONCILE_STUCK_ALERT_AGE)
}

/// What the operator reads of a claim that has been pending for too long.
pub open spec fn overdue_text(claim: Claim, now: i128) -> Seq<char> {
    fmt_text(
        wording::STILL_PENDING@,
        seq![claim.id@, claim.game_id@, decimal((age_of(claim, now) / DAY_NANOS as int) as nat)],
    )
}

/// The messages for all claims that have been pending for too long, whatever else is known of them.
pub fn pending_age_sweep(claims: &Vec<Claim>, now: i128) -> (r: Vec<OperatorMessage>)
    requires
        is_instant(now),
        dated(claims@),
    ensures
        r@.len() == overdue(claims@, now, claims@.len()).len(),
        forall|k: int|
            0 <= k < r@.len() ==> (#[trigger] r@[k])@ == overdue_text(
                claims@[overdue(claims@, now, claims@.len())[k]],
                now,
            ),
{
    let mut out: Vec<OperatorMessage> = Vec::new();
    for i in 0..claims.len()
        invariant
            is_instant(now),
            dated(claims@),
            out@.len() == overdue(claims@, now, i as nat).len(),
            forall|k: int|
                0 <= k < out@.len() ==> (#[trigger] out@[k])@ == overdue_text(
                    claims@[overdue(claims@, now, i as nat)[k]],
                    now,
                ),
    {
        let claim = &claims[i];
        let a: i128 = age(claim, now);
        if a >= RECONCILE_STUCK_ALERT_AGE {
            let days = decimal_of((a / DAY_NANOS) as u64);
            out.push(
                say3(
                    wording::STILL_PENDING,
                    claim.id.as_str(),
                    claim.game_id.as_str(),
                    days.as_str(),
                ),
            );
        }
    }
    out
}

// ---- What can be done about a claim -----------------------------------------------------------

/// A claim's run that starts past its pick.
pub struct Run {
    pub job: Job,
    pub step: Step,
}

/// What to do about a pending claim.
pub enum Plan {
    Nothing,
    Tell(OperatorMessage),
    /// Give the slot back, `own` for a claim of the owner, then tell. A failure is not waited for.
    Compensate { own: bool, then: OperatorMessage },
    Finish(Run),
    /// Look for the key's value; tell if it was found and recorded.
    Recover { run: Run, then: OperatorMessage },
}

pub open spec fn is_own(claim: Claim) -> bool {
    claim.link_token@ == SELF_LINK_TOKEN@
}

/// Whether `job` finishes `claim` with a key of the order `gamekey`.
pub open spec fn finishes(job: Job, claim: Claim, gamekey: Seq<char>, self_login: bool) -> bool {
    &&& job.flavor == if is_own(claim) {
        ClaimFlavor::SelfClaim
    } else {
        ClaimFlavor::Gift
    }
    &&& job.choice
    &&& job.claim_id == claim.id
    &&& job.link_token == claim.link_token
    &&& job.game_id == claim.game_id
    &&& job.gamekey@ == gamekey
    &&& job.self_login == self_login
}

fn job_for(claim: &Claim, gamekey: &str, key: &KeyEntry, self_login: bool) -> (job: Job)
    ensures
        finishes(job, *claim, gamekey@, self_login),
{
    let own: bool = same(claim.link_token.as_str(), SELF_LINK_TOKEN);
    Job {
        flavor: if own {
            ClaimFlavor::SelfClaim
        } else {
            ClaimFlavor::Gift
        },
        choice: true,
        claim_id: claim.id.clone(),
        link_token: claim.link_token.clone(),
        game_id: claim.game_id.clone(),
        gamekey: String::from_str(gamekey),
        machine_name: key.machine_name.clone(),
        keyindex: key.keyindex,
        self_login,
    }
}

/// What a recovered key is reported with where the key store marks it as a gift.
pub open spec fn gift_flag(key: KeyEntry) -> Seq<char> {
    if key.is_gift == Some(true) {
        " (humble marks it a gift)"@
    } else {
        ""@
    }
}

/// Whether `p` looks for the value of `key` and reports it under `title`.
pub open spec fn is_recovery(
    p: Plan,
    claim: Claim,
    gamekey: Seq<char>,
    key: KeyEntry,
    title: Seq<char>,
    self_login: bool,
) -> bool {
    p matches Plan::Recover { run, then } && {
        &&& finishes(run.job, claim, gamekey, self_login)
        &&& run.step@ == recover(Seq::empty(), key.machine_name)
        &&& run.step.at.wf()
        &&& says(then, wording::RECOVERED, seq![claim.id@, title, gift_flag(key)])
    }
}

fn recovery(claim: &Claim, gamekey: &str, key: &KeyEntry, title: &str, self_login: bool) -> (p: Plan)
    ensures
        is_recovery(p, *claim, gamekey@, *key, title@, self_login),
{
    let flag = match key.is_gift {
        Some(true) => " (humble marks it a gift)",
        _ => "",
    };
    Plan::Recover {
        run: Run { job: job_for(claim, gamekey, key, self_login), step: recover_run(key) },
        then: say3(wording::RECOVERED, claim.id.as_str(), title, flag),
    }
}

/// Whether `p` is right for a claim with a monthly pick.
///
/// Without a snapshot nothing in the order can be put down to the claim: the slot goes back only
/// where no key bears the title. With a snapshot the slot never goes back here: the one new key is
/// used, or a person looks.
pub open spec fn is_choice_plan(
    p: Plan,
    claim: Claim,
    game: Game,
    order: Order,
    self_login: bool,
) -> bool {
    let keys = order.keys@;
    match claim.choice_pre_tpks {
        None => {
            let hits = bearing(keys, game.title@, keys.len());
            if hits.len() == 0 {
                p matches Plan::Compensate { own, then } && own == is_own(claim) && says(
                    then,
                    wording::CHOICE_COMPENSATED,
                    seq![claim.id@, game.title@],
                )
            } else if hits.len() == 1 {
                p matches Plan::Tell(m) && says(
                    m,
                    if keys[hits[0]].redeemed {
                        wording::UNSNAPPED_REVEALED
                    } else {
                        wording::UNSNAPPED_UNREDEEMED
                    },
                    seq![claim.id@, game.title@, keys[hits[0]].machine_name@],
                )
            } else {
                p matches Plan::Tell(m) && says(
                    m,
                    wording::UNSNAPPED_SEVERAL,
                    seq![claim.id@, game.title@],
                )
            }
        },
        Some(pre) => match new_pick(keys, views(pre@), game.title@) {
            Pick::Absent => p matches Plan::Tell(m) && says(
                m,
                wording::SNAPSHOT_NO_KEY,
                seq![claim.id@, game.title@],
            ),
            Pick::Ambiguous => p matches Plan::Tell(m) && says(
                m,
                wording::RECONCILE_AMBIGUOUS,
                seq![claim.id@, game.title@],
            ),
            Pick::Unique(i) => if !keys[i].redeemed {
                p matches Plan::Finish(run) && {
                    &&& finishes(run.job, claim, order.gamekey@, self_login)
                    &&& run.step@ == burn_key(run.job, Seq::empty(), keys[i], false)
                    &&& run.step.at.wf()
                }
            } else if is_own(claim) {
                is_recovery(p, claim, order.gamekey@, keys[i], game.title@, self_login)
            } else {
                p matches Plan::Tell(m) && says(
                    m,
                    wording::CHOICE_URL_LOST,
                    seq![claim.id@, game.title@],
                )
            },
        },
    }
}

/// How many keys bear the title, as far as it matters: none, one, or several.
fn hits_of(order: &Order, title: &str) -> (r: (usize, usize))
    ensures
        r.0 == bearing(order.keys@, title@, order.keys@.len()).len(),
        r.0 > 0 ==> r.1 < order.keys@.len() && bearing(order.keys@, title@, order.keys@.len())[0]
            == r.1,
{
    let mut n: usize = 0;
    for i in 0..order.keys.len()
        invariant
            n <= i,
            n == bearing(order.keys@, title@, i as nat).len(),
    {
        if is_same_ignoring_case(order.keys[i].human_name.as_str(), title) {
            n += 1;
        }
    }
    match first_bearing(order, title) {
        Some(i) => (n, i),
        None => (n, 0),
    }
}

/// What to do about a claim with a monthly pick.
pub fn reconcile_choice_claim(claim: &Claim, game: &Game, order: &Order, self_login: bool) -> (p:
    Plan)
    ensures
        is_choice_plan(p, *claim, *game, *order, self_login),
{
    let id = claim.id.as_str();
    let title = game.title.as_str();
    match &claim.choice_pre_tpks {
        None => {
            let (n, first) = hits_of(order, title);
            if n == 0 {
                Plan::Compensate {
                    own: same(claim.link_token.as_str(), SELF_LINK_TOKEN),
                    then: say2(wording::CHOICE_COMPENSATED, id, title),
                }
            } else if n == 1 {
                let key = &order.keys[first];
                Plan::Tell(
                    say3(
                        if key.redeemed {
                            wording::UNSNAPPED_REVEALED
                        } else {
                            wording::UNSNAPPED_UNREDEEMED
                        },
                        id,
                        title,
                        key.machine_name.as_str(),
                    ),
                )
            } else {
                Plan::Tell(say2(wording::UNSNAPPED_SEVERAL, id, title))
            }
        },
        Some(pre) => match find_new_tpk(order, pre, title) {
            TpkPick::Absent => Plan::Tell(say2(wording::SNAPSHOT_NO_KEY, id, title)),
            TpkPick::Ambiguous => Plan::Tell(say2(wording::RECONCILE_AMBIGUOUS, id, title)),
            TpkPick::Unique(key) => if !key.redeemed {
                let job = job_for(claim, order.gamekey.as_str(), key, self_login);
                let step = finish_run(&job, key);
                Plan::Finish(Run { job, step })
            } else if same(claim.link_token.as_str(), SELF_LINK_TOKEN) {
                recovery(claim, order.gamekey.as_str(), key, title, self_login)
            } else {
                Plan::Tell(say2(wording::CHOICE_URL_LOST, id, title))
            },
        },
    }
}

/// The slot of a claim with a monthly pick goes back only where no snapshot was taken and the order
/// holds no key that bears the title.
pub proof fn a_pick_claim_is_compensated_only_without_a_trace(
    p: Plan,
    claim: Claim,
    game: Game,
    order: Order,
    self_login: bool,
)
    requires
        is_choice_plan(p, claim, game, order, self_login),
    ensures
        p is Compensate ==> claim.choice_pre_tpks is None && forall|i: int|
            0 <= i < order.keys@.len() ==> !same_ignoring_case(
                (#[trigger] order.keys@[i]).human_name@,
                game.title@,
            ),
{
    let q = |i: int| same_ignoring_case(order.keys@[i].human_name@, game.title@);
    selected_is_empty(order.keys@.len(), q);
    if bearing(order.keys@, game.title@, order.keys@.len()).len() == 0 {
        assert forall|i: int| 0 <= i < order.keys@.len() implies !same_ignoring_case(
            (#[trigger] order.keys@[i]).human_name@,
            game.title@,
        ) by {
            assert(!q(i));
        }
    }
}

/// What the operator reads of a claim that nothing can be done about.
pub open spec fn stuck_text(claim: Claim, now: i128, reason: Seq<char>) -> Seq<char> {
    fmt_text(
        wording::STUCK@,
        seq![
            claim.id@,
            claim.game_id@,
            decimal((age_of(claim, now) / HOUR_NANOS as int) as nat),
            reason,
        ],
    )
}

/// Whether `m` is what is said of a claim that nothing can be done about: nothing while it is young.
pub open spec fn is_alert(m: Option<OperatorMessage>, claim: Claim, now: i128, reason: Seq<char>) -> bool {
    if age_of(claim, now) < RECONCILE_STUCK_ALERT_AGE {
        m is None
    } else {
        m matches Some(m) && m@ == stuck_text(claim, now, reason)
    }
}

/// What is said of a claim that nothing can be done about.
pub fn alert_unreconcilable(claim: &Claim, now: i128, reason: &str) -> (m: Option<OperatorMessage>)
    requires
        is_instant(now),
        is_instant(claim.created_at),
    ensures
        is_alert(m, *claim, now, reason@),
{
    let a: i128 = age(claim, now);
    if a < RECONCILE_STUCK_ALERT_AGE {
        return None;
    }
    let hours = decimal_of((a / HOUR_NANOS) as u64);
    Some(
        say4(
            wording::STUCK,
            claim.id.as_str(),
            claim.game_id.as_str(),
            hours.as_str(),
            reason,
        ),
    )
}

/// The positions, below `n`, at which a list of marks says yes.
pub open spec fn marked(marks: Seq<bool>, n: nat) -> Seq<int> {
    selected(n, |i: int| i < marks.len() && marks[i])
}

/// What a key is noted with.
pub open spec fn key_flags(key: KeyEntry) -> Seq<char> {
    (if key.redeemed {
        ", already revealed outside the app"@
    } else {
        ""@
    }) + if key.expired {
        ", expired"@
    } else {
        ""@
    }
}

/// Why nothing can be done about a claim whose key is not in its order. A key that is there under
/// the name of a monthly pick is pointed out; `marks` says which keys are.
pub open spec fn missing_key_reason(
    gamekey: Seq<char>,
    machine_name: Seq<char>,
    keys: Seq<KeyEntry>,
    marks: Seq<bool>,
) -> Seq<char> {
    let base = "machine_name `"@ + machine_name + "` is not among order `"@ + gamekey
        + "`'s keys on humble, so there is nothing to reconcile it against"@;
    let hits = marked(marks, keys.len());
    if hits.len() == 0 {
        base
    } else {
        base + "; NOTE: humble carries a key for this game under `"@
            + keys[hits[0]].machine_name@ + "`"@ + key_flags(keys[hits[0]])
    }
}

fn missing_key_words(gamekey: &str, machine_name: &str, order: &Order, marks: &Vec<bool>) -> (r:
    String)
    ensures
        r@ == missing_key_reason(gamekey@, machine_name@, order.keys@, marks@),
{
    let mut out = String::from_str("machine_name `");
    out.append(machine_name);
    out.append("` is not among order `");
    out.append(gamekey);
    out.append("`'s keys on humble, so there is nothing to reconcile it against");
    let ghost p = |i: int| i < marks@.len() && marks@[i];
    for i in 0..order.keys.len()
        invariant
            p == (|i: int| i < marks@.len() && marks@[i]),
            out@ == "machine_name `"@ + machine_name@ + "` is not among order `"@ + gamekey@
                + "`'s keys on humble, so there is nothing to reconcile it against"@,
            forall|j: int| 0 <= j < i ==> !#[trigger] p(j),
    {
        if i < marks.len() && marks[i] {
            proof {
                assert(p(i as int));
                selected_first(order.keys@.len(), p, i as int);
            }
            let key = &order.keys[i];
            let mut flags = String::from_str(
                if key.redeemed {
                    ", already revealed outside the app"
                } else {
                    ""
                },
            );
            flags.append(
                if key.expired {
                    ", expired"
                } else {
                    ""
                },
            );
            out.append("; NOTE: humble carries a key for this game under `");
            out.append(key.machine_name.as_str());
            out.append("`");
            out.append(flags.as_str());
            return out;
        }
        assert(!p(i as int));
    }
    proof {
        selected_is_empty(order.keys@.len(), p);
    }
    out
}

/// Whether `p` is right for a claim on a plain key, `machine_name` of the order `gamekey`.
///
/// A key that was not redeemed is revealed to the owner, and for a friend the slot goes back. Of one
/// that was, the owner's is recovered, and a friend's needs a person.
pub open spec fn is_plain_plan(
    p: Plan,
    claim: Claim,
    now: i128,
    gamekey: Seq<char>,
    machine_name: Seq<char>,
    order: Order,
    marks: Seq<bool>,
    self_login: bool,
) -> bool {
    let keys = order.keys@;
    let at = named(keys, machine_name, keys.len());
    let key = keys[at[0]];
    if at.len() == 0 {
        let reason = missing_key_reason(gamekey, machine_name, keys, marks);
        if age_of(claim, now) < RECONCILE_STUCK_ALERT_AGE {
            p is Nothing
        } else {
            p matches Plan::Tell(m) && m@ == stuck_text(claim, now, reason)
        }
    } else if key.redeemed && is_own(claim) {
        is_recovery(p, claim, gamekey, key, key.human_name@, self_login)
    } else if key.redeemed {
        p matches Plan::Tell(m) && says(
            m,
            wording::URL_LOST,
            seq![claim.id@, order.bundle_name@, key.human_name@],
        )
    } else if is_own(claim) {
        p matches Plan::Finish(run) && {
            &&& finishes(run.job, claim, gamekey, self_login)
            &&& run.step@ == (Call::Burn {
                machine_name: key.machine_name,
                keyindex: key.keyindex,
            }).made(run.job.flavor, Tries::First { may_heal: false }, Seq::empty())
            &&& run.step.at.wf()
        }
    } else {
        p matches Plan::Compensate { own, then } && !own && says(
            then,
            wording::COMPENSATED,
            seq![claim.id@, order.bundle_name@, key.human_name@],
        )
    }
}

/// What to do about a claim on a plain key.
pub fn reconcile_plain_claim(
    claim: &Claim,
    now: i128,
    gamekey: &str,
    machine_name: &str,
    order: &Order,
    marks: &Vec<bool>,
    self_login: bool,
) -> (p: Plan)
    requires
        is_instant(now),
        is_instant(claim.created_at),
    ensures
        is_plain_plan(p, *claim, now, gamekey@, machine_name@, *order, marks@, self_login),
{
    let own: bool = same(claim.link_token.as_str(), SELF_LINK_TOKEN);
    match first_named(order, machine_name) {
        None => {
            let reason = missing_key_words(gamekey, machine_name, order, marks);
            match alert_unreconcilable(claim, now, reason.as_str()) {
                Some(m) => Plan::Tell(m),
                None => Plan::Nothing,
            }
        },
        Some(i) => {
            let key = &order.keys[i];
            if key.redeemed {
                if own {
                    recovery(claim, gamekey, key, key.human_name.as_str(), self_login)
                } else {
                    Plan::Tell(
                        say3(
                            wording::URL_LOST,
                            claim.id.as_str(),
                            order.bundle_name.as_str(),
                            key.human_name.as_str(),
                        ),
                    )
                }
            } else if own {
                let job = job_for(claim, gamekey, key, self_login);
                let step = reveal_run(&job, key);
                Plan::Finish(Run { job, step })
            } else {
                Plan::Compensate {
                    own: false,
                    then: say3(
                        wording::COMPENSATED,
                        claim.id.as_str(),
                        order.bundle_name.as_str(),
                        key.human_name.as_str(),
                    ),
                }
            }
        },
    }
}

/// The slot of a claim on a plain key goes back only where its key is in the order and was not
/// redeemed; the owner's never does.
pub proof fn a_plain_claim_is_compensated_only_unredeemed(
    p: Plan,
    claim: Claim,
    now: i128,
    gamekey: Seq<char>,
    machine_name: Seq<char>,
    order: Order,
    marks: Seq<bool>,
    self_login: bool,
)
    requires
        is_plain_plan(p, claim, now, gamekey, machine_name, order, marks, self_login),
        p is Compensate,
    ensures
        !is_own(claim),
        exists|i: int|
            0 <= i < order.keys@.len() && (#[trigger] order.keys@[i]).machine_name@ == machine_name
                && !order.keys@[i].redeemed,
{
    let keys = order.keys@;
    let at = named(keys, machine_name, keys.len());
    named_is_exact(keys, machine_name, keys.len());
    assert(order.keys@[at[0]].machine_name@ == machine_name);
}

/// Whether a plan has a run to drive, and `run` is that run.
pub open spec fn drives(p: Plan, run: Run) -> bool {
    p == Plan::Finish(run) || (p matches Plan::Recover { run: r, .. } && r == run)
}

/// What a pass does about a claim spends no pick, logs in no more and gives no slot back in the course
/// of the run that it drives, however that run goes on.
pub proof fn a_pass_spends_no_pick(
    p: Plan,
    run: Run,
    claim: Claim,
    game: Game,
    now: i128,
    gamekey: Seq<char>,
    machine_name: Seq<char>,
    order: Order,
    marks: Seq<bool>,
    self_login: bool,
    turns: Seq<Turn>,
    replies: Seq<Reply>,
    i: int,
)
    requires
        is_choice_plan(p, claim, game, order, self_login) || is_plain_plan(
            p,
            claim,
            now,
            gamekey,
            machine_name,
            order,
            marks,
            self_login,
        ),
        drives(p, run),
        is_stretch(run.job, turns, replies),
        turns[0] == run.step@,
        0 <= i < turns.len(),
    ensures
        !(turns[i].request is Choose),
        !(turns[i].request is Login),
        !(turns[i].request is Compensate),
{
    if i > 0 {
        a_later_run_spends_no_pick(run.job, turns, replies, i);
    }
}

// ---- A pass over all pending claims -----------------------------------------------------------

/// What a run knows of its session.
#[derive(Debug, Clone, Copy, PartialEq, Eq, Structural)]
pub struct Mend {
    /// The run has logged in, or tried to: it will not do so again.
    pub healed: bool,
    /// The cookie that later runs will find is alive.
    pub cookie_ok: bool,
}

/// Where a pass stands: what it waits for, and for which claim.
pub enum PassAt {
    Reading { i: usize, tries: Tries },
    Healing { i: usize },
    Gaming { i: usize, order: Order },
    Acting { i: usize },
    Over,
}

/// What a pass requests next.
pub enum PassRequest {
    ReadOrder { gamekey: String },
    Login,
    /// The game of the claim at hand, and which keys of its order go by a name that a monthly pick of
    /// `machine_name` would give.
    ReadGame { game_id: String, machine_name: String },
    Act(Plan),
    Done,
}

/// The reply to a request.
pub enum PassReply {
    Order(Result<Order, HumbleError>),
    LoggedIn(Heal),
    /// The game if it could be read, and which keys of the order at hand go by the name that a
    /// monthly pick would give the claim's game.
    Game { game: Option<Game>, marks: Vec<bool> },
    Acted,
}

/// One turn of a pass. What is told is told before the request is made.
pub struct PassStep {
    pub at: PassAt,
    pub mend: Mend,
    pub told: Vec<OperatorMessage>,
    pub request: PassRequest,
}

/// The texts of a list of messages.
pub open spec fn texts(told: Seq<OperatorMessage>) -> Seq<Seq<char>> {
    Seq::new(told.len(), |i: int| told[i]@)
}

/// Where the first colon of a text stands; the text's length if there is none.
pub open spec fn colon(s: Seq<char>) -> int
    decreases s.len(),
{
    if s.len() == 0 || s[0] == ':' {
        0
    } else {
        1 + colon(s.skip(1))
    }
}

proof fn colon_is_inside(s: Seq<char>)
    ensures
        0 <= colon(s) <= s.len(),
    decreases s.len(),
{
    if s.len() > 0 && s[0] != ':' {
        colon_is_inside(s.skip(1));
    }
}

fn colon_of(v: &Vec<char>) -> (k: usize)
    ensures
        k == colon(v@),
        k <= v@.len(),
{
    let mut k: usize = 0;
    assert(v@.skip(0) =~= v@);
    while k < v.len() && v[k] != ':'
        invariant
            k <= v@.len(),
            colon(v@) == k + colon(v@.skip(k as int)),
        decreases v@.len() - k,
    {
        assert(v@.skip(k as int).skip(1) =~= v@.skip(k + 1));
        k += 1;
    }
    k
}

/// The order that a claim's key belongs to: what stands before the colon of the game's id.
pub open spec fn gamekey_of(claim: Claim) -> Seq<char> {
    claim.game_id@.take(colon(claim.game_id@))
}

/// The name of a claim's key in its order: what stands after the colon.
pub open spec fn key_name_of(claim: Claim) -> Seq<char> {
    claim.game_id@.skip(colon(claim.game_id@) + 1)
}

/// The order and the name of a claim's key.
fn split_id(claim: &Claim) -> (r: (String, String))
    requires
        colon(claim.game_id@) < claim.game_id@.len(),
    ensures
        r.0@ == gamekey_of(*claim),
        r.1@ == key_name_of(*claim),
{
    let id = chars_of(claim.game_id.as_str());
    let k: usize = colon_of(&id);
    let n: usize = id.len();
    assert(id@.len() == n);
    let gamekey = text_of(&id, 0, k);
    let name = text_of(&id, k + 1, n);
    assert(gamekey@ =~= gamekey_of(*claim));
    assert(name@ =~= key_name_of(*claim));
    (gamekey, name)
}

/// Why nothing can be done about a claim whose game has no order to it.
pub const NO_ORDER: &'static str =
    "its game_id has no `gamekey:machine_name` shape, so there is no order to check it against";

/// Claims that are passed over.
pub struct Skipped {
    /// What is told of them.
    pub told: Seq<Seq<char>>,
    /// The next claim that is not.
    pub stop: nat,
}

/// The claims from `i` on that are passed over: those that are too young, and those without an
/// order, which are reported once they are old.
pub open spec fn skipped(claims: Seq<Claim>, now: i128, i: nat) -> Skipped
    decreases claims.len() - i,
{
    if i >= claims.len() {
        Skipped { told: Seq::empty(), stop: claims.len() }
    } else {
        let claim = claims[i as int];
        let rest = skipped(claims, now, i + 1);
        if age_of(claim, now) < RECONCILE_MIN_AGE {
            rest
        } else if colon(claim.game_id@) < claim.game_id@.len() {
            Skipped { told: Seq::empty(), stop: i }
        } else if age_of(claim, now) < RECONCILE_STUCK_ALERT_AGE {
            rest
        } else {
            Skipped {
                told: seq![stuck_text(claim, now, NO_ORDER@)] + rest.told,
                stop: rest.stop,
            }
        }
    }
}

proof fn skipped_is_inside(claims: Seq<Claim>, now: i128, i: nat)
    requires
        i <= claims.len(),
    ensures
        i <= skipped(claims, now, i).stop <= claims.len(),
        skipped(claims, now, i).stop < claims.len() ==> colon(
            claims[skipped(claims, now, i).stop as int].game_id@,
        ) < claims[skipped(claims, now, i).stop as int].game_id@.len(),
    decreases claims.len() - i,
{
    if i < claims.len() {
        skipped_is_inside(claims, now, i + 1);
    }
}

impl PassStep {
    /// The pass asks for the order of claim `i`.
    pub open spec fn reads(self, claims: Seq<Claim>, i: int, tries: Tries) -> bool {
        &&& self.at == (PassAt::Reading { i: i as usize, tries })
        &&& self.request matches PassRequest::ReadOrder { gamekey } && gamekey@ == gamekey_of(
            claims[i],
        )
    }

    /// The pass is over.
    pub open spec fn ends(self) -> bool {
        self.at is Over && self.request is Done
    }

    /// The pass goes on with the claims from `i`.
    pub open spec fn goes_on(self, claims: Seq<Claim>, now: i128, i: nat, mend: Mend) -> bool {
        let s = skipped(claims, now, i);
        &&& self.mend == mend
        &&& texts(self.told@) == s.told
        &&& if s.stop < claims.len() {
            self.reads(claims, s.stop as int, Tries::First { may_heal: !mend.healed })
        } else {
            self.ends()
        }
    }
}

impl PassAt {
    /// Whether `reply` is a reply to what the pass waits for.
    pub open spec fn expects(self, reply: PassReply) -> bool {
        match self {
            PassAt::Reading { .. } => reply is Order,
            PassAt::Healing { .. } => reply is LoggedIn,
            PassAt::Gaming { .. } => reply is Game,
            PassAt::Acting { .. } => reply is Acted,
            PassAt::Over => false,
        }
    }

    /// The claim that the pass is at exists and has an order.
    pub open spec fn wf(self, claims: Seq<Claim>) -> bool {
        let at = match self {
            PassAt::Reading { i, .. } => i as int,
            PassAt::Healing { i } => i as int,
            PassAt::Gaming { i, .. } => i as int,
            PassAt::Acting { i } => i as int,
            PassAt::Over => -1,
        };
        self is Over || (at < claims.len() && colon(claims[at].game_id@)
            < claims[at].game_id@.len())
    }
}

/// The order has been read. A dead session leads to one login where the run has had none; otherwise
/// it ends the pass, as every other claim would fail alike. Any other failure passes the claim over.
pub open spec fn order_read(
    out: PassStep,
    claims: Seq<Claim>,
    now: i128,
    i: int,
    tries: Tries,
    mend: Mend,
    r: Result<Order, HumbleError>,
) -> bool {
    match r {
        Ok(order) => {
            &&& out.at == (PassAt::Gaming { i: i as usize, order })
            &&& out.mend == mend
            &&& out.told@.len() == 0
            &&& out.request matches PassRequest::ReadGame { game_id, machine_name } && game_id
                == claims[i].game_id && machine_name@ == key_name_of(claims[i])
        },
        Err(HumbleError::Unauthorized) => if tries == (Tries::First { may_heal: true }) {
            &&& out.at == (PassAt::Healing { i: i as usize })
            &&& out.mend == mend
            &&& out.told@.len() == 0
            &&& out.request is Login
        } else {
            &&& out.ends()
            &&& out.mend == (Mend { healed: mend.healed, cookie_ok: false })
            &&& out.told@.len() == 0
        },
        Err(_) => out.goes_on(claims, now, (i + 1) as nat, mend),
    }
}

/// A login was tried, with or without success: it was the run's only one.
pub open spec fn logged_in(out: PassStep, claims: Seq<Claim>, i: int, heal: Heal) -> bool {
    &&& out.told@.len() == 0
    &&& out.mend == (Mend { healed: true, cookie_ok: heal.is_durable() })
    &&& if heal.is_usable() {
        out.reads(claims, i, Tries::Again(heal))
    } else {
        out.ends()
    }
}

/// Whether a claim is judged by the rules for monthly picks: by its own snapshot first, and by its
/// game only where it has none.
pub open spec fn is_pick_claim(claim: Claim, game: Option<Game>) -> bool {
    game matches Some(g) && (g.requires_choice || claim.choice_pre_tpks is Some)
}

/// What is to be done about the claim is known.
pub open spec fn game_read(
    out: PassStep,
    claims: Seq<Claim>,
    now: i128,
    i: int,
    order: Order,
    mend: Mend,
    game: Option<Game>,
    marks: Seq<bool>,
    self_login: bool,
) -> bool {
    let claim = claims[i];
    &&& out.at == (PassAt::Acting { i: i as usize })
    &&& out.mend == mend
    &&& out.told@.len() == 0
    &&& out.request matches PassRequest::Act(plan) && if is_pick_claim(claim, game) {
        is_choice_plan(plan, claim, game->0, order, self_login)
    } else {
        is_plain_plan(
            plan,
            claim,
            now,
            gamekey_of(claim),
            key_name_of(claim),
            order,
            marks,
            self_login,
        )
    }
}

/// Whether `out` is the turn that follows a reply.
pub open spec fn pass_follows(
    out: PassStep,
    claims: Seq<Claim>,
    now: i128,
    at: PassAt,
    mend: Mend,
    reply: PassReply,
    self_login: bool,
) -> bool {
    match (at, reply) {
        (PassAt::Reading { i, tries }, PassReply::Order(r)) => order_read(
            out,
            claims,
            now,
            i as int,
            tries,
            mend,
            r,
        ),
        (PassAt::Healing { i }, PassReply::LoggedIn(h)) => logged_in(out, claims, i as int, h),
        (PassAt::Gaming { i, order }, PassReply::Game { game, marks }) => game_read(
            out,
            claims,
            now,
            i as int,
            order,
            mend,
            game,
            marks@,
            self_login,
        ),
        (PassAt::Acting { i }, PassReply::Acted) => out.goes_on(
            claims,
            now,
            (i + 1) as nat,
            mend,
        ),
        _ => false,
    }
}

fn ask_order(claims: &Vec<Claim>, i: usize, tries: Tries, mend: Mend, told: Vec<OperatorMessage>) -> (out:
    PassStep)
    requires
        i < claims@.len(),
        colon(claims@[i as int].game_id@) < claims@[i as int].game_id@.len(),
    ensures
        out.reads(claims@, i as int, tries),
        out.mend == mend,
        out.told == told,
{
    let (gamekey, _) = split_id(&claims[i]);
    PassStep {
        at: PassAt::Reading { i, tries },
        mend,
        told,
        request: PassRequest::ReadOrder { gamekey },
    }
}

/// Goes on with the claims from `from`.
fn go_on(claims: &Vec<Claim>, now: i128, from: usize, mend: Mend) -> (out: PassStep)
    requires
        is_instant(now),
        dated(claims@),
        from <= claims@.len(),
    ensures
        out.goes_on(claims@, now, from as nat, mend),
        out.at.wf(claims@),
{
    let mut told: Vec<OperatorMessage> = Vec::new();
    let mut i: usize = from;
    let ghost all = skipped(claims@, now, from as nat);
    proof {
        skipped_is_inside(claims@, now, from as nat);
        assert(texts(told@) + all.told =~= all.told);
    }
    while i < claims.len()
        invariant
            is_instant(now),
            dated(claims@),
            from <= i <= claims@.len(),
            all == skipped(claims@, now, from as nat),
            all.told == texts(told@) + skipped(claims@, now, i as nat).told,
            all.stop == skipped(claims@, now, i as nat).stop,
        decreases claims@.len() - i,
    {
        let claim = &claims[i];
        let a: i128 = age(claim, now);
        if a >= RECONCILE_MIN_AGE {
            let id = chars_of(claim.game_id.as_str());
            let k: usize = colon_of(&id);
            if k < id.len() {
                assert(texts(told@) =~= all.told);
                return ask_order(claims, i, Tries::First { may_heal: !mend.healed }, mend, told);
            }
            if let Some(m) = alert_unreconcilable(claim, now, NO_ORDER) {
                let ghost rest = skipped(claims@, now, (i + 1) as nat).told;
                assert(texts(told@.push(m)) =~= texts(told@).push(m@));
                assert(texts(told@) + (seq![m@] + rest) =~= texts(told@).push(m@) + rest);
                told.push(m);
            }
        }
        i += 1;
    }
    assert(texts(told@) =~= all.told);
    PassStep { at: PassAt::Over, mend, told, request: PassRequest::Done }
}

/// The first turn of a pass over `claims`.
pub fn start_pass(claims: &Vec<Claim>, now: i128, mend: Mend) -> (out: PassStep)
    requires
        is_instant(now),
        dated(claims@),
    ensures
        out.goes_on(claims@, now, 0, mend),
        out.at.wf(claims@),
{
    go_on(claims, now, 0, mend)
}

/// The turn of a pass that follows a reply.
pub fn reconcile(
    claims: &Vec<Claim>,
    now: i128,
    at: PassAt,
    mend: Mend,
    reply: PassReply,
    self_login: bool,
) -> (out: PassStep)
    requires
        is_instant(now),
        dated(claims@),
        at.wf(claims@),
        at.expects(reply),
    ensures
        pass_follows(out, claims@, now, at, mend, reply, self_login),
        out.at.wf(claims@),
{
    let n: usize = claims.len();
    assert(claims@.len() == n);
    match (at, reply) {
        (PassAt::Reading { i, tries }, PassReply::Order(r)) => match r {
            Ok(order) => {
                let game_id = claims[i].game_id.clone();
                let (_, machine_name) = split_id(&claims[i]);
                PassStep {
                    at: PassAt::Gaming { i, order },
                    mend,
                    told: Vec::new(),
                    request: PassRequest::ReadGame { game_id, machine_name },
                }
            },
            Err(HumbleError::Unauthorized) => if matches!(tries, Tries::First { may_heal: true }) {
                PassStep {
                    at: PassAt::Healing { i },
                    mend,
                    told: Vec::new(),
                    request: PassRequest::Login,
                }
            } else {
                PassStep {
                    at: PassAt::Over,
                    mend: Mend { healed: mend.healed, cookie_ok: false },
                    told: Vec::new(),
                    request: PassRequest::Done,
                }
            },
            Err(_) => go_on(claims, now, i + 1, mend),
        },
        (PassAt::Healing { i }, PassReply::LoggedIn(h)) => {
            let mend = Mend { healed: true, cookie_ok: h.durable() };
            if h.usable() {
                ask_order(claims, i, Tries::Again(h), mend, Vec::new())
            } else {
                PassStep {
                    at: PassAt::Over,
                    mend,
                    told: Vec::new(),
                    request: PassRequest::Done,
                }
            }
        },
        (PassAt::Gaming { i, order }, PassReply::Game { game, marks }) => {
            let claim = &claims[i];
            let plan = match game {
                Some(g) if g.requires_choice || claim.choice_pre_tpks.is_some() =>
                    reconcile_choice_claim(claim, &g, &order, self_login),
                _ => {
                    let (gamekey, name) = split_id(claim);
                    reconcile_plain_claim(
                        claim,
                        now,
                        gamekey.as_str(),
                        name.as_str(),
                        &order,
                        &marks,
                        self_login,
                    )
                },
            };
            PassStep {
                at: PassAt::Acting { i },
                mend,
                told: Vec::new(),
                request: PassRequest::Act(plan),
            }
        },
        (PassAt::Acting { i }, PassReply::Acted) => go_on(claims, now, i + 1, mend),
        _ => {
            assert(false);
            go_on(claims, now, 0, mend)
        },
    }
}

/// A pass logs in only where its run has not tried to, and a login is remembered: there is at most
/// one. A session that stays dead ends the pass and leaves the cookie marked as dead.
pub proof fn a_pass_logs_in_at_most_once(
    out: PassStep,
    claims: Seq<Claim>,
    now: i128,
    at: PassAt,
    mend: Mend,
    reply: PassReply,
    self_login: bool,
)
    requires
        pass_follows(out, claims, now, at, mend, reply, self_login),
        at matches PassAt::Reading { tries, .. } ==> (tries == (Tries::First { may_heal: true })
            ==> !mend.healed),
    ensures
        out.request is Login ==> !mend.healed && out.at is Healing,
        at is Healing ==> out.mend.healed,
        mend.healed ==> out.mend.healed,
        out.at matches PassAt::Reading { tries, .. } ==> (tries == (Tries::First {
            may_heal: true,
        }) ==> !out.mend.healed),
        (reply matches PassReply::Order(Err(HumbleError::Unauthorized)) && !(out.request is Login))
            ==> out.ends() && !out.mend.cookie_ok,
{
}

/// How far a pass has to go at most: five turns for each claim that is left.
pub open spec fn pass_rank(at: PassAt, n: nat) -> int {
    match at {
        PassAt::Reading { i, tries: Tries::First { .. } } => 5 * (n - i),
        PassAt::Healing { i } => 5 * (n - i) - 1,
        PassAt::Reading { i, tries: Tries::Again(_) } => 5 * (n - i) - 2,
        PassAt::Gaming { i, .. } => 5 * (n - i) - 3,
        PassAt::Acting { i } => 5 * (n - i) - 4,
        PassAt::Over => 0,
    }
}

/// Every pass ends: each reply brings it closer.
pub proof fn every_pass_ends(
    out: PassStep,
    claims: Seq<Claim>,
    now: i128,
    at: PassAt,
    mend: Mend,
    reply: PassReply,
    self_login: bool,
)
    requires
        pass_follows(out, claims, now, at, mend, reply, self_login),
        at.wf(claims),
        claims.len() <= usize::MAX,
    ensures
        0 <= pass_rank(out.at, claims.len()) < pass_rank(at, claims.len()),
{
    match at {
        PassAt::Reading { i, .. } => {
            skipped_is_inside(claims, now, (i + 1) as nat);
        },
        PassAt::Acting { i } => {
            skipped_is_inside(claims, now, (i + 1) as nat);
        },
        _ => {},
    }
}

} // verus!
