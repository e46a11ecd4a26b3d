//! What a pass over the pending claims does about each of them, in the terms of the claim, its game and
//! its order.
use vstd::prelude::*;
use crate::claim_flow::{named, At, Call, ClaimFlavor, DeadReason, Job, Request, Step, Tries};
use crate::claim_outcomes::{first_named_is_first, picks_are_exact};
use crate::humble::{
    a_picked_key_is_new, new_pick, same_ignoring_case, HumbleError, KeyEntry, Order,
};
use crate::model::{Claim, Game};
use crate::operator_message::fmt_text;
use crate::reconcile::{
    age_of, colon, gamekey_of, key_flags, key_name_of, marked, missing_key_reason, overdue,
    overdue_text, pass_follows, skipped, texts, Mend, PassAt, PassReply, PassRequest, PassStep,
    Plan,
};
use crate::select::{selected_is_empty, selected_is_exact};
use crate::session::Heal;
use crate::text::{decimal, views};
use crate::wording;

verus! {

/// Whether a claim is the owner's.
pub open spec fn is_the_owners(claim: Claim) -> bool {
    claim.link_token@ == "SELF"@
}

/// What is said of a claim that has been stuck for some hours.
pub open spec fn stuck_words(claim: Claim, hours: nat, reason: Seq<char>) -> Seq<char> {
    fmt_text(wording::STUCK@, seq![claim.id@, claim.game_id@, decimal(hours), reason])
}

/// Whether a plan tells the operator of a claim, in the given words, and does nothing else.
pub open spec fn tells(p: Plan, template: Seq<char>, args: Seq<Seq<char>>) -> bool {
    p matches Plan::Tell(m) && m@ == fmt_text(template, args)
}

/// Whether a job is about a claim: the owner's is revealed, a friend's redeemed.
pub open spec fn is_about(job: Job, claim: Claim) -> bool {
    &&& job.claim_id@ == claim.id@
    &&& job.link_token@ == claim.link_token@
    &&& job.game_id@ == claim.game_id@
    &&& job.flavor == if is_the_owners(claim) {
        ClaimFlavor::SelfClaim
    } else {
        ClaimFlavor::Gift
    }
}

/// Whether a step redeems or reveals a key as it stands, and logs in no more.
pub open spec fn uses(step: Step, claim: Claim, key: KeyEntry) -> bool {
    &&& step.effects@.len() == 0
    &&& step.at == (At::Calling {
        call: Call::Burn { machine_name: key.machine_name, keyindex: key.keyindex },
        tries: Tries::First { may_heal: false },
    })
    &&& step.request == if is_the_owners(claim) {
        Request::Reveal { machine_name: key.machine_name, keyindex: key.keyindex }
    } else {
        Request::Redeem { machine_name: key.machine_name, keyindex: key.keyindex }
    }
}

/// Whether a plan looks for the value of a key of the order, and tells of it under a title.
pub open spec fn looks_for(p: Plan, claim: Claim, gamekey: Seq<char>, key: KeyEntry, title: Seq<char>) -> bool {
    p matches Plan::Recover { run, then } && {
        &&& is_about(run.job, claim)
        &&& run.job.gamekey@ == gamekey
        &&& run.step.effects@.len() == 0
        &&& run.step.at == (At::Recovering { machine_name: key.machine_name })
        &&& run.step.request is ReadOrder
        &&& then@ == fmt_text(
            wording::RECOVERED@,
            seq![
                claim.id@,
                title,
                if key.is_gift == Some(true) {
                    " (humble marks it a gift)"@
                } else {
                    ""@
                },
            ],
        )
    }
}

// ---- Claims with a monthly pick ---------------------------------------------------------------

/// Whether a claim is one with a monthly pick: it has a snapshot, or its game still needs a pick.
pub open spec fn has_a_pick(claim: Claim, g: Game) -> bool {
    claim.choice_pre_tpks is Some || g.requires_choice
}

/// What a pass acts on: claim `i` with its order, its game and the marks of the keys.
pub open spec fn acts(
    p: Plan,
    out: PassStep,
    claims: Seq<Claim>,
    now: i128,
    i: usize,
    order: Order,
    mend: Mend,
    game: Option<Game>,
    marks: Vec<bool>,
    self_login: bool,
) -> bool {
    &&& pass_follows(
        out,
        claims,
        now,
        PassAt::Gaming { i, order },
        mend,
        PassReply::Game { game, marks },
        self_login,
    )
    &&& i < claims.len()
    &&& out.request == PassRequest::Act(p)
}

/// A claim with a pick but without a snapshot. If no key of its order bears the game's title, the slot
/// is given back. If any does, nothing is given back: the operator is told of the one, and whether it
/// was revealed, or that there are several.
pub proof fn without_a_snapshot_the_title_decides(
    p: Plan,
    out: PassStep,
    claims: Seq<Claim>,
    now: i128,
    i: usize,
    order: Order,
    mend: Mend,
    g: Game,
    marks: Vec<bool>,
    self_login: bool,
)
    requires
        acts(p, out, claims, now, i, order, mend, Some(g), marks, self_login),
        claims[i as int].choice_pre_tpks is None,
        g.requires_choice,
    ensures
        ({
            let claim = claims[i as int];
            let keys = order.keys@;
            &&& (forall|k: int|
                0 <= k < keys.len() ==> !same_ignoring_case(
                    (#[trigger] keys[k]).human_name@,
                    g.title@,
                )) ==> (p matches Plan::Compensate { own, then } && own == is_the_owners(claim)
                && then@ == fmt_text(wording::CHOICE_COMPENSATED@, seq![claim.id@, g.title@]))
            &&& forall|k: int|
                0 <= k < keys.len() && same_ignoring_case(
                    (#[trigger] keys[k]).human_name@,
                    g.title@,
                ) ==> if exists|j: int|
                    0 <= j < keys.len() && j != k && same_ignoring_case(
                        (#[trigger] keys[j]).human_name@,
                        g.title@,
                    ) {
                    tells(p, wording::UNSNAPPED_SEVERAL@, seq![claim.id@, g.title@])
                } else {
                    tells(
                        p,
                        if keys[k].redeemed {
                            wording::UNSNAPPED_REVEALED@
                        } else {
                            wording::UNSNAPPED_UNREDEEMED@
                        },
                        seq![claim.id@, g.title@, keys[k].machine_name@],
                    )
                }
        }),
{
    let keys = order.keys@;
    let q = |k: int| same_ignoring_case(keys[k].human_name@, g.title@);
    let hits = crate::claim_flow::bearing(keys, g.title@, keys.len());
    selected_is_exact(keys.len(), q);
    selected_is_empty(keys.len(), q);
    if forall|k: int|
        0 <= k < keys.len() ==> !same_ignoring_case((#[trigger] keys[k]).human_name@, g.title@) {
        assert forall|k: int| 0 <= k < keys.len() implies !#[trigger] q(k) by {
            assert(!same_ignoring_case(keys[k].human_name@, g.title@));
        }
    }
    assert forall|k: int|
        0 <= k < keys.len() && same_ignoring_case((#[trigger] keys[k]).human_name@, g.title@) implies
        hits.len() > 0 && ((exists|j: int|
        0 <= j < keys.len() && j != k && same_ignoring_case(
            (#[trigger] keys[j]).human_name@,
            g.title@,
        )) <==> hits.len() > 1) && (hits.len() == 1 ==> hits[0] == k) by {
        assert(q(k));
        let a = choose|a: int| 0 <= a < hits.len() && hits[a] == k;
        if hits.len() > 1 {
            let b: int = if a == 0 {
                1
            } else {
                0
            };
            assert(q(hits[b]));
            assert(same_ignoring_case(keys[hits[b]].human_name@, g.title@));
        }
        if exists|j: int|
            0 <= j < keys.len() && j != k && same_ignoring_case(
                (#[trigger] keys[j]).human_name@,
                g.title@,
            ) {
            let j = choose|j: int|
                0 <= j < keys.len() && j != k && same_ignoring_case(
                    (#[trigger] keys[j]).human_name@,
                    g.title@,
                );
            assert(q(j));
            let b = choose|b: int| 0 <= b < hits.len() && hits[b] == j;
            assert(a != b);
        }
    }
}

/// A claim with a snapshot, and a key of its order that the snapshot does not name. If that key is new
/// alone, or alone among the new ones bears the game's title, it is the claim's. Not yet redeemed, it
/// is used; if the order marks it as expired the claim is failed instead. Redeemed before, the owner's
/// is looked for, and a friend's left to a person.
pub proof fn with_a_snapshot_the_new_key_is_used(
    p: Plan,
    out: PassStep,
    claims: Seq<Claim>,
    now: i128,
    i: usize,
    order: Order,
    mend: Mend,
    g: Game,
    marks: Vec<bool>,
    self_login: bool,
    pre: Vec<String>,
    k: int,
)
    requires
        acts(p, out, claims, now, i, order, mend, Some(g), marks, self_login),
        claims[i as int].choice_pre_tpks == Some(pre),
        0 <= k < order.keys@.len(),
        !views(pre@).contains(order.keys@[k].machine_name@),
        (forall|j: int|
            0 <= j < order.keys@.len() && j != k ==> views(pre@).contains(
                (#[trigger] order.keys@[j]).machine_name@,
            )) || (same_ignoring_case(order.keys@[k].human_name@, g.title@) && forall|j: int|
            0 <= j < order.keys@.len() && j != k && !views(pre@).contains(
                (#[trigger] order.keys@[j]).machine_name@,
            ) ==> !same_ignoring_case(order.keys@[j].human_name@, g.title@)),
    ensures
        ({
            let claim = claims[i as int];
            let key = order.keys@[k];
            if !key.redeemed {
                p matches Plan::Finish(run) && {
                    &&& is_about(run.job, claim)
                    &&& run.job.choice
                    &&& run.job.gamekey@ == order.gamekey@
                    &&& if key.expired {
                        let reason = DeadReason::MarkedExpired { machine_name: key.machine_name };
                        &&& run.step.effects@.len() == 0
                        &&& run.step.at == (At::Retiring { reason })
                        &&& run.step.request == (Request::Retire {
                            own: is_the_owners(claim),
                            reason,
                        })
                    } else {
                        uses(run.step, claim, key)
                    }
                }
            } else if is_the_owners(claim) {
                looks_for(p, claim, order.gamekey@, key, g.title@)
            } else {
                tells(p, wording::CHOICE_URL_LOST@, seq![claim.id@, g.title@])
            }
        }),
{
    picks_are_exact(order.keys@, views(pre@), g.title@, k);
    if let Plan::Finish(run) = p {
        assert(run.step@.at == run.step.at);
    }
    if let Plan::Recover { run, .. } = p {
        assert(run.step@.at == run.step.at);
    }
}

/// A claim with a snapshot that names every key of its order, or one beside which several keys are new
/// that the title does not tell apart: a person is asked, and no slot is given back.
pub proof fn with_a_snapshot_no_slot_goes_back(
    p: Plan,
    out: PassStep,
    claims: Seq<Claim>,
    now: i128,
    i: usize,
    order: Order,
    mend: Mend,
    g: Game,
    marks: Vec<bool>,
    self_login: bool,
    pre: Vec<String>,
)
    requires
        acts(p, out, claims, now, i, order, mend, Some(g), marks, self_login),
        claims[i as int].choice_pre_tpks == Some(pre),
    ensures
        !(p is Compensate),
        !(p is Nothing),
        (forall|j: int|
            0 <= j < order.keys@.len() ==> views(pre@).contains(
                (#[trigger] order.keys@[j]).machine_name@,
            )) ==> tells(
            p,
            wording::SNAPSHOT_NO_KEY@,
            seq![claims[i as int].id@, g.title@],
        ),
        forall|j: int, k: int|
            0 <= j < order.keys@.len() && 0 <= k < order.keys@.len() && j != k && !views(
                pre@,
            ).contains((#[trigger] order.keys@[j]).machine_name@) && !views(pre@).contains(
                (#[trigger] order.keys@[k]).machine_name@,
            ) && ((same_ignoring_case(order.keys@[j].human_name@, g.title@)
                && same_ignoring_case(order.keys@[k].human_name@, g.title@)) || (forall|l: int|
                0 <= l < order.keys@.len() && !views(pre@).contains(
                    (#[trigger] order.keys@[l]).machine_name@,
                ) ==> !same_ignoring_case(order.keys@[l].human_name@, g.title@))) ==> tells(
                p,
                wording::RECONCILE_AMBIGUOUS@,
                seq![claims[i as int].id@, g.title@],
            ),
{
    let keys = order.keys@;
    a_picked_key_is_new(keys, views(pre@), g.title@);
    assert forall|j: int, k: int|
        0 <= j < keys.len() && 0 <= k < keys.len() && j != k && !views(pre@).contains(
            (#[trigger] keys[j]).machine_name@,
        ) && !views(pre@).contains((#[trigger] keys[k]).machine_name@) && ((same_ignoring_case(
            keys[j].human_name@,
            g.title@,
        ) && same_ignoring_case(keys[k].human_name@, g.title@)) || (forall|l: int|
            0 <= l < keys.len() && !views(pre@).contains((#[trigger] keys[l]).machine_name@)
                ==> !same_ignoring_case(keys[l].human_name@, g.title@))) implies new_pick(
        keys,
        views(pre@),
        g.title@,
    ) is Ambiguous by {
        picks_are_exact(keys, views(pre@), g.title@, j);
        assert(!views(pre@).contains(keys[k].machine_name@));
    }
}

// ---- Claims on a plain key --------------------------------------------------------------------

/// A claim on a plain key, whose game has no pick to it or cannot be read, and whose key is in its
/// order. Redeemed before, the owner's is looked for and a friend's left to a person. Not redeemed, the
/// owner's is revealed, and for a friend the slot is given back.
pub proof fn a_plain_claim_goes_by_its_key(
    p: Plan,
    out: PassStep,
    claims: Seq<Claim>,
    now: i128,
    i: usize,
    order: Order,
    mend: Mend,
    game: Option<Game>,
    marks: Vec<bool>,
    self_login: bool,
    gamekey: Seq<char>,
    name: Seq<char>,
    k: int,
)
    requires
        acts(p, out, claims, now, i, order, mend, game, marks, self_login),
        game matches Some(g) ==> !has_a_pick(claims[i as int], g),
        claims[i as int].game_id@ == gamekey + seq![':'] + name,
        !gamekey.contains(':'),
        0 <= k < order.keys@.len(),
        order.keys@[k].machine_name@ == name,
        forall|j: int| 0 <= j < k ==> (#[trigger] order.keys@[j]).machine_name@ != name,
    ensures
        ({
            let claim = claims[i as int];
            let key = order.keys@[k];
            let bundle = order.bundle_name@;
            if key.redeemed && is_the_owners(claim) {
                looks_for(p, claim, gamekey, key, key.human_name@)
            } else if key.redeemed {
                tells(p, wording::URL_LOST@, seq![claim.id@, bundle, key.human_name@])
            } else if is_the_owners(claim) {
                p matches Plan::Finish(run) && is_about(run.job, claim) && run.job.gamekey@ == gamekey
                    && uses(run.step, claim, key)
            } else {
                p matches Plan::Compensate { own, then } && !own && then@ == fmt_text(
                    wording::COMPENSATED@,
                    seq![claim.id@, bundle, key.human_name@],
                )
            }
        }),
{
    let claim = claims[i as int];
    a_colon_splits(claim, gamekey, name);
    first_named_is_first(order.keys@, name, order.keys@.len(), k);
    if let Plan::Finish(run) = p {
        assert(run.step@.at == run.step.at);
    }
    if let Plan::Recover { run, .. } = p {
        assert(run.step@.at == run.step.at);
    }
}

/// A claim on a plain key that is not in its order: nothing is done about it, and once it is a day old
/// the operator is told, with its age in hours.
pub proof fn a_plain_claim_without_its_key_is_told_of(
    p: Plan,
    out: PassStep,
    claims: Seq<Claim>,
    now: i128,
    i: usize,
    order: Order,
    mend: Mend,
    game: Option<Game>,
    marks: Vec<bool>,
    self_login: bool,
    gamekey: Seq<char>,
    name: Seq<char>,
    hours: nat,
)
    requires
        acts(p, out, claims, now, i, order, mend, game, marks, self_login),
        game matches Some(g) ==> !has_a_pick(claims[i as int], g),
        claims[i as int].game_id@ == gamekey + seq![':'] + name,
        !gamekey.contains(':'),
        forall|j: int| 0 <= j < order.keys@.len() ==> (#[trigger] order.keys@[j]).machine_name@ != name,
        hours * 3_600_000_000_000int <= now - claims[i as int].created_at < (hours + 1) * 3_600_000_000_000int,
    ensures
        hours < 24 ==> p is Nothing,
        hours >= 24 ==> (p matches Plan::Tell(m) && m@ == stuck_words(
            claims[i as int],
            hours,
            missing_key_reason(gamekey, name, order.keys@, marks@),
        )),
{
    let claim = claims[i as int];
    let keys = order.keys@;
    a_colon_splits(claim, gamekey, name);
    none_is_named(keys, name, keys.len());
    assert(age_of(claim, now) / 3_600_000_000_000int == hours) by (nonlinear_arith)
        requires
            hours * 3_600_000_000_000int <= age_of(claim, now) < (hours + 1) * 3_600_000_000_000int,
    ;
    if hours >= 24 {
        assert(age_of(claim, now) >= 24 * 3_600_000_000_000int) by (nonlinear_arith)
            requires
                hours >= 24,
                hours * 3_600_000_000_000int <= age_of(claim, now),
        ;
        let reason = missing_key_reason(gamekey, name, keys, marks@);
        assert(p matches Plan::Tell(m) && m@ == stuck_words(claim, hours, reason));
    } else {
        assert(age_of(claim, now) < 24 * 3_600_000_000_000int) by (nonlinear_arith)
            requires
                hours < 24,
                age_of(claim, now) < (hours + 1) * 3_600_000_000_000int,
        ;
    }
}

/// The reason names the key and the order. Where the order has the key of a pick for the game under
/// another name, the first such is pointed out, with whether it was revealed or has expired.
pub proof fn the_reason_points_at_a_key_by_another_name(
    gamekey: Seq<char>,
    name: Seq<char>,
    keys: Seq<KeyEntry>,
    marks: Seq<bool>,
    i: int,
)
    requires
        marks.len() <= keys.len(),
    ensures
        ({
            let base = "machine_name `"@ + name + "` is not among order `"@ + gamekey
                + "`'s keys on humble, so there is nothing to reconcile it against"@;
            let reason = missing_key_reason(gamekey, name, keys, marks);
            &&& (forall|k: int| 0 <= k < marks.len() ==> !#[trigger] marks[k]) ==> reason == base
            &&& 0 <= i < marks.len() && marks[i] && (forall|k: int| 0 <= k < i ==> !#[trigger] marks[k])
                ==> reason == base + "; NOTE: humble carries a key for this game under `"@
                + keys[i].machine_name@ + "`"@ + (if keys[i].redeemed && keys[i].expired {
                ", already revealed outside the app"@ + ", expired"@
            } else if keys[i].redeemed {
                ", already revealed outside the app"@
            } else if keys[i].expired {
                ", expired"@
            } else {
                ""@
            })
        }),
{
    reveal_strlit("");
    first_mark(marks, keys.len(), i);
    let flags = key_flags(keys[i]);
    assert(flags =~= if keys[i].redeemed && keys[i].expired {
        ", already revealed outside the app"@ + ", expired"@
    } else if keys[i].redeemed {
        ", already revealed outside the app"@
    } else if keys[i].expired {
        ", expired"@
    } else {
        ""@
    });
}

proof fn first_mark(marks: Seq<bool>, n: nat, i: int)
    ensures
        (forall|k: int| 0 <= k < marks.len() ==> !#[trigger] marks[k]) ==> marked(marks, n).len() == 0,
        0 <= i < marks.len() && i < n && marks[i] && (forall|k: int|
            0 <= k < i ==> !#[trigger] marks[k]) ==> marked(marks, n).len() > 0 && marked(marks, n)[0]
            == i,
        0 <= n <= i && i < marks.len() && (forall|k: int| 0 <= k < i ==> !#[trigger] marks[k])
            ==> marked(marks, n).len() == 0,
    decreases n,
{
    if n > 0 {
        first_mark(marks, (n - 1) as nat, i);
    }
}

proof fn none_is_named(keys: Seq<KeyEntry>, name: Seq<char>, n: nat)
    requires
        n <= keys.len(),
        forall|j: int| 0 <= j < keys.len() ==> (#[trigger] keys[j]).machine_name@ != name,
    ensures
        named(keys, name, n).len() == 0,
    decreases n,
{
    if n > 0 {
        none_is_named(keys, name, (n - 1) as nat);
        assert(keys[n - 1].machine_name@ != name);
    }
}

/// The id of a game is the name of its order, a colon, and the name of its key; the first colon
/// counts.
pub proof fn a_colon_splits(claim: Claim, gamekey: Seq<char>, name: Seq<char>)
    requires
        claim.game_id@ == gamekey + seq![':'] + name,
        !gamekey.contains(':'),
    ensures
        gamekey_of(claim) == gamekey,
        key_name_of(claim) == name,
        colon(claim.game_id@) == gamekey.len(),
{
    colon_is_after(claim.game_id@, gamekey, name);
    assert(claim.game_id@.take(gamekey.len() as int) =~= gamekey);
    assert(claim.game_id@.skip(gamekey.len() as int + 1) =~= name);
}

proof fn colon_is_after(id: Seq<char>, gamekey: Seq<char>, name: Seq<char>)
    requires
        id == gamekey + seq![':'] + name,
        !gamekey.contains(':'),
    ensures
        colon(id) == gamekey.len(),
    decreases gamekey.len(),
{
    if gamekey.len() == 0 {
        assert(id[0] == ':');
    } else {
        assert(gamekey.contains(gamekey[0]));
        assert(id[0] == gamekey[0]);
        assert(id.skip(1) =~= gamekey.skip(1) + seq![':'] + name);
        assert forall|c: char| gamekey.skip(1).contains(c) implies gamekey.contains(c) by {
            let j = choose|j: int| 0 <= j < gamekey.skip(1).len() && gamekey.skip(1)[j] == c;
            assert(gamekey[j + 1] == c);
        }
        colon_is_after(id.skip(1), gamekey.skip(1), name);
    }
}

proof fn colon_is_first(id: Seq<char>)
    ensures
        0 <= colon(id) <= id.len(),
        colon(id) < id.len() <==> id.contains(':'),
    decreases id.len(),
{
    if id.len() > 0 {
        if id[0] == ':' {
            assert(id.contains(':'));
        } else {
            colon_is_first(id.skip(1));
            if id.contains(':') {
                let j = choose|j: int| 0 <= j < id.len() && id[j] == ':';
                assert(id.skip(1)[j - 1] == ':');
            }
            if id.skip(1).contains(':') {
                let j = choose|j: int| 0 <= j < id.skip(1).len() && id.skip(1)[j] == ':';
                assert(id[j + 1] == ':');
            }
        }
    }
}

// ---- Which claims are taken up ----------------------------------------------------------------

/// Whether a claim is taken up: it is a quarter of an hour old, and its game belongs to an order.
pub open spec fn is_due(claim: Claim, now: i128) -> bool {
    now - claim.created_at >= 900_000_000_000 && claim.game_id@.contains(':')
}

/// A pass goes on with the first claim that is a quarter of an hour old and belongs to an order; where
/// there is none it is over.
pub proof fn every_due_claim_is_taken_up(
    out: PassStep,
    claims: Seq<Claim>,
    now: i128,
    from: nat,
    mend: Mend,
)
    requires
        out.goes_on(claims, now, from, mend),
        from <= claims.len() <= usize::MAX,
    ensures
        out.mend == mend,
        match out.at {
            PassAt::Reading { i, tries } => {
                &&& from <= i < claims.len()
                &&& is_due(claims[i as int], now)
                &&& forall|j: int| from <= j < i ==> !is_due(#[trigger] claims[j], now)
                &&& tries == (Tries::First { may_heal: !mend.healed })
                &&& out.request is ReadOrder
            },
            PassAt::Over => out.request is Done && forall|j: int|
                from <= j < claims.len() ==> !is_due(#[trigger] claims[j], now),
            _ => false,
        },
{
    skipping_is_exact(claims, now, from);
}

proof fn skipping_is_exact(claims: Seq<Claim>, now: i128, i: nat)
    requires
        i <= claims.len(),
    ensures
        i <= skipped(claims, now, i).stop <= claims.len(),
        forall|j: int| i <= j < skipped(claims, now, i).stop ==> !is_due(#[trigger] claims[j], now),
        skipped(claims, now, i).stop < claims.len() ==> is_due(
            claims[skipped(claims, now, i).stop as int],
            now,
        ),
    decreases claims.len() - i,
{
    if i < claims.len() {
        colon_is_first(claims[i as int].game_id@);
        skipping_is_exact(claims, now, i + 1);
    }
}

/// What is told of a claim that belongs to no order, with its age in hours.
pub open spec fn is_told(text: Seq<char>, claim: Claim, now: i128) -> bool {
    exists|hours: nat|
        24 <= hours && hours * 3_600_000_000_000int <= now - claim.created_at < (hours + 1) * 3_600_000_000_000int && text
            == #[trigger] stuck_words(
            claim,
            hours,
            "its game_id has no `gamekey:machine_name` shape, so there is no order to check it against"@,
        )
}

/// Whether a text tells of one of the claims from `from` on that belong to no order.
pub open spec fn tells_of_some(text: Seq<char>, claims: Seq<Claim>, from: int, now: i128) -> bool {
    exists|j: int|
        from <= j < claims.len() && !claims[j].game_id@.contains(':') && #[trigger] is_told(
            text,
            claims[j],
            now,
        )
}

/// Whether one of some texts tells of a claim.
pub open spec fn some_tells_of(told: Seq<Seq<char>>, claim: Claim, now: i128) -> bool {
    exists|k: int| 0 <= k < told.len() && #[trigger] is_told(told[k], claim, now)
}

/// Of the claims that a pass goes past, those a day old that belong to no order are told of, and no
/// others.
pub proof fn a_claim_without_an_order_is_told_of(
    out: PassStep,
    claims: Seq<Claim>,
    now: i128,
    from: nat,
    mend: Mend,
)
    requires
        out.goes_on(claims, now, from, mend),
        from <= claims.len() <= usize::MAX,
    ensures
        forall|k: int|
            0 <= k < out.told@.len() ==> tells_of_some(
                #[trigger] texts(out.told@)[k],
                claims,
                from as int,
                now,
            ),
        forall|j: int|
            from <= j < claims.len() && (out.at matches PassAt::Reading { i, .. } ==> j < i)
                && !(#[trigger] claims[j]).game_id@.contains(':') && now - claims[j].created_at
                >= 86_400_000_000_000int ==> some_tells_of(texts(out.told@), claims[j], now),
{
    told_is_exact(claims, now, from);
    skipping_is_exact(claims, now, from);
}

/// Whether a claim that belongs to no order is told of.
pub open spec fn is_reported(claim: Claim, now: i128) -> bool {
    now - claim.created_at >= 86_400_000_000_000int && !claim.game_id@.contains(':')
}

proof fn one_claim_is_skipped(claims: Seq<Claim>, now: i128, i: nat)
    requires
        i < claims.len(),
    ensures
        ({
            let claim = claims[i as int];
            let s = skipped(claims, now, i);
            let rest = skipped(claims, now, i + 1);
            if is_due(claim, now) {
                s.told.len() == 0 && s.stop == i
            } else if is_reported(claim, now) {
                &&& s.stop == rest.stop
                &&& s.told.len() == rest.told.len() + 1
                &&& is_told(s.told[0], claim, now)
                &&& forall|k: int| 0 <= k < rest.told.len() ==> #[trigger] s.told[k + 1] == rest.told[k]
            } else {
                s == rest
            }
        }),
{
    let claim = claims[i as int];
    colon_is_first(claim.game_id@);
    if !is_due(claim, now) && is_reported(claim, now) {
        let a = now - claim.created_at;
        let hours = (a / 3_600_000_000_000int) as nat;
        assert(hours * 3_600_000_000_000int <= a < (hours + 1) * 3_600_000_000_000int && 24
            <= hours);
        let s = skipped(claims, now, i);
        assert(s.told[0] == stuck_words(
            claim,
            hours,
            "its game_id has no `gamekey:machine_name` shape, so there is no order to check it against"@,
        ));
        assert(is_told(s.told[0], claim, now));
    }
}

#[verifier::rlimit(40)]
proof fn told_is_exact(claims: Seq<Claim>, now: i128, i: nat)
    requires
        i <= claims.len(),
    ensures
        forall|k: int|
            0 <= k < skipped(claims, now, i).told.len() ==> tells_of_some(
                #[trigger] skipped(claims, now, i).told[k],
                claims,
                i as int,
                now,
            ),
        forall|j: int|
            i <= j < skipped(claims, now, i).stop && !(#[trigger] claims[j]).game_id@.contains(':')
                && now - claims[j].created_at >= 86_400_000_000_000int ==> some_tells_of(
                skipped(claims, now, i).told,
                claims[j],
                now,
            ),
    decreases claims.len() - i,
{
    if i < claims.len() {
        let claim = claims[i as int];
        told_is_exact(claims, now, i + 1);
        one_claim_is_skipped(claims, now, i);
        let s = skipped(claims, now, i);
        let rest = skipped(claims, now, i + 1);
        let reported = is_reported(claim, now);
        assert forall|k: int| 0 <= k < s.told.len() implies tells_of_some(
            #[trigger] s.told[k],
            claims,
            i as int,
            now,
        ) by {
            if reported && k == 0 {
                assert(is_told(s.told[0], claims[i as int], now));
            } else {
                let l = if reported {
                    k - 1
                } else {
                    k
                };
                assert(reported ==> s.told[l + 1] == rest.told[l]);
                assert(s.told[k] == rest.told[l]);
                assert(tells_of_some(rest.told[l], claims, i as int + 1, now));
                let j = choose|j: int|
                    i + 1 <= j < claims.len() && !claims[j].game_id@.contains(':')
                        && #[trigger] is_told(rest.told[l], claims[j], now);
                assert(is_told(s.told[k], claims[j], now));
            }
        }
        assert forall|j: int|
            i <= j < s.stop && !(#[trigger] claims[j]).game_id@.contains(':') && now
                - claims[j].created_at >= 86_400_000_000_000int implies some_tells_of(
            s.told,
            claims[j],
            now,
        ) by {
            if j > i {
                assert(some_tells_of(rest.told, claims[j], now));
                let k = choose|k: int|
                    0 <= k < rest.told.len() && #[trigger] is_told(rest.told[k], claims[j], now);
                let l = if reported {
                    k + 1
                } else {
                    k
                };
                assert(s.told[l] == rest.told[k]);
                assert(is_told(s.told[l], claims[j], now));
            }
        }
    }
}

/// Every claim that has been pending for a day is reported, with its age in days, and no other is.
pub proof fn every_old_claim_is_reported(claims: Seq<Claim>, now: i128, i: int, days: nat)
    requires
        0 <= i < claims.len(),
        days * 86_400_000_000_000int <= now - claims[i].created_at < (days + 1) * 86_400_000_000_000int,
    ensures
        overdue(claims, now, claims.len()).contains(i) <==> days >= 1,
        overdue_text(claims[i], now) == fmt_text(
            wording::STILL_PENDING@,
            seq![claims[i].id@, claims[i].game_id@, decimal(days)],
        ),
{
    let p = |i: int| age_of(claims[i], now) >= crate::reconcile::RECONCILE_STUCK_ALERT_AGE;
    selected_is_exact(claims.len(), p);
    let a = age_of(claims[i], now);
    assert(a / 86_400_000_000_000int == days) by (nonlinear_arith)
        requires
            days * 86_400_000_000_000int <= a < (days + 1) * 86_400_000_000_000int,
    ;
    if days >= 1 {
        assert(a >= 86_400_000_000_000int) by (nonlinear_arith)
            requires
                days >= 1,
                days * 86_400_000_000_000int <= a,
        ;
        assert(p(i));
    } else {
        assert(a < 86_400_000_000_000int);
        if overdue(claims, now, claims.len()).contains(i) {
            let o = overdue(claims, now, claims.len());
            let k = choose|k: int| 0 <= k < o.len() && o[k] == i;
            assert(p(o[k]));
        }
    }
}

// ---- The pass as a whole ----------------------------------------------------------------------

/// An order that was read leads to the claim's game; a dead session to one login, or to the end of the
/// pass; any other failure to the next claim. A login that failed ends the pass. What was done about a
/// claim leads to the next.
pub proof fn each_reply_leads_on(
    out: PassStep,
    claims: Seq<Claim>,
    now: i128,
    i: usize,
    tries: Tries,
    mend: Mend,
    order: Order,
    e: HumbleError,
    heal: Heal,
    self_login: bool,
)
    requires
        i < claims.len() <= usize::MAX,
    ensures
        pass_follows(
            out,
            claims,
            now,
            PassAt::Reading { i, tries },
            mend,
            PassReply::Order(Ok(order)),
            self_login,
        ) ==> out.at == (PassAt::Gaming { i, order }) && out.mend == mend && out.told@.len() == 0
            && out.request is ReadGame,
        pass_follows(
            out,
            claims,
            now,
            PassAt::Reading { i, tries },
            mend,
            PassReply::Order(Err(e)),
            self_login,
        ) ==> if e != HumbleError::Unauthorized {
            out.goes_on(claims, now, (i + 1) as nat, mend)
        } else if tries == (Tries::First { may_heal: true }) {
            out.at == (PassAt::Healing { i }) && out.request is Login && out.mend == mend
        } else {
            out.at is Over && out.request is Done && !out.mend.cookie_ok && out.mend.healed
                == mend.healed
        },
        pass_follows(
            out,
            claims,
            now,
            PassAt::Healing { i },
            mend,
            PassReply::LoggedIn(heal),
            self_login,
        ) ==> out.mend.healed && out.mend.cookie_ok == (heal == Heal::Persisted) && if heal
            == Heal::Failed {
            out.at is Over && out.request is Done
        } else {
            out.at == (PassAt::Reading { i, tries: Tries::Again(heal) }) && out.request is ReadOrder
        },
        pass_follows(out, claims, now, PassAt::Acting { i }, mend, PassReply::Acted, self_login)
            ==> out.goes_on(claims, now, (i + 1) as nat, mend),
{
}

/// A claim is looked up by its game: the order by what stands before the colon, its key by what stands
/// after it, and the game by the whole.
pub proof fn a_claim_is_looked_up_by_its_game(
    out: PassStep,
    claims: Seq<Claim>,
    now: i128,
    i: usize,
    tries: Tries,
    mend: Mend,
    order: Order,
    heal: Heal,
    self_login: bool,
    gamekey: Seq<char>,
    name: Seq<char>,
)
    requires
        i < claims.len() <= usize::MAX,
        claims[i as int].game_id@ == gamekey + seq![':'] + name,
        !gamekey.contains(':'),
    ensures
        pass_follows(
            out,
            claims,
            now,
            PassAt::Reading { i, tries },
            mend,
            PassReply::Order(Ok(order)),
            self_login,
        ) ==> (out.request matches PassRequest::ReadGame { game_id, machine_name } && game_id@
            == claims[i as int].game_id@ && machine_name@ == name),
        pass_follows(
            out,
            claims,
            now,
            PassAt::Healing { i },
            mend,
            PassReply::LoggedIn(heal),
            self_login,
        ) && heal != Heal::Failed ==> (out.request matches PassRequest::ReadOrder { gamekey: g } && g@
            == gamekey),
        out.goes_on(claims, now, i as nat, mend) && is_due(claims[i as int], now) ==> (
        out.request matches PassRequest::ReadOrder { gamekey: g } && g@ == gamekey),
{
    a_colon_splits(claims[i as int], gamekey, name);
    skipping_is_exact(claims, now, i as nat);
}

} // verus!
