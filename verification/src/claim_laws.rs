//! What holds of every run of a claim, whatever the replies.
use vstd::prelude::*;
use crate::claim_flow::{
    bearing, names, next, unauthorized, At, Call, ClaimFlavor, Job, Read, Reply, Request, Tries,
    Turn,
};
use crate::humble::{new_pick, GiftUrl, HumbleError, Order, Pick, RevealedKey};
use crate::model::{ClaimState, Game};
use crate::operator_message::ErrorSummary;
use crate::protocol::Answer;

verus! {

/// The first turn of every run.
pub open spec fn first_turn() -> Turn {
    Turn { at: At::GateClaim, effects: Seq::empty(), request: Request::ReadClaim }
}

/// A stretch of a run: some turns, and the replies between them.
pub open spec fn is_stretch(job: Job, turns: Seq<Turn>, replies: Seq<Reply>) -> bool {
    &&& turns.len() == replies.len() + 1
    &&& forall|i: int| 0 <= i < replies.len() ==> #[trigger] follows(job, turns, replies, i)
}

/// A run so far, from its first turn on.
pub open spec fn is_run(job: Job, turns: Seq<Turn>, replies: Seq<Reply>) -> bool {
    is_stretch(job, turns, replies) && turns[0] == first_turn()
}

/// Turn `i + 1` is what follows turn `i` and its reply.
pub open spec fn follows(job: Job, turns: Seq<Turn>, replies: Seq<Reply>, i: int) -> bool {
    &&& turns[i].at.expects(job.flavor, replies[i])
    &&& turns[i + 1] == next(job, turns[i].at, replies[i])
}

// ---- The barrier ---------------------------------------------------------------------------------

/// The claim was found open, and for the game in question.
pub open spec fn claim_passes(job: Job, reply: Reply) -> bool {
    reply matches Reply::Claim(Read::Found(c)) && (c.state == ClaimState::Pending || c.state
        == ClaimState::Fulfilled) && c.game_id@ == job.game_id@
}

/// The game was found with the key where the claim has it.
pub open spec fn game_passes(job: Job, reply: Reply) -> bool {
    reply matches Reply::Game(Read::Found(g)) && g.gamekey@ == job.gamekey@ && (job.choice || (
    g.machine_name@ == job.machine_name@ && g.keyindex == job.keyindex))
}

/// Nothing but an answer and the barrier's own two reads is requested before the claim and the game
/// have both passed the barrier.
pub proof fn nothing_is_touched_before_the_gate(job: Job, turns: Seq<Turn>, replies: Seq<Reply>, i: int)
    requires
        is_run(job, turns, replies),
        0 <= i < turns.len(),
        !(turns[i].request is Answer),
        i >= 2,
    ensures
        claim_passes(job, replies[0]),
        game_passes(job, replies[1]),
{
    assert(follows(job, turns, replies, 0));
    assert(follows(job, turns, replies, 1));
    if i > 2 {
        assert(follows(job, turns, replies, 2));
    }
}

// ---- Logins -----------------------------------------------------------------------------------

/// Whether a run at this place may still log in.
pub open spec fn may_log_in(job: Job, at: At) -> bool {
    match at {
        At::GateClaim => job.self_login,
        At::GateGame => job.self_login,
        At::Title => job.self_login,
        At::Calling { tries, .. } => tries == (Tries::First { may_heal: true }),
        At::Resuming { may_heal, .. } => may_heal,
        At::Intending { may_heal, .. } => may_heal,
        _ => false,
    }
}

/// A login is requested only where it is allowed, uses the allowance up, and nothing renews it.
#[verifier::spinoff_prover]
#[verifier::rlimit(40)]
proof fn login_is_spent(job: Job, at: At, reply: Reply)
    requires
        at.expects(job.flavor, reply),
    ensures
        may_log_in(job, next(job, at, reply).at) ==> may_log_in(job, at),
        next(job, at, reply).request is Login ==> may_log_in(job, at) && !may_log_in(
            job,
            next(job, at, reply).at,
        ),
{
}

proof fn no_login_without_allowance(job: Job, turns: Seq<Turn>, replies: Seq<Reply>, i: int, j: int)
    requires
        is_stretch(job, turns, replies),
        0 <= i <= j < turns.len(),
        !may_log_in(job, turns[i].at),
    ensures
        !may_log_in(job, turns[j].at),
        i < j ==> !(turns[j].request is Login),
    decreases j - i,
{
    if i < j {
        no_login_without_allowance(job, turns, replies, i, j - 1);
        assert(follows(job, turns, replies, j - 1));
        login_is_spent(job, turns[j - 1].at, replies[j - 1]);
    }
}

/// A run logs in at most once, and not at all where the service cannot log in by itself.
pub proof fn at_most_one_login(job: Job, turns: Seq<Turn>, replies: Seq<Reply>, i: int, j: int)
    requires
        is_run(job, turns, replies),
        0 <= i < turns.len(),
        0 <= j < turns.len(),
        turns[i].request is Login,
        turns[j].request is Login,
    ensures
        i == j,
        job.self_login,
{
    let (a, b) = if i < j {
        (i, j)
    } else {
        (j, i)
    };
    assert(follows(job, turns, replies, a - 1));
    login_is_spent(job, turns[a - 1].at, replies[a - 1]);
    if a < b {
        no_login_without_allowance(job, turns, replies, a, b);
    }
    if !job.self_login {
        no_login_without_allowance(job, turns, replies, 0, a);
    }
}

/// A login answers a dead session, and a call is made again only after a login.
pub proof fn a_login_answers_a_dead_session(job: Job, at: At, reply: Reply)
    requires
        at.expects(job.flavor, reply),
    ensures
        next(job, at, reply).request is Login ==> unauthorized(reply),
        (next(job, at, reply).at matches At::Calling { tries, .. } && tries is Again) ==> at
            is Healing,
{
}

// ---- Picks ------------------------------------------------------------------------------------

/// Whether the monthly pick, if there is one, lies behind a run at this place.
pub open spec fn past_the_pick(at: At) -> bool {
    match at {
        At::Calling { call, .. } => call is ReRead || call is Burn,
        At::Healing { call } => call is ReRead || call is Burn,
        At::Resuming { .. } => true,
        At::Recovering { .. } => true,
        At::SavingUrl { .. } => true,
        At::SavingKey { .. } => true,
        At::Compensating => true,
        At::Retiring { .. } => true,
        At::Over => true,
        _ => false,
    }
}

proof fn past_stays_past(job: Job, turns: Seq<Turn>, replies: Seq<Reply>, i: int, j: int)
    requires
        is_stretch(job, turns, replies),
        0 <= i <= j < turns.len(),
        past_the_pick(turns[i].at),
    ensures
        past_the_pick(turns[j].at),
        i < j ==> !(turns[j].request is Choose),
    decreases j - i,
{
    if i < j {
        past_stays_past(job, turns, replies, i, j - 1);
        assert(follows(job, turns, replies, j - 1));
    }
}

/// Where a pick is requested a second time, the first was refused for a dead session: a pick that
/// may have been spent is never requested again.
pub proof fn a_pick_is_not_spent_twice(job: Job, turns: Seq<Turn>, replies: Seq<Reply>, i: int, j: int)
    requires
        is_run(job, turns, replies),
        0 <= i < j < turns.len(),
        turns[i].request is Choose,
        turns[j].request is Choose,
    ensures
        unauthorized(replies[i]),
{
    choose_is_called(job, turns, replies, i);
    assert(follows(job, turns, replies, i));
    if !unauthorized(replies[i]) {
        if i + 1 < j {
            past_stays_past(job, turns, replies, i + 1, j);
        }
    }
}

/// Where a key of the order bears the title already, the pick counts as spent: none is requested.
pub proof fn a_taken_title_spends_no_pick(
    job: Job,
    turns: Seq<Turn>,
    replies: Seq<Reply>,
    i: int,
    j: int,
)
    requires
        is_run(job, turns, replies),
        0 <= i < j < turns.len(),
        turns[i].at matches At::Calling { call: Call::PreRead { title }, .. } && replies[i] matches
            Reply::Order(Ok(order)) && bearing(order.keys@, title@, order.keys@.len()).len() > 0,
    ensures
        !(turns[j].request is Choose),
{
    assert(follows(job, turns, replies, i));
    past_stays_past(job, turns, replies, i + 1, j);
}

/// A run that is entered past its pick requests no pick; one that is entered without the allowance to
/// log in requests no login; and one that has to do with a pick never gives the slot back.
pub proof fn a_later_run_spends_no_pick(
    job: Job,
    turns: Seq<Turn>,
    replies: Seq<Reply>,
    i: int,
)
    requires
        is_stretch(job, turns, replies),
        past_the_pick(turns[0].at),
        !may_log_in(job, turns[0].at),
        job.choice,
        0 < i < turns.len(),
    ensures
        !(turns[i].request is Choose),
        !(turns[i].request is Login),
        !(turns[i].request is Compensate),
{
    past_stays_past(job, turns, replies, 0, i);
    no_login_without_allowance(job, turns, replies, 0, i);
    assert(follows(job, turns, replies, i - 1));
    let r = replies[i - 1];
    if turns[i].request is Compensate {
        a_slot_goes_back_only_for_a_burned_key(job, turns[i - 1].at, r);
    }
}

proof fn choose_is_called(job: Job, turns: Seq<Turn>, replies: Seq<Reply>, i: int)
    requires
        is_run(job, turns, replies),
        0 <= i < turns.len(),
        turns[i].request is Choose,
    ensures
        i > 0,
        turns[i].at matches At::Calling { call, .. } && call is Choose,
{
    if i > 0 {
        assert(follows(job, turns, replies, i - 1));
    }
}

/// The snapshot that a place is bound to: the order before the pick.
pub open spec fn bound_to(at: At, order: Order) -> bool {
    match at {
        At::Calling { call: Call::Choose { before, .. }, .. } => before == order,
        At::Healing { call: Call::Choose { before, .. } } => before == order,
        _ => false,
    }
}

/// A pick is requested only once the names of all keys that the order held before it are on record.
pub proof fn a_pick_follows_its_snapshot(job: Job, turns: Seq<Turn>, replies: Seq<Reply>, i: int)
    requires
        is_run(job, turns, replies),
        0 <= i < turns.len(),
        turns[i].request is Choose,
    ensures
        exists|k: int|
            0 <= k < i && #[trigger] snapshot_recorded(turns[k], replies[k], turns[i].at),
{
    choose_is_called(job, turns, replies, i);
    snapshot_is_behind(job, turns, replies, i);
}

/// Turn `t` requested the record of a snapshot, it succeeded, and the place `at` is bound to it.
pub open spec fn snapshot_recorded(t: Turn, reply: Reply, at: At) -> bool {
    &&& t.request is RecordIntent
    &&& reply matches Reply::Written(Ok(_))
    &&& t.at matches At::Intending { order, .. } && bound_to(at, order)
}

/// Whether a run at this place waits for a pick, or for the login before it is tried again.
spec fn is_choosing(at: At) -> bool {
    match at {
        At::Calling { call, .. } => call is Choose,
        At::Healing { call } => call is Choose,
        _ => false,
    }
}

proof fn snapshot_is_behind(job: Job, turns: Seq<Turn>, replies: Seq<Reply>, i: int)
    requires
        is_run(job, turns, replies),
        0 <= i < turns.len(),
        is_choosing(turns[i].at),
    ensures
        exists|k: int|
            0 <= k < i && #[trigger] snapshot_recorded(turns[k], replies[k], turns[i].at),
    decreases i,
{
    assert(i > 0);
    assert(follows(job, turns, replies, i - 1));
    if turns[i - 1].at is Intending {
        intending_asks_for_a_record(job, turns, replies, i - 1);
        assert(snapshot_recorded(turns[i - 1], replies[i - 1], turns[i].at));
    } else {
        snapshot_is_behind(job, turns, replies, i - 1);
        let k = choose|k: int|
            0 <= k < i - 1 && #[trigger] snapshot_recorded(turns[k], replies[k], turns[i - 1].at);
        assert(snapshot_recorded(turns[k], replies[k], turns[i].at));
    }
}

proof fn intending_asks_for_a_record(job: Job, turns: Seq<Turn>, replies: Seq<Reply>, i: int)
    requires
        is_run(job, turns, replies),
        0 <= i < turns.len(),
        turns[i].at is Intending,
    ensures
        turns[i].request is RecordIntent,
{
    if i > 0 {
        assert(follows(job, turns, replies, i - 1));
    }
}

// ---- Keys -------------------------------------------------------------------------------------

/// Whether the redemption of a key lies behind a run at this place.
pub open spec fn past_the_key(at: At) -> bool {
    match at {
        At::Recovering { .. } => true,
        At::SavingUrl { .. } => true,
        At::SavingKey { .. } => true,
        At::Compensating => true,
        At::Retiring { .. } => true,
        At::Over => true,
        _ => false,
    }
}

/// Whether a request redeems a key.
pub open spec fn burns(r: Request) -> bool {
    r is Redeem || r is Reveal
}

proof fn past_the_key_stays_past(job: Job, turns: Seq<Turn>, replies: Seq<Reply>, i: int, j: int)
    requires
        is_stretch(job, turns, replies),
        0 <= i <= j < turns.len(),
        past_the_key(turns[i].at),
    ensures
        past_the_key(turns[j].at),
        i < j ==> !burns(turns[j].request),
    decreases j - i,
{
    if i < j {
        past_the_key_stays_past(job, turns, replies, i, j - 1);
        assert(follows(job, turns, replies, j - 1));
    }
}

/// Where a key is redeemed a second time, the first attempt was refused for a dead session: a key
/// that may have been burned is never redeemed again, and never is a second key.
pub proof fn a_key_is_not_burned_twice(job: Job, turns: Seq<Turn>, replies: Seq<Reply>, i: int, j: int)
    requires
        is_run(job, turns, replies),
        0 <= i < j < turns.len(),
        burns(turns[i].request),
        burns(turns[j].request),
    ensures
        unauthorized(replies[i]),
        turns[i].request == turns[j].request,
{
    burn_is_called(job, turns, replies, i);
    assert(follows(job, turns, replies, i));
    if !unauthorized(replies[i]) {
        past_the_key_stays_past(job, turns, replies, i + 1, j);
    } else if past_the_key(turns[i + 1].at) {
        past_the_key_stays_past(job, turns, replies, i + 1, j);
    } else {
        assert(follows(job, turns, replies, i + 1));
        if past_the_key(turns[i + 2].at) {
            past_the_key_stays_past(job, turns, replies, i + 2, j);
        } else if j > i + 2 {
            burn_is_called(job, turns, replies, i + 2);
            assert(follows(job, turns, replies, i + 2));
            past_the_key_stays_past(job, turns, replies, i + 3, j);
        }
    }
}

proof fn burn_is_called(job: Job, turns: Seq<Turn>, replies: Seq<Reply>, i: int)
    requires
        is_run(job, turns, replies),
        0 <= i < turns.len(),
        burns(turns[i].request),
    ensures
        i > 0,
        turns[i].at matches At::Calling { call, .. } && call is Burn && turns[i].request
            == call.ask(job.flavor),
{
    if i > 0 {
        assert(follows(job, turns, replies, i - 1));
    }
}

// ---- What is handed out -----------------------------------------------------------------------

/// A gift link is handed out only after it has been recorded, and it is the link that the key store
/// gave; likewise a key. A slot goes back only for a friend's plain claim whose key is known to be
/// gone.
pub proof fn what_is_handed_out_is_on_record(job: Job, at: At, reply: Reply)
    requires
        at.expects(job.flavor, reply),
    ensures
        next(job, at, reply).request matches Request::Answer(Answer::GiftUrl(u)) ==> at
            == (At::SavingUrl { url: u }) && reply matches Reply::Written(Ok(_)),
        next(job, at, reply).request matches Request::Answer(Answer::RevealedKey(k)) ==> at
            == (At::SavingKey { key: k }) && reply matches Reply::Written(Ok(_)),
        next(job, at, reply).request matches Request::Answer(Answer::AlreadyRedeemed) ==> at
            == At::Compensating && reply matches Reply::Written(Ok(_)),
        next(job, at, reply).request matches Request::Answer(Answer::KeyDead) ==> at is Retiring
            && reply matches Reply::Written(Ok(_)),
        next(job, at, reply).at matches At::SavingUrl { url } ==> reply == Reply::Redeemed(
            Ok(GiftUrl(url)),
        ) && next(job, at, reply).request == Request::SaveUrl(url),
        next(job, at, reply).at matches At::SavingKey { key } ==> next(job, at, reply).request
            == Request::SaveKey(key) && (reply == Reply::Revealed(Ok(RevealedKey(key))) || at
            is Recovering),
{
}

/// The slot is given back only for a friend's claim without a monthly pick, and only where the key
/// store says that the key is gone.
pub proof fn a_slot_goes_back_only_for_a_burned_key(job: Job, at: At, reply: Reply)
    requires
        at.expects(job.flavor, reply),
        next(job, at, reply).request is Compensate,
    ensures
        job.flavor == ClaimFlavor::Gift,
        !job.choice,
        reply == Reply::Redeemed(Err::<GiftUrl, HumbleError>(HumbleError::AlreadyRedeemed)),
{
}

/// What the operator is told does not depend on the link or the key that was won.
pub proof fn no_notice_shows_what_was_won(
    job: Job,
    call: Call,
    tries: Tries,
    a: String,
    b: String,
    w: Result<(), ErrorSummary>,
)
    requires
        call is Burn,
    ensures
        next(job, At::SavingUrl { url: a }, Reply::Written(w)).effects == next(
            job,
            At::SavingUrl { url: b },
            Reply::Written(w),
        ).effects,
        next(job, At::SavingKey { key: a }, Reply::Written(w)).effects == next(
            job,
            At::SavingKey { key: b },
            Reply::Written(w),
        ).effects,
        next(job, At::Calling { call, tries }, Reply::Redeemed(Ok(GiftUrl(a)))).effects == next(
            job,
            At::Calling { call, tries },
            Reply::Redeemed(Ok(GiftUrl(b))),
        ).effects,
        next(job, At::Calling { call, tries }, Reply::Revealed(Ok(RevealedKey(a)))).effects == next(
            job,
            At::Calling { call, tries },
            Reply::Revealed(Ok(RevealedKey(b))),
        ).effects,
{
}

// ---- What a run without mishap comes to ---------------------------------------------------------

/// A friend's plain claim: if the claim and the game pass, the key store gives a link and the link
/// can be recorded, the run answers with that link.
pub proof fn a_clean_gift_is_answered_with_its_link(
    job: Job,
    claim: Reply,
    game: Reply,
    url: String,
)
    requires
        job.flavor == ClaimFlavor::Gift,
        !job.choice,
        claim_passes(job, claim),
        game_passes(job, game),
    ensures
        ({
            let t1 = next(job, first_turn().at, claim);
            let t2 = next(job, t1.at, game);
            let t3 = next(job, t2.at, Reply::Redeemed(Ok(GiftUrl(url))));
            let t4 = next(job, t3.at, Reply::Written(Ok(())));
            &&& t1.request is ReadGame
            &&& t2.request == (Request::Redeem {
                machine_name: job.machine_name,
                keyindex: job.keyindex,
            })
            &&& t3.request == Request::SaveUrl(url)
            &&& t4.request == Request::Answer(Answer::GiftUrl(url))
        }),
{
}

/// The owner's plain claim, likewise: the run answers with the key.
pub proof fn a_clean_reveal_is_answered_with_its_key(
    job: Job,
    claim: Reply,
    game: Reply,
    key: String,
)
    requires
        job.flavor == ClaimFlavor::SelfClaim,
        !job.choice,
        claim_passes(job, claim),
        game_passes(job, game),
    ensures
        ({
            let t1 = next(job, first_turn().at, claim);
            let t2 = next(job, t1.at, game);
            let t3 = next(job, t2.at, Reply::Revealed(Ok(RevealedKey(key))));
            let t4 = next(job, t3.at, Reply::Written(Ok(())));
            &&& t2.request == (Request::Reveal {
                machine_name: job.machine_name,
                keyindex: job.keyindex,
            })
            &&& t3.request == Request::SaveKey(key)
            &&& t4.request == Request::Answer(Answer::RevealedKey(key))
        }),
{
}

/// A friend's claim with a monthly pick: if no key bears the title yet, the snapshot is recorded, the
/// pick is spent, and the one key that is new and alive is redeemed, the run answers with its link.
pub proof fn a_clean_pick_is_answered_with_its_link(
    job: Job,
    claim: Reply,
    stored: Reply,
    game: Game,
    before: Order,
    after: Order,
    i: int,
    url: String,
)
    requires
        job.flavor == ClaimFlavor::Gift,
        job.choice,
        claim_passes(job, claim),
        game_passes(job, stored),
        bearing(before.keys@, game.title@, before.keys@.len()).len() == 0,
        new_pick(after.keys@, names(before.keys@), game.title@) == Pick::Unique(i),
        !after.keys@[i].expired,
    ensures
        ({
            let t1 = next(job, first_turn().at, claim);
            let t2 = next(job, t1.at, stored);
            let t3 = next(job, t2.at, Reply::Game(Read::Found(game)));
            let t4 = next(job, t3.at, Reply::Order(Ok(before)));
            let t5 = next(job, t4.at, Reply::Written(Ok(())));
            let t6 = next(job, t5.at, Reply::Chosen(Ok(())));
            let t7 = next(job, t6.at, Reply::Order(Ok(after)));
            let t8 = next(job, t7.at, Reply::Redeemed(Ok(GiftUrl(url))));
            let t9 = next(job, t8.at, Reply::Written(Ok(())));
            &&& t3.request is ReadOrder
            &&& t4.request is RecordIntent
            &&& t4.at.snapshot_names() == names(before.keys@)
            &&& t5.request == (Request::Choose { gift: true })
            &&& t6.request is ReadOrder
            &&& t7.request == (Request::Redeem {
                machine_name: after.keys@[i].machine_name,
                keyindex: after.keys@[i].keyindex,
            })
            &&& t8.request == Request::SaveUrl(url)
            &&& t9.request == Request::Answer(Answer::GiftUrl(url))
        }),
{
}

/// The owner's claim with a monthly pick, likewise: the run answers with the key.
pub proof fn a_clean_pick_is_answered_with_its_key(
    job: Job,
    claim: Reply,
    stored: Reply,
    game: Game,
    before: Order,
    after: Order,
    i: int,
    key: String,
)
    requires
        job.flavor == ClaimFlavor::SelfClaim,
        job.choice,
        claim_passes(job, claim),
        game_passes(job, stored),
        bearing(before.keys@, game.title@, before.keys@.len()).len() == 0,
        new_pick(after.keys@, names(before.keys@), game.title@) == Pick::Unique(i),
        !after.keys@[i].expired,
    ensures
        ({
            let t1 = next(job, first_turn().at, claim);
            let t2 = next(job, t1.at, stored);
            let t3 = next(job, t2.at, Reply::Game(Read::Found(game)));
            let t4 = next(job, t3.at, Reply::Order(Ok(before)));
            let t5 = next(job, t4.at, Reply::Written(Ok(())));
            let t6 = next(job, t5.at, Reply::Chosen(Ok(())));
            let t7 = next(job, t6.at, Reply::Order(Ok(after)));
            let t8 = next(job, t7.at, Reply::Revealed(Ok(RevealedKey(key))));
            let t9 = next(job, t8.at, Reply::Written(Ok(())));
            &&& t5.request == (Request::Choose { gift: false })
            &&& t7.request == (Request::Reveal {
                machine_name: after.keys@[i].machine_name,
                keyindex: after.keys@[i].keyindex,
            })
            &&& t8.request == Request::SaveKey(key)
            &&& t9.request == Request::Answer(Answer::RevealedKey(key))
        }),
{
}

// ---- Every run ends ---------------------------------------------------------------------------

pub open spec fn call_rank(call: Call) -> nat {
    match call {
        Call::PreRead { .. } => 13,
        Call::Choose { .. } => 9,
        Call::ReRead { .. } => 6,
        Call::Burn { .. } => 3,
    }
}

/// How many turns are left at most.
pub open spec fn rank(at: At) -> nat {
    match at {
        At::GateClaim => 18,
        At::GateGame => 17,
        At::Title => 16,
        At::Calling { call, tries: Tries::First { .. } } => call_rank(call) + 2,
        At::Healing { call } => call_rank(call) + 1,
        At::Calling { call, tries: Tries::Again(_) } => call_rank(call),
        At::Resuming { .. } => 12,
        At::Intending { .. } => 12,
        At::Recovering { .. } => 2,
        At::SavingUrl { .. } => 1,
        At::SavingKey { .. } => 1,
        At::Compensating => 1,
        At::Retiring { .. } => 1,
        At::Over => 0,
    }
}

/// Every reply brings a run closer to its end, and it ends with an answer: no run has more than
/// nineteen turns.
pub proof fn every_run_ends(job: Job, turns: Seq<Turn>, replies: Seq<Reply>)
    requires
        is_run(job, turns, replies),
    ensures
        turns.len() <= 19,
        turns.last().at is Over <==> turns.last().request is Answer,
{
    runs_down(job, turns, replies, turns.len() - 1);
    if turns.len() > 1 {
        let i = turns.len() - 2;
        assert(follows(job, turns, replies, i));
        rank_falls(job, turns[i].at, replies[i]);
    }
}

/// Every reply takes a run down at least one rank, and a run is over exactly when it answers.
#[verifier::spinoff_prover]
#[verifier::rlimit(40)]
proof fn rank_falls(job: Job, at: At, reply: Reply)
    requires
        at.expects(job.flavor, reply),
    ensures
        rank(next(job, at, reply).at) < rank(at),
        next(job, at, reply).at is Over <==> next(job, at, reply).request is Answer,
{
}

proof fn runs_down(job: Job, turns: Seq<Turn>, replies: Seq<Reply>, i: int)
    requires
        is_run(job, turns, replies),
        0 <= i < turns.len(),
    ensures
        rank(turns[i].at) + i <= 18,
    decreases i,
{
    if i > 0 {
        runs_down(job, turns, replies, i - 1);
        assert(follows(job, turns, replies, i - 1));
        rank_falls(job, turns[i - 1].at, replies[i - 1]);
    }
}

} // verus!
