//! One run of a claim, from the request to the answer.
//!
//! The run is a machine: given where it stands and the reply to its last request, it says what to do
//! on the way, and what to request next. It decides; whoever drives it talks to the store of record,
//! to the key store and to the operator.
use vstd::prelude::*;
use vstd::string::*;
use crate::humble::{
    choose_decision, error_decision, find_new_tpk, gift_error_decision, is_same_ignoring_case,
    new_pick, same_ignoring_case, Decision, GiftUrl, HumbleError, KeyEntry, Order, Pick,
    RevealedKey, TpkPick,
};
use crate::model::{Claim, ClaimState, Game, SELF_LINK_TOKEN};
use crate::operator_message::ErrorSummary;
use crate::protocol::{
    Answer, ChoicePoint, FulfillRequest, Inconclusive, Park, PickInconclusive, Unrecorded,
};
use crate::select::{selected, selected_first, selected_is_empty};
use crate::session::Heal;
use crate::text::{same, views};

verus! {

/// Whom a claim is for: a friend gets a gift link, the owner gets the key.
#[derive(Debug, Clone, Copy, PartialEq, Eq, Structural)]
pub enum ClaimFlavor {
    Gift,
    SelfClaim,
}

/// What a run is about. It does not change while the run lasts.
pub struct Job {
    pub flavor: ClaimFlavor,
    /// A monthly pick has to be spent before there is a key.
    pub choice: bool,
    pub claim_id: String,
    pub link_token: String,
    pub game_id: String,
    pub gamekey: String,
    /// The key's name in its order; for a monthly pick, the id of the game on offer.
    pub machine_name: String,
    pub keyindex: u32,
    /// The service can log in by itself.
    pub self_login: bool,
}

/// What was found in the store of record. An error is carried as its text.
pub enum Read<T> {
    Found(T),
    Missing,
    Failed(String),
}

/// A call to the key store that is tried again, once, after a fresh login.
pub enum Call {
    /// The order, before a pick is spent.
    PreRead { title: String },
    /// The pick.
    Choose { title: String, before: Order },
    /// The order, after the pick.
    ReRead { title: String, before: Order },
    /// The redemption of one key.
    Burn { machine_name: String, keyindex: u32 },
}

/// Whether a call is made for the first time, or after a login.
#[derive(Debug, Clone, Copy, PartialEq, Eq, Structural)]
pub enum Tries {
    First { may_heal: bool },
    Again(Heal),
}

/// Why a key is dead.
pub enum DeadReason {
    /// The key store said so when the key was redeemed.
    Said { msg: String, code: Option<String> },
    /// The order marks the key as expired.
    MarkedExpired { machine_name: String },
}

/// Where a run stands: what it waits for.
pub enum At {
    GateClaim,
    GateGame,
    Title,
    Calling { call: Call, tries: Tries },
    Healing { call: Call },
    /// The snapshot for a pick that seems to be spent already.
    Resuming { title: String, order: Order, found: usize, may_heal: bool },
    /// The snapshot before a pick.
    Intending { title: String, order: Order, may_heal: bool },
    Recovering { machine_name: String },
    SavingUrl { url: String },
    SavingKey { key: String },
    Compensating,
    Retiring { reason: DeadReason },
    Over,
}

/// What a run requests next.
pub enum Request {
    ReadClaim,
    ReadGame,
    ReadOrder,
    /// Record which keys the order held (see `At::snapshot`).
    RecordIntent,
    /// Spend a monthly pick on the game on offer.
    Choose { gift: bool },
    Redeem { machine_name: String, keyindex: u32 },
    Reveal { machine_name: String, keyindex: u32 },
    Login,
    SaveUrl(String),
    SaveKey(String),
    Compensate,
    /// Fail the claim and retire the game; `own` for a claim of the owner.
    Retire { own: bool, reason: DeadReason },
    Answer(Answer),
}

/// The reply to a request.
pub enum Reply {
    Claim(Read<Claim>),
    Game(Read<Game>),
    Order(Result<Order, HumbleError>),
    Chosen(Result<(), HumbleError>),
    Redeemed(Result<GiftUrl, HumbleError>),
    Revealed(Result<RevealedKey, HumbleError>),
    LoggedIn(Heal),
    Written(Result<(), ErrorSummary>),
}

/// What the operator is told.
pub enum Notice {
    SessionDead,
    UrlUnsaved(ErrorSummary),
    KeyUnsaved(ErrorSummary),
    CompensateFailed(ErrorSummary),
    StepUpFailed { machine_name: String, reason: String },
    AuthRejected { machine_name: String, status: u16, csrf_minted: bool },
    KeyDead { cause: DeadReason },
    RetireFailed { marked: bool, error: ErrorSummary },
    PickAlreadyRedeemed { title: String },
    ChoiceAlreadyRedeemed,
    NoKeyValue { machine_name: String },
    PickStepUpFailed { title: String, reason: String },
    PickRefused { title: String, reason: String },
    NoTpkYet { title: String },
    AmbiguousTpk { title: String },
}

/// What is done on the way to the next request, in order. Nothing of it is waited for.
pub enum Effect {
    CookieOk(bool),
    Tell(Notice),
}

/// One turn of a run.
pub struct Step {
    pub at: At,
    pub effects: Vec<Effect>,
    pub request: Request,
}

/// One turn of a run, with its effects as a sequence.
pub struct Turn {
    pub at: At,
    pub effects: Seq<Effect>,
    pub request: Request,
}

impl View for Step {
    type V = Turn;

    open spec fn view(&self) -> Turn {
        Turn { at: self.at, effects: self.effects@, request: self.request }
    }
}

// ---- Which replies fit ------------------------------------------------------------------------

impl Call {
    /// Whether `reply` is a reply to this call.
    pub open spec fn expects(self, flavor: ClaimFlavor, reply: Reply) -> bool {
        match self {
            Call::PreRead { .. } => reply is Order,
            Call::Choose { .. } => reply is Chosen,
            Call::ReRead { .. } => reply is Order,
            Call::Burn { .. } => match flavor {
                ClaimFlavor::Gift => reply is Redeemed,
                ClaimFlavor::SelfClaim => reply is Revealed,
            },
        }
    }
}

impl At {
    /// Whether `reply` is a reply to what the run waits for.
    pub open spec fn expects(self, flavor: ClaimFlavor, reply: Reply) -> bool {
        match self {
            At::GateClaim => reply is Claim,
            At::GateGame => reply is Game,
            At::Title => reply is Game,
            At::Calling { call, .. } => call.expects(flavor, reply),
            At::Healing { .. } => reply is LoggedIn,
            At::Resuming { .. } => reply is Written,
            At::Intending { .. } => reply is Written,
            At::Recovering { .. } => reply is Order,
            At::SavingUrl { .. } => reply is Written,
            At::SavingKey { .. } => reply is Written,
            At::Compensating => reply is Written,
            At::Retiring { .. } => reply is Written,
            At::Over => false,
        }
    }

    /// What holds of every place that a run reaches.
    pub open spec fn wf(self) -> bool {
        self matches At::Resuming { order, found, .. } ==> found < order.keys@.len()
    }
}

// ---- Keys of an order -------------------------------------------------------------------------

/// The names of the keys.
pub open spec fn names(keys: Seq<KeyEntry>) -> Seq<Seq<char>> {
    Seq::new(keys.len(), |i: int| keys[i].machine_name@)
}

/// The positions, below `n`, of the keys that bear the title.
pub open spec fn bearing(keys: Seq<KeyEntry>, title: Seq<char>, n: nat) -> Seq<int> {
    selected(n, |i: int| same_ignoring_case(keys[i].human_name@, title))
}

/// The positions, below `n`, of the keys with the name.
pub open spec fn named(keys: Seq<KeyEntry>, name: Seq<char>, n: nat) -> Seq<int> {
    selected(n, |i: int| keys[i].machine_name@ == name)
}

/// Every position so found is that of a key with the name.
pub proof fn named_is_exact(keys: Seq<KeyEntry>, name: Seq<char>, n: nat)
    ensures
        forall|k: int|
            0 <= k < named(keys, name, n).len() ==> 0 <= #[trigger] named(keys, name, n)[k] < n
                && keys[named(keys, name, n)[k]].machine_name@ == name,
    decreases n,
{
    if n > 0 {
        named_is_exact(keys, name, (n - 1) as nat);
    }
}

/// The positions, below `n`, of the keys with any other name.
pub open spec fn not_named(keys: Seq<KeyEntry>, name: Seq<char>, n: nat) -> Seq<int> {
    selected(n, |i: int| keys[i].machine_name@ != name)
}

/// The names of the keys at the given positions.
pub open spec fn names_at(keys: Seq<KeyEntry>, at: Seq<int>) -> Seq<Seq<char>> {
    Seq::new(at.len(), |k: int| keys[at[k]].machine_name@)
}

// ---- The turns --------------------------------------------------------------------------------

/// The run ends.
pub open spec fn stop(fx: Seq<Effect>, answer: Answer) -> Turn {
    Turn { at: At::Over, effects: fx, request: Request::Answer(answer) }
}

/// The run ends, and the claim stays pending.
pub open spec fn park(fx: Seq<Effect>, why: Park) -> Turn {
    stop(fx, Answer::Parked(why))
}

/// The session is dead and stays so: flag the cookie, tell the operator, park.
pub open spec fn session_dead(fx: Seq<Effect>) -> Turn {
    park(
        fx.push(Effect::CookieOk(false)).push(Effect::Tell(Notice::SessionDead)),
        Park::SessionDead,
    )
}

impl Call {
    /// How the call is requested.
    pub open spec fn ask(self, flavor: ClaimFlavor) -> Request {
        match self {
            Call::PreRead { .. } => Request::ReadOrder,
            Call::Choose { .. } => Request::Choose { gift: flavor == ClaimFlavor::Gift },
            Call::ReRead { .. } => Request::ReadOrder,
            Call::Burn { machine_name, keyindex } => match flavor {
                ClaimFlavor::Gift => Request::Redeem { machine_name, keyindex },
                ClaimFlavor::SelfClaim => Request::Reveal { machine_name, keyindex },
            },
        }
    }

    pub open spec fn made(self, flavor: ClaimFlavor, tries: Tries, fx: Seq<Effect>) -> Turn {
        Turn { at: At::Calling { call: self, tries }, effects: fx, request: self.ask(flavor) }
    }
}

/// The claim as the barrier before any redemption sees it.
pub open spec fn gate_claim(job: Job, claim: Read<Claim>) -> Turn {
    match claim {
        Read::Missing => park(Seq::empty(), Park::ClaimNotFound),
        Read::Failed(e) => park(Seq::empty(), Park::ClaimReadFailed(e)),
        Read::Found(c) => {
            if c.state != ClaimState::Pending && c.state != ClaimState::Fulfilled {
                park(Seq::empty(), Park::ClaimTerminal(c.state))
            } else if c.game_id@ != job.game_id@ {
                park(Seq::empty(), Park::LinkageMismatch)
            } else {
                Turn { at: At::GateGame, effects: Seq::empty(), request: Request::ReadGame }
            }
        },
    }
}

/// The game as the barrier before any redemption sees it.
pub open spec fn gate_game(job: Job, game: Read<Game>) -> Turn {
    match game {
        Read::Missing => park(Seq::empty(), Park::GameMissing),
        Read::Failed(e) => park(Seq::empty(), Park::GameReadFailed(e)),
        Read::Found(g) => {
            if g.gamekey@ != job.gamekey@ {
                park(Seq::empty(), Park::GamekeyDrift)
            } else if job.choice {
                Turn { at: At::Title, effects: Seq::empty(), request: Request::ReadGame }
            } else if g.machine_name@ != job.machine_name@ || g.keyindex != job.keyindex {
                park(Seq::empty(), Park::KeyDrift)
            } else {
                Call::Burn { machine_name: job.machine_name, keyindex: job.keyindex }.made(
                    job.flavor,
                    Tries::First { may_heal: job.self_login },
                    Seq::empty(),
                )
            }
        },
    }
}

/// The title under which a monthly pick's key will appear.
pub open spec fn got_title(job: Job, game: Read<Game>) -> Turn {
    match game {
        Read::Found(g) => Call::PreRead { title: g.title }.made(
            job.flavor,
            Tries::First { may_heal: job.self_login },
            Seq::empty(),
        ),
        _ => park(Seq::empty(), Park::Choice(ChoicePoint::GameMissing)),
    }
}

/// Whether a reply says that the session is dead.
pub open spec fn unauthorized(reply: Reply) -> bool {
    match reply {
        Reply::Order(Err(e)) => e is Unauthorized,
        Reply::Chosen(Err(e)) => e is Unauthorized,
        Reply::Redeemed(Err(e)) => e is Unauthorized,
        Reply::Revealed(Err(e)) => e is Unauthorized,
        _ => false,
    }
}

/// The key at hand is redeemed, unless the order marks it as expired.
pub open spec fn burn_key(job: Job, fx: Seq<Effect>, key: KeyEntry, may_heal: bool) -> Turn {
    if key.expired {
        let reason = DeadReason::MarkedExpired { machine_name: key.machine_name };
        Turn {
            at: At::Retiring { reason },
            effects: fx,
            request: Request::Retire { own: job.link_token@ == SELF_LINK_TOKEN@, reason },
        }
    } else {
        Call::Burn { machine_name: key.machine_name, keyindex: key.keyindex }.made(
            job.flavor,
            Tries::First { may_heal },
            fx,
        )
    }
}

/// The key was redeemed before: look for its value in the order.
pub open spec fn recover(fx: Seq<Effect>, machine_name: String) -> Turn {
    Turn { at: At::Recovering { machine_name }, effects: fx, request: Request::ReadOrder }
}

/// The order before a pick. A key that bears the title already means that the pick is spent.
pub open spec fn settle_pre_read(
    title: String,
    r: Result<Order, HumbleError>,
    fx: Seq<Effect>,
    may_heal: bool,
) -> Turn {
    match r {
        Ok(order) => {
            let hits = bearing(order.keys@, title@, order.keys@.len());
            Turn {
                at: if hits.len() > 0 {
                    At::Resuming { title, order, found: hits[0] as usize, may_heal }
                } else {
                    At::Intending { title, order, may_heal }
                },
                effects: fx,
                request: Request::RecordIntent,
            }
        },
        Err(HumbleError::Unauthorized) => session_dead(fx),
        Err(_) => park(fx, Park::Choice(ChoicePoint::PreRead)),
    }
}

/// Why a pick is left to a later look at the order.
pub open spec fn pick_detail(e: HumbleError) -> PickInconclusive {
    match e {
        HumbleError::ChooseFailed { .. } => PickInconclusive::Refused,
        HumbleError::SecureAreaStepUpFailed { .. } => PickInconclusive::StepUpFailed,
        HumbleError::RateLimited => PickInconclusive::RateLimited,
        HumbleError::Api(_) => PickInconclusive::Api,
        HumbleError::Network => PickInconclusive::Network,
        HumbleError::Parse => PickInconclusive::Parse,
        _ => PickInconclusive::Transient,
    }
}

/// A pick that neither worked nor met a dead session.
pub open spec fn choose_park(title: String, e: HumbleError, fx: Seq<Effect>) -> Turn {
    let told = match e {
        HumbleError::SecureAreaStepUpFailed { reason } => fx.push(
            Effect::Tell(Notice::PickStepUpFailed { title, reason }),
        ),
        HumbleError::ChooseFailed { reason } => fx.push(
            Effect::Tell(Notice::PickRefused { title, reason }),
        ),
        _ => fx,
    };
    park(told, Park::PickInconclusive(pick_detail(e)))
}

pub open spec fn settle_choose(
    job: Job,
    title: String,
    before: Order,
    r: Result<(), HumbleError>,
    fx: Seq<Effect>,
    may_heal: bool,
) -> Turn {
    match r {
        Ok(_) => Call::ReRead { title, before }.made(job.flavor, Tries::First { may_heal }, fx),
        Err(HumbleError::Unauthorized) => session_dead(fx),
        Err(e) => choose_park(title, e, fx),
    }
}

/// The order after a pick: the one key that is new is redeemed.
pub open spec fn settle_re_read(
    job: Job,
    title: String,
    before: Order,
    r: Result<Order, HumbleError>,
    fx: Seq<Effect>,
    may_heal: bool,
) -> Turn {
    match r {
        Ok(order) => match new_pick(order.keys@, names(before.keys@), title@) {
            Pick::Unique(i) => burn_key(job, fx, order.keys@[i], may_heal),
            Pick::Absent => park(
                fx.push(Effect::Tell(Notice::NoTpkYet { title })),
                Park::Choice(ChoicePoint::NoTpkYet),
            ),
            Pick::Ambiguous => park(
                fx.push(Effect::Tell(Notice::AmbiguousTpk { title })),
                Park::Choice(ChoicePoint::AmbiguousTpk),
            ),
        },
        Err(HumbleError::Unauthorized) => session_dead(fx),
        Err(_) => park(fx, Park::Choice(ChoicePoint::ReRead)),
    }
}

/// Why a redemption is left to a later look at the order.
pub open spec fn burn_detail(e: HumbleError) -> Inconclusive {
    match e {
        HumbleError::RedeemRefused { .. } => Inconclusive::Refused,
        HumbleError::AmbiguousRedeem => Inconclusive::Ambiguous,
        HumbleError::RateLimited => Inconclusive::RateLimited,
        HumbleError::RedeemAuthRejected { .. } => Inconclusive::AuthRejected,
        HumbleError::SecureAreaStepUpFailed { .. } => Inconclusive::StepUpFailed,
        _ => Inconclusive::Transient,
    }
}

/// A redemption that is left to a later look at the order. The operator is told where a persistent
/// cause would otherwise go unnoticed.
pub open spec fn burn_park(job: Job, machine_name: String, e: HumbleError, fx: Seq<Effect>) -> Turn {
    let plain_self = job.flavor == ClaimFlavor::SelfClaim && !job.choice;
    let told = match e {
        HumbleError::SecureAreaStepUpFailed { reason } => fx.push(
            Effect::Tell(Notice::StepUpFailed { machine_name, reason }),
        ),
        HumbleError::RedeemAuthRejected { status, csrf_minted } if !plain_self => fx.push(
            Effect::Tell(Notice::AuthRejected { machine_name, status, csrf_minted }),
        ),
        _ => fx,
    };
    park(
        told,
        if plain_self {
            Park::RevealInconclusive(burn_detail(e))
        } else {
            Park::RedeemInconclusive(burn_detail(e))
        },
    )
}

/// A key that was redeemed before. The slot goes back for a friend's plain claim alone: a spent pick
/// would be stranded, and the owner's key may still be in the order.
pub open spec fn already_redeemed(job: Job, machine_name: String, fx: Seq<Effect>) -> Turn {
    match job.flavor {
        ClaimFlavor::SelfClaim => recover(fx, machine_name),
        ClaimFlavor::Gift => if job.choice {
            park(
                fx.push(Effect::Tell(Notice::ChoiceAlreadyRedeemed)),
                Park::ChoiceAlreadyRedeemed,
            )
        } else {
            Turn { at: At::Compensating, effects: fx, request: Request::Compensate }
        },
    }
}

/// A redemption that failed.
pub open spec fn burn_failed(job: Job, machine_name: String, e: HumbleError, fx: Seq<Effect>) -> Turn {
    match error_decision(e) {
        Decision::Compensate => already_redeemed(job, machine_name, fx),
        Decision::ParkCookieDead => session_dead(fx),
        Decision::DeadKey => {
            let reason = DeadReason::Said { msg: e->KeyExpired_msg, code: e->KeyExpired_code };
            Turn {
                at: At::Retiring { reason },
                effects: fx,
                request: Request::Retire { own: job.link_token@ == SELF_LINK_TOKEN@, reason },
            }
        },
        _ => burn_park(job, machine_name, e, fx),
    }
}

/// A reply to a call, once no further login will be tried for it.
pub open spec fn settle(job: Job, call: Call, reply: Reply, fx: Seq<Effect>, may_heal: bool) -> Turn {
    match (call, reply) {
        (Call::PreRead { title }, Reply::Order(r)) => settle_pre_read(title, r, fx, may_heal),
        (Call::Choose { title, before }, Reply::Chosen(r)) => settle_choose(
            job,
            title,
            before,
            r,
            fx,
            may_heal,
        ),
        (Call::ReRead { title, before }, Reply::Order(r)) => settle_re_read(
            job,
            title,
            before,
            r,
            fx,
            may_heal,
        ),
        (Call::Burn { machine_name, .. }, Reply::Redeemed(r)) => match r {
            Ok(GiftUrl(url)) => Turn {
                at: At::SavingUrl { url },
                effects: fx,
                request: Request::SaveUrl(url),
            },
            Err(e) => burn_failed(job, machine_name, e, fx),
        },
        (Call::Burn { machine_name, .. }, Reply::Revealed(r)) => match r {
            Ok(RevealedKey(key)) => Turn {
                at: At::SavingKey { key },
                effects: fx,
                request: Request::SaveKey(key),
            },
            Err(e) => burn_failed(job, machine_name, e, fx),
        },
        _ => arbitrary(),
    }
}

/// A reply to a call. A dead session leads to one login, where that is still allowed; a call that
/// works after a login says so in the cookie's state.
pub open spec fn called(job: Job, call: Call, tries: Tries, reply: Reply) -> Turn {
    if unauthorized(reply) && tries == (Tries::First { may_heal: true }) {
        Turn { at: At::Healing { call }, effects: Seq::empty(), request: Request::Login }
    } else {
        let fx = match tries {
            Tries::Again(h) if !unauthorized(reply) => seq![Effect::CookieOk(h.is_durable())],
            _ => Seq::empty(),
        };
        settle(job, call, reply, fx, tries == (Tries::First { may_heal: true }))
    }
}

/// After a login: the call is made again, or the session is given up.
pub open spec fn healed(job: Job, call: Call, heal: Heal) -> Turn {
    if heal.is_usable() {
        call.made(job.flavor, Tries::Again(heal), Seq::empty())
    } else {
        session_dead(Seq::empty())
    }
}

/// After the snapshot for a pick that seems to be spent: the key at hand is used, no pick is spent.
pub open spec fn resumed(
    job: Job,
    title: String,
    key: KeyEntry,
    may_heal: bool,
    w: Result<(), ErrorSummary>,
) -> Turn {
    match w {
        Err(_) => park(Seq::empty(), Park::Choice(ChoicePoint::ResumeIntentWrite)),
        Ok(_) => if !key.redeemed {
            burn_key(job, Seq::empty(), key, may_heal)
        } else {
            match job.flavor {
                ClaimFlavor::Gift => park(
                    seq![Effect::Tell(Notice::PickAlreadyRedeemed { title })],
                    Park::Choice(ChoicePoint::AlreadyClaimedRedeemed),
                ),
                ClaimFlavor::SelfClaim => recover(Seq::empty(), key.machine_name),
            }
        },
    }
}

/// After the snapshot before a pick: the pick is spent only once the snapshot is safe.
pub open spec fn intended(
    job: Job,
    title: String,
    order: Order,
    may_heal: bool,
    w: Result<(), ErrorSummary>,
) -> Turn {
    match w {
        Err(_) => park(Seq::empty(), Park::Choice(ChoicePoint::IntentWrite)),
        Ok(_) => Call::Choose { title, before: order }.made(
            job.flavor,
            Tries::First { may_heal },
            Seq::empty(),
        ),
    }
}

/// The order in which the value of a key that was redeemed before is looked for.
pub open spec fn recovered(machine_name: String, r: Result<Order, HumbleError>) -> Turn {
    match r {
        Err(_) => park(Seq::empty(), Park::RecoverReadFailed),
        Ok(order) => {
            let at = named(order.keys@, machine_name@, order.keys@.len());
            if at.len() > 0 && order.keys@[at[0]].redeemed_key_val is Some {
                let key = order.keys@[at[0]].redeemed_key_val->0;
                Turn {
                    at: At::SavingKey { key },
                    effects: Seq::empty(),
                    request: Request::SaveKey(key),
                }
            } else {
                park(
                    seq![Effect::Tell(Notice::NoKeyValue { machine_name })],
                    Park::NoRecoverableKey,
                )
            }
        },
    }
}

/// After the last write. What was won is handed out only once it is recorded.
pub open spec fn saved(at: At, w: Result<(), ErrorSummary>) -> Turn {
    match (at, w) {
        (At::SavingUrl { url }, Ok(_)) => stop(Seq::empty(), Answer::GiftUrl(url)),
        (At::SavingUrl { .. }, Err(e)) => stop(
            seq![Effect::Tell(Notice::UrlUnsaved(e))],
            Answer::Unrecorded(Unrecorded::Gift),
        ),
        (At::SavingKey { key }, Ok(_)) => stop(Seq::empty(), Answer::RevealedKey(key)),
        (At::SavingKey { .. }, Err(e)) => stop(
            seq![Effect::Tell(Notice::KeyUnsaved(e))],
            Answer::Unrecorded(Unrecorded::Key),
        ),
        (At::Compensating, Ok(_)) => stop(Seq::empty(), Answer::AlreadyRedeemed),
        (At::Compensating, Err(e)) => stop(
            seq![Effect::Tell(Notice::CompensateFailed(e))],
            Answer::Unrecorded(Unrecorded::Compensation),
        ),
        (At::Retiring { reason }, Ok(_)) => stop(
            seq![Effect::Tell(Notice::KeyDead { cause: reason })],
            Answer::KeyDead,
        ),
        (At::Retiring { reason }, Err(error)) => park(
            seq![Effect::Tell(Notice::RetireFailed { marked: reason is MarkedExpired, error })],
            Park::DeadKeyUnrecorded,
        ),
        _ => arbitrary(),
    }
}

/// The turn that follows a reply.
pub open spec fn next(job: Job, at: At, reply: Reply) -> Turn {
    match (at, reply) {
        (At::GateClaim, Reply::Claim(c)) => gate_claim(job, c),
        (At::GateGame, Reply::Game(g)) => gate_game(job, g),
        (At::Title, Reply::Game(g)) => got_title(job, g),
        (At::Calling { call, tries }, r) => called(job, call, tries, r),
        (At::Healing { call }, Reply::LoggedIn(h)) => healed(job, call, h),
        (At::Resuming { title, order, found, may_heal }, Reply::Written(w)) => resumed(
            job,
            title,
            order.keys@[found as int],
            may_heal,
            w,
        ),
        (At::Intending { title, order, may_heal }, Reply::Written(w)) => intended(
            job,
            title,
            order,
            may_heal,
            w,
        ),
        (At::Recovering { machine_name }, Reply::Order(r)) => recovered(machine_name, r),
        (at, Reply::Written(w)) => saved(at, w),
        _ => arbitrary(),
    }
}

// ---- The machine ------------------------------------------------------------------------------

fn stop_with(effects: Vec<Effect>, answer: Answer) -> (r: Step)
    ensures
        r@ == stop(effects@, answer),
{
    Step { at: At::Over, effects, request: Request::Answer(answer) }
}

fn park_with(effects: Vec<Effect>, why: Park) -> (r: Step)
    ensures
        r@ == park(effects@, why),
{
    stop_with(effects, Answer::Parked(why))
}

fn tell_and_park(effects: Vec<Effect>, notice: Notice, why: Park) -> (r: Step)
    ensures
        r@ == park(effects@.push(Effect::Tell(notice)), why),
{
    let mut effects = effects;
    effects.push(Effect::Tell(notice));
    park_with(effects, why)
}

fn tell_and_stop(notice: Notice, answer: Answer) -> (r: Step)
    ensures
        r@ == stop(seq![Effect::Tell(notice)], answer),
{
    let mut effects: Vec<Effect> = Vec::new();
    effects.push(Effect::Tell(notice));
    assert(effects@ =~= seq![Effect::Tell(notice)]);
    stop_with(effects, answer)
}

/// Flags the cookie as dead and tells the operator.
fn choice_cookie_dead(effects: Vec<Effect>) -> (r: Step)
    ensures
        r@ == session_dead(effects@),
{
    let mut effects = effects;
    effects.push(Effect::CookieOk(false));
    tell_and_park(effects, Notice::SessionDead, Park::SessionDead)
}

impl DeadReason {
    fn copy(&self) -> (r: DeadReason)
        ensures
            r == *self,
    {
        match self {
            DeadReason::Said { msg, code } => DeadReason::Said {
                msg: msg.clone(),
                code: match code {
                    Some(c) => Some(c.clone()),
                    None => None,
                },
            },
            DeadReason::MarkedExpired { machine_name } => DeadReason::MarkedExpired {
                machine_name: machine_name.clone(),
            },
        }
    }
}

fn make(call: Call, flavor: ClaimFlavor, tries: Tries, effects: Vec<Effect>) -> (r: Step)
    ensures
        r@ == call.made(flavor, tries, effects@),
{
    let request = match &call {
        Call::PreRead { .. } => Request::ReadOrder,
        Call::Choose { .. } => Request::Choose { gift: matches!(flavor, ClaimFlavor::Gift) },
        Call::ReRead { .. } => Request::ReadOrder,
        Call::Burn { machine_name, keyindex } => match flavor {
            ClaimFlavor::Gift => Request::Redeem {
                machine_name: machine_name.clone(),
                keyindex: *keyindex,
            },
            ClaimFlavor::SelfClaim => Request::Reveal {
                machine_name: machine_name.clone(),
                keyindex: *keyindex,
            },
        },
    };
    Step { at: At::Calling { call, tries }, effects, request }
}

fn retire(job: &Job, reason: DeadReason, effects: Vec<Effect>) -> (r: Step)
    ensures
        r@ == (Turn {
            at: At::Retiring { reason },
            effects: effects@,
            request: Request::Retire { own: job.link_token@ == SELF_LINK_TOKEN@, reason },
        }),
{
    let own: bool = same(job.link_token.as_str(), SELF_LINK_TOKEN);
    let request = Request::Retire { own, reason: reason.copy() };
    Step { at: At::Retiring { reason }, effects, request }
}

/// The first half of the barrier: the claim must be open and point at the game.
fn redeem_gate_claim(job: &Job, claim: Read<Claim>) -> (r: Step)
    ensures
        r@ == gate_claim(*job, claim),
{
    match claim {
        Read::Missing => park_with(Vec::new(), Park::ClaimNotFound),
        Read::Failed(e) => park_with(Vec::new(), Park::ClaimReadFailed(e)),
        Read::Found(c) => {
            if !matches!(c.state, ClaimState::Pending | ClaimState::Fulfilled) {
                park_with(Vec::new(), Park::ClaimTerminal(c.state))
            } else if !same(c.game_id.as_str(), job.game_id.as_str()) {
                park_with(Vec::new(), Park::LinkageMismatch)
            } else {
                Step { at: At::GateGame, effects: Vec::new(), request: Request::ReadGame }
            }
        },
    }
}

/// The second half of the barrier: the key must be where it was when the claim was made.
fn redeem_gate_game(job: &Job, game: Read<Game>) -> (r: Step)
    ensures
        r@ == gate_game(*job, game),
{
    match game {
        Read::Missing => park_with(Vec::new(), Park::GameMissing),
        Read::Failed(e) => park_with(Vec::new(), Park::GameReadFailed(e)),
        Read::Found(g) => {
            if !same(g.gamekey.as_str(), job.gamekey.as_str()) {
                park_with(Vec::new(), Park::GamekeyDrift)
            } else if job.choice {
                Step { at: At::Title, effects: Vec::new(), request: Request::ReadGame }
            } else if !same(g.machine_name.as_str(), job.machine_name.as_str()) || g.keyindex
                != job.keyindex {
                park_with(Vec::new(), Park::KeyDrift)
            } else {
                make(
                    Call::Burn { machine_name: job.machine_name.clone(), keyindex: job.keyindex },
                    job.flavor,
                    Tries::First { may_heal: job.self_login },
                    Vec::new(),
                )
            }
        },
    }
}

/// Redeems the key of a pick, or retires it where the order marks it as expired.
fn claimed_tpk_terminal(job: &Job, effects: Vec<Effect>, key: &KeyEntry, may_heal: bool) -> (r: Step)
    ensures
        r@ == burn_key(*job, effects@, *key, may_heal),
{
    if key.expired {
        retire(
            job,
            DeadReason::MarkedExpired { machine_name: key.machine_name.clone() },
            effects,
        )
    } else {
        make(
            Call::Burn { machine_name: key.machine_name.clone(), keyindex: key.keyindex },
            job.flavor,
            Tries::First { may_heal },
            effects,
        )
    }
}

/// The first key that bears the title.
pub fn first_bearing(order: &Order, title: &str) -> (r: Option<usize>)
    ensures
        match r {
            Some(i) => i < order.keys@.len() && bearing(
                order.keys@,
                title@,
                order.keys@.len(),
            ).len() > 0 && bearing(order.keys@, title@, order.keys@.len())[0] == i,
            None => bearing(order.keys@, title@, order.keys@.len()).len() == 0,
        },
{
    let ghost p = |i: int| same_ignoring_case(order.keys@[i].human_name@, title@);
    for i in 0..order.keys.len()
        invariant
            p == (|i: int| same_ignoring_case(order.keys@[i].human_name@, title@)),
            forall|j: int| 0 <= j < i ==> !#[trigger] p(j),
    {
        if is_same_ignoring_case(order.keys[i].human_name.as_str(), title) {
            proof {
                assert(p(i as int));
                selected_first(order.keys@.len(), p, i as int);
            }
            return Some(i);
        }
        assert(!p(i as int));
    }
    proof {
        selected_is_empty(order.keys@.len(), p);
    }
    None
}

/// The first key with the name.
pub fn first_named(order: &Order, name: &str) -> (r: Option<usize>)
    ensures
        match r {
            Some(i) => i < order.keys@.len() && named(
                order.keys@,
                name@,
                order.keys@.len(),
            ).len() > 0 && named(order.keys@, name@, order.keys@.len())[0] == i,
            None => named(order.keys@, name@, order.keys@.len()).len() == 0,
        },
{
    let ghost p = |i: int| order.keys@[i].machine_name@ == name@;
    for i in 0..order.keys.len()
        invariant
            p == (|i: int| order.keys@[i].machine_name@ == name@),
            forall|j: int| 0 <= j < i ==> !#[trigger] p(j),
    {
        if same(order.keys[i].machine_name.as_str(), name) {
            proof {
                assert(p(i as int));
                selected_first(order.keys@.len(), p, i as int);
            }
            return Some(i);
        }
        assert(!p(i as int));
    }
    proof {
        selected_is_empty(order.keys@.len(), p);
    }
    None
}

/// The names of all keys of an order.
pub fn key_names(keys: &Vec<KeyEntry>) -> (r: Vec<String>)
    ensures
        views(r@) == names(keys@),
{
    let mut out: Vec<String> = Vec::new();
    for i in 0..keys.len()
        invariant
            views(out@) =~= names(keys@).take(i as int),
    {
        let name = keys[i].machine_name.clone();
        assert(views(out@.push(name)) =~= views(out@).push(name@));
        assert(names(keys@).take(i + 1) =~= names(keys@).take(i as int).push(name@));
        out.push(name);
    }
    assert(views(out@) =~= names(keys@));
    out
}

impl At {
    /// The names that are recorded before a run touches a pick's key: those of all keys that cannot
    /// be the pick's.
    pub open spec fn snapshot_names(self) -> Seq<Seq<char>> {
        match self {
            At::Resuming { order, found, .. } => names_at(
                order.keys@,
                not_named(
                    order.keys@,
                    order.keys@[found as int].machine_name@,
                    order.keys@.len(),
                ),
            ),
            At::Intending { order, .. } => names(order.keys@),
            _ => Seq::empty(),
        }
    }

    /// What `Request::RecordIntent` asks to record.
    pub fn snapshot(&self) -> (r: Vec<String>)
        requires
            self.wf(),
        ensures
            views(r@) == self.snapshot_names(),
    {
        match self {
            At::Resuming { order, found, .. } => {
                let mut out: Vec<String> = Vec::new();
                let ghost keys = order.keys@;
                let ghost name = keys[*found as int].machine_name@;
                assert(views(out@) =~= names_at(keys, not_named(keys, name, 0)));
                for i in 0..order.keys.len()
                    invariant
                        keys == order.keys@,
                        *found < keys.len(),
                        name == keys[*found as int].machine_name@,
                        views(out@) == names_at(keys, not_named(keys, name, i as nat)),
                {
                    if !same(
                        order.keys[i].machine_name.as_str(),
                        order.keys[*found].machine_name.as_str(),
                    ) {
                        let one = order.keys[i].machine_name.clone();
                        assert(views(out@.push(one)) =~= views(out@).push(one@));
                        assert(names_at(keys, not_named(keys, name, (i + 1) as nat)) =~= names_at(
                            keys,
                            not_named(keys, name, i as nat),
                        ).push(one@));
                        out.push(one);
                    }
                }
                out
            },
            At::Intending { order, .. } => key_names(&order.keys),
            _ => {
                let out: Vec<String> = Vec::new();
                assert(views(out@) =~= Seq::empty());
                out
            },
        }
    }
}

fn settled_pre_read(
    title: String,
    r: Result<Order, HumbleError>,
    effects: Vec<Effect>,
    may_heal: bool,
) -> (out: Step)
    ensures
        out@ == settle_pre_read(title, r, effects@, may_heal),
        out.at.wf(),
{
    match r {
        Ok(order) => match first_bearing(&order, title.as_str()) {
            Some(found) => Step {
                at: At::Resuming { title, order, found, may_heal },
                effects,
                request: Request::RecordIntent,
            },
            None => Step {
                at: At::Intending { title, order, may_heal },
                effects,
                request: Request::RecordIntent,
            },
        },
        Err(HumbleError::Unauthorized) => choice_cookie_dead(effects),
        Err(_) => park_with(effects, Park::Choice(ChoicePoint::PreRead)),
    }
}

fn pick_detail_of(e: &HumbleError) -> (r: PickInconclusive)
    ensures
        r == pick_detail(*e),
{
    match e {
        HumbleError::ChooseFailed { .. } => PickInconclusive::Refused,
        HumbleError::SecureAreaStepUpFailed { .. } => PickInconclusive::StepUpFailed,
        HumbleError::RateLimited => PickInconclusive::RateLimited,
        HumbleError::Api(_) => PickInconclusive::Api,
        HumbleError::Network => PickInconclusive::Network,
        HumbleError::Parse => PickInconclusive::Parse,
        _ => PickInconclusive::Transient,
    }
}

fn settled_choose(
    job: &Job,
    title: String,
    before: Order,
    r: Result<(), HumbleError>,
    effects: Vec<Effect>,
    may_heal: bool,
) -> (out: Step)
    ensures
        out@ == settle_choose(*job, title, before, r, effects@, may_heal),
{
    match choose_decision(&r) {
        Decision::Record => make(
            Call::ReRead { title, before },
            job.flavor,
            Tries::First { may_heal },
            effects,
        ),
        Decision::ParkCookieDead => choice_cookie_dead(effects),
        _ => match r {
            Err(e) => {
                let why = Park::PickInconclusive(pick_detail_of(&e));
                match e {
                    HumbleError::SecureAreaStepUpFailed { reason } => tell_and_park(
                        effects,
                        Notice::PickStepUpFailed { title, reason },
                        why,
                    ),
                    HumbleError::ChooseFailed { reason } => tell_and_park(
                        effects,
                        Notice::PickRefused { title, reason },
                        why,
                    ),
                    _ => park_with(effects, why),
                }
            },
            Ok(_) => {
                assert(false);
                choice_cookie_dead(effects)
            },
        },
    }
}

fn settled_re_read(
    job: &Job,
    title: String,
    before: Order,
    r: Result<Order, HumbleError>,
    effects: Vec<Effect>,
    may_heal: bool,
) -> (out: Step)
    ensures
        out@ == settle_re_read(*job, title, before, r, effects@, may_heal),
{
    match r {
        Ok(order) => match find_new_tpk(&order, &key_names(&before.keys), title.as_str()) {
            TpkPick::Unique(key) => claimed_tpk_terminal(job, effects, key, may_heal),
            TpkPick::Absent => tell_and_park(
                effects,
                Notice::NoTpkYet { title },
                Park::Choice(ChoicePoint::NoTpkYet),
            ),
            TpkPick::Ambiguous => tell_and_park(
                effects,
                Notice::AmbiguousTpk { title },
                Park::Choice(ChoicePoint::AmbiguousTpk),
            ),
        },
        Err(HumbleError::Unauthorized) => choice_cookie_dead(effects),
        Err(_) => park_with(effects, Park::Choice(ChoicePoint::ReRead)),
    }
}

fn burn_detail_of(e: &HumbleError) -> (r: Inconclusive)
    ensures
        r == burn_detail(*e),
{
    match e {
        HumbleError::RedeemRefused { .. } => Inconclusive::Refused,
        HumbleError::AmbiguousRedeem => Inconclusive::Ambiguous,
        HumbleError::RateLimited => Inconclusive::RateLimited,
        HumbleError::RedeemAuthRejected { .. } => Inconclusive::AuthRejected,
        HumbleError::SecureAreaStepUpFailed { .. } => Inconclusive::StepUpFailed,
        _ => Inconclusive::Transient,
    }
}

fn settled_burn_failure(
    job: &Job,
    machine_name: String,
    e: HumbleError,
    effects: Vec<Effect>,
) -> (out: Step)
    ensures
        out@ == burn_failed(*job, machine_name, e, effects@),
{
    let plain_self: bool = matches!(job.flavor, ClaimFlavor::SelfClaim) && !job.choice;
    match gift_error_decision(&e) {
        Decision::Compensate => match job.flavor {
            ClaimFlavor::SelfClaim => Step {
                at: At::Recovering { machine_name },
                effects,
                request: Request::ReadOrder,
            },
            ClaimFlavor::Gift => if job.choice {
                tell_and_park(effects, Notice::ChoiceAlreadyRedeemed, Park::ChoiceAlreadyRedeemed)
            } else {
                Step { at: At::Compensating, effects, request: Request::Compensate }
            },
        },
        Decision::ParkCookieDead => choice_cookie_dead(effects),
        _ => {
            let detail = burn_detail_of(&e);
            let why = if plain_self {
                Park::RevealInconclusive(detail)
            } else {
                Park::RedeemInconclusive(detail)
            };
            match e {
                HumbleError::KeyExpired { msg, code } => retire(
                    job,
                    DeadReason::Said { msg, code },
                    effects,
                ),
                HumbleError::SecureAreaStepUpFailed { reason } => tell_and_park(
                    effects,
                    Notice::StepUpFailed { machine_name, reason },
                    why,
                ),
                HumbleError::RedeemAuthRejected { status, csrf_minted } => if plain_self {
                    park_with(effects, why)
                } else {
                    tell_and_park(
                        effects,
                        Notice::AuthRejected { machine_name, status, csrf_minted },
                        why,
                    )
                },
                _ => park_with(effects, why),
            }
        },
    }
}

/// The redemption of a key as a gift has come back.
fn redeem_claimed_tpk(
    job: &Job,
    machine_name: String,
    r: Result<GiftUrl, HumbleError>,
    effects: Vec<Effect>,
) -> (out: Step)
    ensures
        out@ == (match r {
            Ok(GiftUrl(url)) => Turn {
                at: At::SavingUrl { url },
                effects: effects@,
                request: Request::SaveUrl(url),
            },
            Err(e) => burn_failed(*job, machine_name, e, effects@),
        }),
{
    match r {
        Ok(GiftUrl(url)) => {
            let request = Request::SaveUrl(url.clone());
            Step { at: At::SavingUrl { url }, effects, request }
        },
        Err(e) => settled_burn_failure(job, machine_name, e, effects),
    }
}

fn record_revealed_key(key: String, effects: Vec<Effect>) -> (out: Step)
    ensures
        out@ == (Turn {
            at: At::SavingKey { key },
            effects: effects@,
            request: Request::SaveKey(key),
        }),
{
    let request = Request::SaveKey(key.clone());
    Step { at: At::SavingKey { key }, effects, request }
}

/// The reveal of a key has come back.
fn reveal_claimed_tpk(
    job: &Job,
    machine_name: String,
    r: Result<RevealedKey, HumbleError>,
    effects: Vec<Effect>,
) -> (out: Step)
    ensures
        out@ == (match r {
            Ok(RevealedKey(key)) => Turn {
                at: At::SavingKey { key },
                effects: effects@,
                request: Request::SaveKey(key),
            },
            Err(e) => burn_failed(*job, machine_name, e, effects@),
        }),
{
    match r {
        Ok(RevealedKey(key)) => record_revealed_key(key, effects),
        Err(e) => settled_burn_failure(job, machine_name, e, effects),
    }
}

fn is_unauthorized(reply: &Reply) -> (r: bool)
    ensures
        r == unauthorized(*reply),
{
    match reply {
        Reply::Order(Err(e)) => matches!(e, HumbleError::Unauthorized),
        Reply::Chosen(Err(e)) => matches!(e, HumbleError::Unauthorized),
        Reply::Redeemed(Err(e)) => matches!(e, HumbleError::Unauthorized),
        Reply::Revealed(Err(e)) => matches!(e, HumbleError::Unauthorized),
        _ => false,
    }
}

/// A call has come back. A dead session leads to one login where that is still allowed.
fn selfheal_once(job: &Job, call: Call, tries: Tries, reply: Reply) -> (out: Step)
    requires
        call.expects(job.flavor, reply),
    ensures
        out@ == called(*job, call, tries, reply),
        out.at.wf(),
{
    let dead: bool = is_unauthorized(&reply);
    let may_heal: bool = match tries {
        Tries::First { may_heal } => may_heal,
        Tries::Again(_) => false,
    };
    if dead && may_heal {
        return Step {
            at: At::Healing { call },
            effects: Vec::new(),
            request: Request::Login,
        };
    }
    let mut effects: Vec<Effect> = Vec::new();
    if let Tries::Again(h) = tries {
        if !dead {
            effects.push(Effect::CookieOk(h.durable()));
        }
    }
    assert(effects@ =~= match tries {
        Tries::Again(h) if !unauthorized(reply) => seq![Effect::CookieOk(h.is_durable())],
        _ => Seq::empty(),
    });
    match (call, reply) {
        (Call::PreRead { title }, Reply::Order(r)) => settled_pre_read(title, r, effects, may_heal),
        (Call::Choose { title, before }, Reply::Chosen(r)) => settled_choose(
            job,
            title,
            before,
            r,
            effects,
            may_heal,
        ),
        (Call::ReRead { title, before }, Reply::Order(r)) => settled_re_read(
            job,
            title,
            before,
            r,
            effects,
            may_heal,
        ),
        (Call::Burn { machine_name, .. }, Reply::Redeemed(r)) => redeem_claimed_tpk(
            job,
            machine_name,
            r,
            effects,
        ),
        (Call::Burn { machine_name, .. }, Reply::Revealed(r)) => reveal_claimed_tpk(
            job,
            machine_name,
            r,
            effects,
        ),
        _ => {
            assert(false);
            choice_cookie_dead(effects)
        },
    }
}

/// The value of a key that was redeemed before, where the order still has it.
fn recover_already_redeemed_key(machine_name: String, r: Result<Order, HumbleError>) -> (out: Step)
    ensures
        out@ == recovered(machine_name, r),
{
    match r {
        Err(_) => park_with(Vec::new(), Park::RecoverReadFailed),
        Ok(order) => {
            if let Some(i) = first_named(&order, machine_name.as_str()) {
                if let Some(key) = &order.keys[i].redeemed_key_val {
                    return record_revealed_key(key.clone(), Vec::new());
                }
            }
            let effects: Vec<Effect> = Vec::new();
            assert(effects@.push(Effect::Tell(Notice::NoKeyValue { machine_name })) =~= seq![
                Effect::Tell(Notice::NoKeyValue { machine_name }),
            ]);
            tell_and_park(effects, Notice::NoKeyValue { machine_name }, Park::NoRecoverableKey)
        },
    }
}

/// The last write has come back.
fn after_write(at: At, w: Result<(), ErrorSummary>) -> (out: Step)
    requires
        at is SavingUrl || at is SavingKey || at is Compensating || at is Retiring,
    ensures
        out@ == saved(at, w),
{
    match (at, w) {
        (At::SavingUrl { url }, Ok(_)) => stop_with(Vec::new(), Answer::GiftUrl(url)),
        (At::SavingUrl { .. }, Err(e)) => tell_and_stop(
            Notice::UrlUnsaved(e),
            Answer::Unrecorded(Unrecorded::Gift),
        ),
        (At::SavingKey { key }, Ok(_)) => stop_with(Vec::new(), Answer::RevealedKey(key)),
        (At::SavingKey { .. }, Err(e)) => tell_and_stop(
            Notice::KeyUnsaved(e),
            Answer::Unrecorded(Unrecorded::Key),
        ),
        (At::Compensating, Ok(_)) => stop_with(Vec::new(), Answer::AlreadyRedeemed),
        (At::Compensating, Err(e)) => tell_and_stop(
            Notice::CompensateFailed(e),
            Answer::Unrecorded(Unrecorded::Compensation),
        ),
        (At::Retiring { reason }, Ok(_)) => tell_and_stop(
            Notice::KeyDead { cause: reason },
            Answer::KeyDead,
        ),
        (At::Retiring { reason }, Err(error)) => tell_and_stop(
            Notice::RetireFailed {
                marked: matches!(reason, DeadReason::MarkedExpired { .. }),
                error,
            },
            Answer::Parked(Park::DeadKeyUnrecorded),
        ),
        _ => {
            assert(false);
            stop_with(Vec::new(), Answer::KeyDead)
        },
    }
}

/// The first turn of a run.
pub fn start() -> (out: Step)
    ensures
        out@ == (Turn { at: At::GateClaim, effects: Seq::empty(), request: Request::ReadClaim }),
        out.at.wf(),
{
    Step { at: At::GateClaim, effects: Vec::new(), request: Request::ReadClaim }
}

/// The turn that follows a reply.
pub fn step(job: &Job, at: At, reply: Reply) -> (out: Step)
    requires
        at.wf(),
        at.expects(job.flavor, reply),
    ensures
        out@ == next(*job, at, reply),
        out.at.wf(),
{
    match (at, reply) {
        (At::GateClaim, Reply::Claim(c)) => redeem_gate_claim(job, c),
        (At::GateGame, Reply::Game(g)) => redeem_gate_game(job, g),
        (At::Title, Reply::Game(g)) => match g {
            Read::Found(g) => make(
                Call::PreRead { title: g.title },
                job.flavor,
                Tries::First { may_heal: job.self_login },
                Vec::new(),
            ),
            _ => park_with(Vec::new(), Park::Choice(ChoicePoint::GameMissing)),
        },
        (At::Calling { call, tries }, r) => selfheal_once(job, call, tries, r),
        (At::Healing { call }, Reply::LoggedIn(h)) => if h.usable() {
            make(call, job.flavor, Tries::Again(h), Vec::new())
        } else {
            choice_cookie_dead(Vec::new())
        },
        (At::Resuming { title, order, found, may_heal }, Reply::Written(w)) => match w {
            Err(_) => park_with(Vec::new(), Park::Choice(ChoicePoint::ResumeIntentWrite)),
            Ok(_) => if !order.keys[found].redeemed {
                claimed_tpk_terminal(job, Vec::new(), &order.keys[found], may_heal)
            } else {
                match job.flavor {
                    ClaimFlavor::Gift => tell_and_stop(
                        Notice::PickAlreadyRedeemed { title },
                        Answer::Parked(Park::Choice(ChoicePoint::AlreadyClaimedRedeemed)),
                    ),
                    ClaimFlavor::SelfClaim => Step {
                        at: At::Recovering { machine_name: order.keys[found].machine_name.clone() },
                        effects: Vec::new(),
                        request: Request::ReadOrder,
                    },
                }
            },
        },
        (At::Intending { title, order, may_heal }, Reply::Written(w)) => match w {
            Err(_) => park_with(Vec::new(), Park::Choice(ChoicePoint::IntentWrite)),
            Ok(_) => make(
                Call::Choose { title, before: order },
                job.flavor,
                Tries::First { may_heal },
                Vec::new(),
            ),
        },
        (At::Recovering { machine_name }, Reply::Order(r)) => recover_already_redeemed_key(
            machine_name,
            r,
        ),
        (at, Reply::Written(w)) => after_write(at, w),
        _ => {
            assert(false);
            stop_with(Vec::new(), Answer::KeyDead)
        },
    }
}

// ---- Entering a run past its pick -------------------------------------------------------------

/// A run that redeems the key of a pick that was spent before; it logs in no more.
pub fn finish_run(job: &Job, key: &KeyEntry) -> (out: Step)
    ensures
        out@ == burn_key(*job, Seq::empty(), *key, false),
        out.at.wf(),
{
    claimed_tpk_terminal(job, Vec::new(), key, false)
}

/// A run that redeems a key, whatever the order says of it; it logs in no more.
pub fn reveal_run(job: &Job, key: &KeyEntry) -> (out: Step)
    ensures
        out@ == (Call::Burn { machine_name: key.machine_name, keyindex: key.keyindex }).made(
            job.flavor,
            Tries::First { may_heal: false },
            Seq::empty(),
        ),
        out.at.wf(),
{
    make(
        Call::Burn { machine_name: key.machine_name.clone(), keyindex: key.keyindex },
        job.flavor,
        Tries::First { may_heal: false },
        Vec::new(),
    )
}

/// A run that looks for the value of a key that was redeemed before.
pub fn recover_run(key: &KeyEntry) -> (out: Step)
    ensures
        out@ == recover(Seq::empty(), key.machine_name),
        out.at.wf(),
{
    Step {
        at: At::Recovering { machine_name: key.machine_name.clone() },
        effects: Vec::new(),
        request: Request::ReadOrder,
    }
}

// ---- From a request to a run ------------------------------------------------------------------

/// What a request leads to.
pub enum Task {
    Claim(Job),
    Sync,
    ValidateCookie,
}

/// Whether `job` is what `req` asks for.
pub open spec fn is_job_of(job: Job, req: FulfillRequest, self_login: bool) -> bool {
    &&& job.self_login == self_login
    &&& match req {
        FulfillRequest::Gift {
            claim_id,
            link_token,
            game_id,
            gamekey,
            machine_name,
            keyindex,
            requires_choice,
        } => {
            &&& job.flavor == ClaimFlavor::Gift
            &&& job.choice == requires_choice
            &&& job.claim_id == claim_id
            &&& job.link_token == link_token
            &&& job.game_id == game_id
            &&& job.gamekey == gamekey
            &&& job.machine_name == machine_name
            &&& job.keyindex == keyindex
        },
        FulfillRequest::SelfClaim {
            claim_id,
            game_id,
            gamekey,
            machine_name,
            keyindex,
            requires_choice,
        } => {
            &&& job.flavor == ClaimFlavor::SelfClaim
            &&& job.choice == requires_choice
            &&& job.claim_id == claim_id
            &&& job.link_token@ == SELF_LINK_TOKEN@
            &&& job.game_id == game_id
            &&& job.gamekey == gamekey
            &&& job.machine_name == machine_name
            &&& job.keyindex == keyindex
        },
        _ => false,
    }
}

/// Takes a request to the task it asks for.
pub fn handle(req: FulfillRequest, self_login: bool) -> (r: Task)
    ensures
        match req {
            FulfillRequest::Sync => r is Sync,
            FulfillRequest::ValidateCookie => r is ValidateCookie,
            _ => r matches Task::Claim(job) && is_job_of(job, req, self_login),
        },
{
    match req {
        FulfillRequest::Gift {
            claim_id,
            link_token,
            game_id,
            gamekey,
            machine_name,
            keyindex,
            requires_choice,
        } => Task::Claim(
            Job {
                flavor: ClaimFlavor::Gift,
                choice: requires_choice,
                claim_id,
                link_token,
                game_id,
                gamekey,
                machine_name,
                keyindex,
                self_login,
            },
        ),
        FulfillRequest::SelfClaim {
            claim_id,
            game_id,
            gamekey,
            machine_name,
            keyindex,
            requires_choice,
        } => Task::Claim(
            Job {
                flavor: ClaimFlavor::SelfClaim,
                choice: requires_choice,
                claim_id,
                link_token: String::from_str(SELF_LINK_TOKEN),
                game_id,
                gamekey,
                machine_name,
                keyindex,
                self_login,
            },
        ),
        FulfillRequest::Sync => Task::Sync,
        FulfillRequest::ValidateCookie => Task::ValidateCookie,
    }
}

} // verus!
