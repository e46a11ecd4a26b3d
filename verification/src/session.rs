//! The session with the store, and how it is brought back to life.
use vstd::prelude::*;
use vstd::string::*;
use crate::humble::HumbleError;
use crate::operator_message::{fmt_text, part_texts, ErrorSummary, OperatorMessage, Part};
use crate::protocol::FulfillResponse;
use crate::wording;

verus! {

pub const COOKIE_DEAD_MSG: &'static str =
    "humble session cookie is DEAD and self-login could not heal it (not configured, or failed — a failure pings separately with the reason) — break-glass: update the humble-cookie SSM param directly (AWS console/CLI, SecureString overwrite).";

pub const COOKIE_DEAD_SELFHEAL_MSG: &'static str =
    "humble session died during a gift redeem and the in-line self-heal could not revive it — claim parked for reconcile (the self-login ping just before this one has the details); break-glass: update the humble-cookie SSM param directly (AWS console/CLI, SecureString overwrite).";

pub const SESSION_HEALED_MSG: &'static str =
    "humble session had died and self-login refreshed it automatically (no action needed). If these recur often, the account may be trending toward a rate-limit or new-device challenge.";

pub const SESSION_PERSIST_FAILED_MSG: &'static str =
    "humble self-login worked but writing the refreshed cookie to SSM FAILED — the session is fine this run, but every invoke will re-login until the write succeeds (check the fulfillment ssm:PutParameter grant / SSM health).";

/// How an attempt to log in again has ended.
#[derive(Debug, Clone, Copy, PartialEq, Eq, Structural)]
pub enum Heal {
    /// Logged in, and the new cookie is kept for later runs.
    Persisted,
    /// Logged in, but the new cookie is known to this run alone.
    Unpersisted,
    Failed,
}

impl Heal {
    /// Whether this run can go on with the session.
    pub open spec fn is_usable(self) -> bool {
        self != Heal::Failed
    }

    /// Whether later runs will find the session alive too.
    pub open spec fn is_durable(self) -> bool {
        self == Heal::Persisted
    }

    pub fn usable(self) -> (r: bool)
        ensures
            r == self.is_usable(),
    {
        !matches!(self, Heal::Failed)
    }

    pub fn durable(self) -> (r: bool)
        ensures
            r == self.is_durable(),
    {
        matches!(self, Heal::Persisted)
    }
}

// ---- Logging in -------------------------------------------------------------------------------

/// Where an attempt to log in stands.
#[derive(Debug, Clone, Copy, PartialEq, Eq, Structural)]
pub enum LoginAt {
    First,
    Second,
    Persisting,
    Over,
}

/// What an attempt to log in requests next.
pub enum LoginRequest {
    Login,
    /// Wait until the one-time password has changed, then log in.
    WaitAndLogin,
    /// Keep the new cookie for later runs.
    Persist(String),
    Done(Heal),
}

/// The reply to a request.
pub enum LoginReply {
    /// The new cookie. An error is carried as whether it is a refused login, and as its summary for
    /// the operator.
    LoggedIn(Result<String, LoginError>),
    Persisted(bool),
}

/// How a login can fail.
pub struct LoginError {
    /// The login was refused; anything else went wrong on the way.
    pub refused: bool,
    pub summary: ErrorSummary,
}

/// One turn of an attempt to log in. What is told is told before the request is made.
pub struct LoginStep {
    pub at: LoginAt,
    pub told: Option<OperatorMessage>,
    pub request: LoginRequest,
}

/// Whether `out` starts an attempt: without a place to keep the cookie there is none.
pub open spec fn login_starts(out: LoginStep, self_login: bool) -> bool {
    &&& out.told is None
    &&& if self_login {
        out.at == LoginAt::First && out.request is Login
    } else {
        out.at == LoginAt::Over && out.request == LoginRequest::Done(Heal::Failed)
    }
}

/// Whether `out` is the turn that follows a reply. A login that was refused is tried once more, with
/// the next one-time password.
pub open spec fn login_follows(out: LoginStep, at: LoginAt, reply: LoginReply) -> bool {
    match reply {
        LoginReply::LoggedIn(Ok(cookie)) => {
            &&& out.at == LoginAt::Persisting
            &&& out.told is None
            &&& out.request == LoginRequest::Persist(cookie)
        },
        LoginReply::LoggedIn(Err(e)) => if at == LoginAt::First && e.refused {
            &&& out.at == LoginAt::Second
            &&& out.told is None
            &&& out.request is WaitAndLogin
        } else {
            &&& out.at == LoginAt::Over
            &&& out.told matches Some(m) && m@ == fmt_text(
                wording::LOGIN_FAILED@,
                seq![Part::Error(e.summary).text()],
            )
            &&& out.request == LoginRequest::Done(Heal::Failed)
        },
        LoginReply::Persisted(ok) => {
            &&& out.at == LoginAt::Over
            &&& out.told matches Some(m) && m@ == if ok {
                SESSION_HEALED_MSG@
            } else {
                SESSION_PERSIST_FAILED_MSG@
            }
            &&& out.request == LoginRequest::Done(
                if ok {
                    Heal::Persisted
                } else {
                    Heal::Unpersisted
                },
            )
        },
    }
}

impl LoginAt {
    /// Whether `reply` is a reply to what the attempt waits for.
    pub open spec fn expects(self, reply: LoginReply) -> bool {
        match self {
            LoginAt::First => reply is LoggedIn,
            LoginAt::Second => reply is LoggedIn,
            LoginAt::Persisting => reply is Persisted,
            LoginAt::Over => false,
        }
    }
}

/// The first turn of an attempt to log in.
pub fn start_login(self_login: bool) -> (out: LoginStep)
    ensures
        login_starts(out, self_login),
{
    if self_login {
        LoginStep { at: LoginAt::First, told: None, request: LoginRequest::Login }
    } else {
        LoginStep { at: LoginAt::Over, told: None, request: LoginRequest::Done(Heal::Failed) }
    }
}

/// The turn of an attempt to log in that follows a reply.
pub fn refresh_session(at: LoginAt, reply: LoginReply) -> (out: LoginStep)
    requires
        at.expects(reply),
    ensures
        login_follows(out, at, reply),
{
    match reply {
        LoginReply::LoggedIn(Ok(cookie)) => LoginStep {
            at: LoginAt::Persisting,
            told: None,
            request: LoginRequest::Persist(cookie),
        },
        LoginReply::LoggedIn(Err(e)) => if matches!(at, LoginAt::First) && e.refused {
            LoginStep { at: LoginAt::Second, told: None, request: LoginRequest::WaitAndLogin }
        } else {
            let parts = [Part::Error(e.summary)];
            assert(part_texts(parts@) =~= seq![Part::Error(e.summary).text()]);
            LoginStep {
                at: LoginAt::Over,
                told: Some(OperatorMessage::fmt(wording::LOGIN_FAILED, &parts)),
                request: LoginRequest::Done(Heal::Failed),
            }
        },
        LoginReply::Persisted(ok) => if ok {
            LoginStep {
                at: LoginAt::Over,
                told: Some(OperatorMessage::literal(SESSION_HEALED_MSG)),
                request: LoginRequest::Done(Heal::Persisted),
            }
        } else {
            LoginStep {
                at: LoginAt::Over,
                told: Some(OperatorMessage::literal(SESSION_PERSIST_FAILED_MSG)),
                request: LoginRequest::Done(Heal::Unpersisted),
            }
        },
    }
}

/// A login is tried twice at most: a second time only after a refusal, and never a third.
pub proof fn a_login_is_tried_twice_at_most(out: LoginStep, at: LoginAt, reply: LoginReply)
    requires
        at.expects(reply),
        login_follows(out, at, reply),
    ensures
        !(out.request is Login),
        out.request is WaitAndLogin ==> at == LoginAt::First && out.at == LoginAt::Second,
        at == LoginAt::Second || at == LoginAt::Persisting ==> !(out.request is WaitAndLogin),
        out.request matches LoginRequest::Done(h) ==> (h == Heal::Persisted <==> reply
            == LoginReply::Persisted(true)),
{
}

/// A cookie that was won is kept before the attempt ends, and the attempt ends as the keeping went. A
/// login that was refused the first time is tried again; one that fails in any other way, or again, ends
/// the attempt, and the operator reads why.
pub proof fn a_login_ends_as_it_went(out: LoginStep, at: LoginAt, reply: LoginReply)
    requires
        at.expects(reply),
        login_follows(out, at, reply),
    ensures
        reply matches LoginReply::LoggedIn(Ok(cookie)) ==> out.request == LoginRequest::Persist(cookie)
            && out.told is None && out.at == LoginAt::Persisting,
        reply matches LoginReply::LoggedIn(Err(e)) ==> (at == LoginAt::First && e.refused
            ==> out.request is WaitAndLogin && out.told is None) && (at == LoginAt::Second
            || !e.refused ==> out.at == LoginAt::Over && out.request == LoginRequest::Done(Heal::Failed) && (
        out.told matches Some(m) && m@ == fmt_text(
            wording::LOGIN_FAILED@,
            seq![Part::Error(e.summary).text()],
        ))),
        reply matches LoginReply::Persisted(ok) ==> out.at == LoginAt::Over && out.told is Some && (ok ==> out.request
            == LoginRequest::Done(Heal::Persisted) && (out.told->0)@ == SESSION_HEALED_MSG@) && (!ok
            ==> out.request == LoginRequest::Done(Heal::Unpersisted) && (out.told->0)@
            == SESSION_PERSIST_FAILED_MSG@),
{
}

/// A session that was won is good for this run, and for later ones exactly if its cookie was kept.
pub proof fn a_session_lasts_if_its_cookie_was_kept(h: Heal)
    ensures
        h.is_usable() <==> h == Heal::Persisted || h == Heal::Unpersisted,
        h.is_durable() <==> h == Heal::Persisted,
        h.is_durable() ==> h.is_usable(),
{
}

/// There is an attempt exactly if the service can log in by itself.
pub proof fn an_attempt_takes_a_login(out: LoginStep, self_login: bool)
    requires
        login_starts(out, self_login),
    ensures
        self_login <==> out.request is Login,
        !self_login ==> out.request == LoginRequest::Done(Heal::Failed),
{
}

/// How many seconds to wait, at `now` in seconds since the Unix epoch, until the next one-time
/// password is in force, and one second to be safe. A password lasts for thirty seconds.
pub fn totp_wait(now: i64) -> (r: u64)
    ensures
        r == 31 - now % 30,
        2 <= r <= 31,
        (now + r - 1) / 30 == now as int / 30 + 1,
{
    let elapsed: u64 = if now >= 0 {
        now as u64 % 30
    } else {
        29 - (-(now + 1)) as u64 % 30
    };
    31 - elapsed
}

// ---- The state of the last run ----------------------------------------------------------------

/// What is kept of the last run.
#[derive(Debug, PartialEq, Eq)]
pub struct SyncState {
    pub last_run_epoch: i64,
    pub ok: bool,
    pub cookie_ok: bool,
    pub games_written: u32,
    pub message: String,
    pub private_pinged: bool,
}

/// A state that nothing was recorded in yet.
pub open spec fn is_blank_state(s: SyncState) -> bool {
    &&& s.last_run_epoch == 0
    &&& !s.ok
    &&& !s.cookie_ok
    &&& s.games_written == 0
    &&& s.message@.len() == 0
    &&& !s.private_pinged
}

/// Whether `r` is `s`, or a blank state where there is none, with the cookie's flag set to `ok`.
pub open spec fn with_flag(r: SyncState, s: Option<SyncState>, ok: bool) -> bool {
    &&& r.cookie_ok == ok
    &&& match s {
        Some(s) => {
            &&& r.last_run_epoch == s.last_run_epoch
            &&& r.ok == s.ok
            &&& r.games_written == s.games_written
            &&& r.message == s.message
            &&& r.private_pinged == s.private_pinged
        },
        None => is_blank_state(SyncState { cookie_ok: false, ..r }),
    }
}

/// The state with the cookie's flag set, all else as it was.
pub fn flagged(state: Option<SyncState>, ok: bool) -> (r: SyncState)
    ensures
        with_flag(r, state, ok),
{
    match state {
        Some(s) => SyncState {
            last_run_epoch: s.last_run_epoch,
            ok: s.ok,
            cookie_ok: ok,
            games_written: s.games_written,
            message: s.message,
            private_pinged: s.private_pinged,
        },
        None => SyncState {
            last_run_epoch: 0,
            ok: false,
            cookie_ok: ok,
            games_written: 0,
            message: String::new(),
            private_pinged: false,
        },
    }
}

/// What to write when the cookie's health is learned outside a sync. Where the state could not be
/// read nothing is written: a blank state would wipe out what the last run has left.
pub fn set_cookie_ok(read: Result<Option<SyncState>, ()>, ok: bool) -> (r: Option<SyncState>)
    ensures
        match read {
            Ok(s) => r matches Some(w) && with_flag(w, s, ok),
            Err(_) => r is None,
        },
{
    match read {
        Ok(s) => Some(flagged(s, ok)),
        Err(_) => None,
    }
}

// ---- Looking at the cookie --------------------------------------------------------------------

/// What a look at the cookie has shown.
#[derive(Debug, Clone, Copy, PartialEq, Eq, Structural)]
pub enum Probe {
    Alive,
    /// Dead, so a login is due.
    Dead,
    /// The key store could not be asked.
    Unknown,
}

/// What the reply to a cheap call says of the cookie.
pub open spec fn shown(listing: Result<Vec<String>, HumbleError>) -> Probe {
    match listing {
        Ok(_) => Probe::Alive,
        Err(HumbleError::Unauthorized) => Probe::Dead,
        Err(_) => Probe::Unknown,
    }
}

/// The cookie is alive exactly if the call worked, and dead exactly if it was refused for the cookie.
pub proof fn only_a_refusal_shows_a_dead_cookie(listing: Result<Vec<String>, HumbleError>)
    ensures
        shown(listing) == Probe::Alive <==> listing is Ok,
        shown(listing) == Probe::Dead <==> (listing matches Err(e) && e is Unauthorized),
{
}

/// What the reply to a cheap call says of the cookie.
pub fn probe(listing: &Result<Vec<String>, HumbleError>) -> (r: Probe)
    ensures
        r == shown(*listing),
{
    match listing {
        Ok(_) => Probe::Alive,
        Err(HumbleError::Unauthorized) => Probe::Dead,
        Err(_) => Probe::Unknown,
    }
}

/// Whether `r` is the answer to a look at the cookie, and `w` the state to write, if any. A login counts
/// only where later runs will have it too; where the key store could not be asked nothing is written.
pub open spec fn is_validated(
    r: FulfillResponse,
    w: Option<SyncState>,
    probe: Probe,
    heal: Heal,
    read: Result<Option<SyncState>, ()>,
) -> bool {
    match probe {
        Probe::Unknown => (r matches FulfillResponse::Error { message } && message@
            == "humble unreachable — cookie state unknown, try again"@) && w is None,
        _ => {
            let ok = probe == Probe::Alive || heal.is_durable();
            &&& r == (FulfillResponse::CookieStatus { ok })
            &&& w matches Some(w) && with_flag(
                w,
                match read {
                    Ok(s) => s,
                    Err(_) => None,
                },
                ok,
            )
        },
    }
}

/// The answer and the state that is written say the same of the cookie: that it is well exactly if it
/// was alive, or is again for later runs too. The state keeps all else that the last run has left.
pub proof fn a_look_tells_and_records_the_same(
    r: FulfillResponse,
    w: Option<SyncState>,
    probe: Probe,
    heal: Heal,
    read: Result<Option<SyncState>, ()>,
)
    requires
        is_validated(r, w, probe, heal, read),
    ensures
        probe == Probe::Unknown <==> w is None,
        probe == Probe::Unknown <==> r is Error,
        probe == Probe::Alive ==> r == (FulfillResponse::CookieStatus { ok: true }),
        probe == Probe::Dead ==> r == (FulfillResponse::CookieStatus { ok: heal == Heal::Persisted }),
        w matches Some(s) ==> r == (FulfillResponse::CookieStatus { ok: s.cookie_ok }),
        w matches Some(s) ==> (read matches Ok(Some(old)) ==> s.last_run_epoch == old.last_run_epoch
            && s.ok == old.ok && s.games_written == old.games_written && s.message == old.message
            && s.private_pinged == old.private_pinged),
{
}

/// Where no run has left anything, the flag is all that is recorded.
pub proof fn a_first_flag_is_all_there_is(r: SyncState, ok: bool)
    requires
        with_flag(r, None, ok),
    ensures
        r.cookie_ok == ok,
        !r.ok && !r.private_pinged,
        r.last_run_epoch == 0 && r.games_written == 0,
        r.message@ == ""@,
{
    reveal_strlit("");
    assert(r.message@ =~= ""@);
}

/// Setting the cookie's flag changes nothing else of what the last run has left.
pub proof fn a_flag_changes_nothing_else(r: SyncState, s: SyncState, ok: bool)
    requires
        with_flag(r, Some(s), ok),
    ensures
        r.cookie_ok == ok,
        r == (SyncState { cookie_ok: ok, ..s }),
{
}

/// The answer to a look at the cookie, and the state to write, if any.
pub fn handle_validate_cookie(probe: Probe, heal: Heal, read: Result<Option<SyncState>, ()>) -> (r: (
    FulfillResponse,
    Option<SyncState>,
))
    ensures
        is_validated(r.0, r.1, probe, heal, read),
{
    match probe {
        Probe::Unknown => (
            FulfillResponse::Error {
                message: String::from_str("humble unreachable — cookie state unknown, try again"),
            },
            None,
        ),
        _ => {
            let ok: bool = matches!(probe, Probe::Alive) || heal.durable();
            let state = match read {
                Ok(s) => s,
                Err(_) => None,
            };
            (FulfillResponse::CookieStatus { ok }, Some(flagged(state, ok)))
        },
    }
}

} // verus!
