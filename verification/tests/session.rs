use fulfillment::humble::HumbleError;
use fulfillment::operator_message::{ErrorSummary, ReqIds};
use fulfillment::protocol::FulfillResponse;
use fulfillment::session::{
    flagged, handle_validate_cookie, probe, refresh_session, set_cookie_ok, start_login, totp_wait,
    Heal, LoginAt, LoginError, LoginReply, LoginRequest, Probe, SyncState,
};

fn error(refused: bool) -> LoginReply {
    let mut ids = ReqIds::new(Some("stream"), 1);
    LoginReply::LoggedIn(Err(LoginError {
        refused,
        summary: ErrorSummary::of("HumbleError", &mut ids),
    }))
}

#[test]
fn a_heal_is_usable_or_durable_or_neither() {
    assert!(Heal::Persisted.usable() && Heal::Persisted.durable());
    assert!(Heal::Unpersisted.usable() && !Heal::Unpersisted.durable());
    assert!(!Heal::Failed.usable() && !Heal::Failed.durable());
}

#[test]
fn without_a_place_for_the_cookie_there_is_no_login() {
    let s = start_login(false);
    assert!(matches!(s.request, LoginRequest::Done(Heal::Failed)) && s.told.is_none());
    assert!(matches!(start_login(true).request, LoginRequest::Login));
}

#[test]
fn a_login_is_persisted_and_told() {
    let s = refresh_session(LoginAt::First, LoginReply::LoggedIn(Ok("cookie".into())));
    assert!(matches!(&s.request, LoginRequest::Persist(c) if c == "cookie"));
    let s = refresh_session(s.at, LoginReply::Persisted(true));
    assert!(matches!(s.request, LoginRequest::Done(Heal::Persisted)));
    assert!(s.told.unwrap().as_str().contains("self-login refreshed it automatically"));
    let s = refresh_session(LoginAt::Persisting, LoginReply::Persisted(false));
    assert!(matches!(s.request, LoginRequest::Done(Heal::Unpersisted)));
    assert!(s.told.unwrap().as_str().contains("writing the refreshed cookie to SSM FAILED"));
}

#[test]
fn a_refused_login_is_tried_once_more() {
    let s = refresh_session(LoginAt::First, error(true));
    assert!(matches!(s.request, LoginRequest::WaitAndLogin) && s.told.is_none());
    let s = refresh_session(s.at, error(true));
    assert!(matches!(s.request, LoginRequest::Done(Heal::Failed)));
    assert_eq!(
        s.told.unwrap().as_str(),
        "humble self-login FAILED ([HumbleError req stream-0]) — session still dead; break-glass: update the humble-cookie SSM param directly (AWS console/CLI)"
    );
    let s = refresh_session(LoginAt::First, error(false));
    assert!(matches!(s.request, LoginRequest::Done(Heal::Failed)));
}

#[test]
fn the_wait_ends_in_the_next_window() {
    assert_eq!(totp_wait(0), 31);
    assert_eq!(totp_wait(29), 2);
    assert_eq!(totp_wait(61), 30);
    assert_eq!(totp_wait(-1), 2);
    assert_eq!(totp_wait(i64::MIN), 31 - i64::MIN.rem_euclid(30) as u64);
}

fn state() -> SyncState {
    SyncState {
        last_run_epoch: 7,
        ok: true,
        cookie_ok: true,
        games_written: 3,
        message: "m".into(),
        private_pinged: true,
    }
}

#[test]
fn only_the_flag_is_flipped() {
    assert_eq!(
        set_cookie_ok(Ok(Some(state())), false),
        Some(SyncState { cookie_ok: false, ..state() })
    );
    assert_eq!(set_cookie_ok(Err(()), false), None);
    let blank = flagged(None, true);
    assert_eq!(
        blank,
        SyncState {
            last_run_epoch: 0,
            ok: false,
            cookie_ok: true,
            games_written: 0,
            message: "".into(),
            private_pinged: false
        }
    );
}

#[test]
fn a_look_at_the_cookie_tells_dead_from_unknown() {
    assert_eq!(probe(&Ok(vec![])), Probe::Alive);
    assert_eq!(probe(&Err(HumbleError::Unauthorized)), Probe::Dead);
    assert_eq!(probe(&Err(HumbleError::RateLimited)), Probe::Unknown);
    let (r, w) = handle_validate_cookie(Probe::Alive, Heal::Failed, Ok(Some(state())));
    assert_eq!(r, FulfillResponse::CookieStatus { ok: true });
    assert_eq!(w, Some(state()));
    let (r, w) = handle_validate_cookie(Probe::Dead, Heal::Unpersisted, Err(()));
    assert_eq!(r, FulfillResponse::CookieStatus { ok: false });
    assert_eq!(w.map(|s| s.cookie_ok), Some(false));
    let (r, _) = handle_validate_cookie(Probe::Dead, Heal::Persisted, Ok(None));
    assert_eq!(r, FulfillResponse::CookieStatus { ok: true });
    let (r, w) = handle_validate_cookie(Probe::Unknown, Heal::Failed, Ok(Some(state())));
    assert_eq!(
        r,
        FulfillResponse::Error {
            message: "humble unreachable — cookie state unknown, try again".into()
        }
    );
    assert!(w.is_none());
}
