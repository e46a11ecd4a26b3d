use fulfillment::claim_flow::{
    handle, start, step, At, ClaimFlavor, Effect, Job, Read, Reply, Request, Step, Task,
};
use fulfillment::humble::{GiftUrl, HumbleError, KeyEntry, Order, RevealedKey};
use fulfillment::model::{game_id, Claim, ClaimState, Game, GameStatus};
use fulfillment::operator_message::{ErrorSummary, ReqIds};
use fulfillment::protocol::{parked_choice, FulfillRequest, FulfillResponse};
use fulfillment::session::Heal;

fn job(flavor: ClaimFlavor, choice: bool) -> Job {
    Job {
        flavor,
        choice,
        claim_id: "c1".into(),
        link_token: if flavor == ClaimFlavor::Gift { "tok".into() } else { "SELF".into() },
        game_id: "gk:mn".into(),
        gamekey: "gk".into(),
        machine_name: "mn".into(),
        keyindex: 3,
        self_login: true,
    }
}

fn claim(state: ClaimState, game_id: &str) -> Claim {
    Claim {
        id: "c1".into(),
        link_token: "tok".into(),
        game_id: game_id.into(),
        state,
        created_at: 0,
        choice_pre_tpks: None,
    }
}

fn game(gamekey: &str, mn: &str, keyindex: u32) -> Game {
    Game {
        id: game_id(gamekey, mn),
        title: "Octopath".into(),
        bundle: "B".into(),
        gamekey: gamekey.into(),
        machine_name: mn.into(),
        key_type: "steam".into(),
        giftable: true,
        hidden: false,
        status: GameStatus::Pending,
        claim_id: Some("c1".into()),
        artwork_url: None,
        keyindex,
        requires_choice: false,
        steam_app_id: None,
        appid_source: None,
        owned_by_ben: false,
    }
}

fn key(mn: &str, human: &str) -> KeyEntry {
    KeyEntry {
        machine_name: mn.into(),
        human_name: human.into(),
        key_type: "steam".into(),
        redeemed: false,
        expired: false,
        giftable: true,
        keyindex: 7,
        redeemed_key_val: None,
        steam_app_id: None,
        is_gift: None,
    }
}

fn order(keys: Vec<KeyEntry>) -> Order {
    Order {
        gamekey: "gk".into(),
        bundle_name: "Choice".into(),
        product_machine_name: "may_2026_choice".into(),
        keys,
    }
}

fn failed() -> Reply {
    let mut ids = ReqIds::new(Some("stream"), 1);
    Reply::Written(Err(ErrorSummary::of("StoreError", &mut ids)))
}

fn ok() -> Reply {
    Reply::Written(Ok(()))
}

/// Runs a job on the given replies; returns what was told, the cookie's states, and the last turn.
fn run(job: &Job, replies: Vec<Reply>) -> (Vec<String>, Vec<bool>, Step) {
    let mut told = Vec::new();
    let mut cookies = Vec::new();
    let mut s = start();
    for r in replies {
        s = step(job, s.at, r);
        for e in std::mem::take(&mut s.effects) {
            match e {
                Effect::CookieOk(ok) => cookies.push(ok),
                Effect::Tell(n) => told.push(n.message(job).as_str().to_string()),
            }
        }
    }
    (told, cookies, s)
}

fn answer(s: Step) -> FulfillResponse {
    match s.request {
        Request::Answer(a) => a.response(),
        _ => panic!("the run is not over"),
    }
}

fn parked(reason: &str) -> FulfillResponse {
    FulfillResponse::Parked { reason: reason.into() }
}

fn gate() -> Vec<Reply> {
    vec![
        Reply::Claim(Read::Found(claim(ClaimState::Pending, "gk:mn"))),
        Reply::Game(Read::Found(game("gk", "mn", 3))),
    ]
}

fn with(mut a: Vec<Reply>, b: Vec<Reply>) -> Vec<Reply> {
    a.extend(b);
    a
}

fn gift() -> Job {
    job(ClaimFlavor::Gift, false)
}

#[test]
fn a_plain_gift_goes_through() {
    let j = gift();
    let (_, _, s) = run(&j, gate());
    match &s.request {
        Request::Redeem { machine_name, keyindex } => {
            assert_eq!((machine_name.as_str(), *keyindex), ("mn", 3))
        }
        _ => panic!("the key should be redeemed"),
    }
    let (told, cookies, s) =
        run(&j, with(gate(), vec![Reply::Redeemed(Ok(GiftUrl("https://gift".into()))), ok()]));
    assert!(told.is_empty() && cookies.is_empty());
    assert_eq!(answer(s), FulfillResponse::GiftUrl { url: "https://gift".into() });
}

#[test]
fn the_barrier_turns_away_what_does_not_fit() {
    let j = gift();
    let cases: Vec<(Vec<Reply>, &str)> = vec![
        (vec![Reply::Claim(Read::Missing)], "pre-redeem gate: claim not found"),
        (
            vec![Reply::Claim(Read::Failed("boom".into()))],
            "pre-redeem gate: claim read failed: boom",
        ),
        (
            vec![Reply::Claim(Read::Found(claim(ClaimState::Compensated, "gk:mn")))],
            "pre-redeem gate: claim state Compensated is terminal — refusing to touch a key",
        ),
        (
            vec![Reply::Claim(Read::Found(claim(ClaimState::Failed, "gk:mn")))],
            "pre-redeem gate: claim state Failed is terminal — refusing to touch a key",
        ),
        (
            vec![Reply::Claim(Read::Found(claim(ClaimState::Fulfilled, "gk:other")))],
            "pre-redeem gate: claim/game linkage mismatch",
        ),
    ];
    for (replies, want) in cases {
        let (_, _, s) = run(&j, replies);
        assert_eq!(answer(s), parked(want));
    }
    let games: Vec<(Read<Game>, &str)> = vec![
        (Read::Missing, "pre-redeem gate: game record missing"),
        (Read::Failed("boom".into()), "pre-redeem gate: game read failed: boom"),
        (Read::Found(game("other", "mn", 3)), "pre-redeem gate: gamekey drift since claim"),
        (
            Read::Found(game("gk", "other", 3)),
            "pre-redeem gate: key coordinates drifted since claim",
        ),
        (
            Read::Found(game("gk", "mn", 4)),
            "pre-redeem gate: key coordinates drifted since claim",
        ),
    ];
    for (g, want) in games {
        let replies =
            vec![Reply::Claim(Read::Found(claim(ClaimState::Pending, "gk:mn"))), Reply::Game(g)];
        let (_, _, s) = run(&j, replies);
        assert_eq!(answer(s), parked(want));
    }
}

#[test]
fn a_burned_key_gives_the_slot_back() {
    let j = gift();
    let burned = || with(gate(), vec![Reply::Redeemed(Err(HumbleError::AlreadyRedeemed))]);
    let (_, _, s) = run(&j, burned());
    assert!(matches!(s.request, Request::Compensate));
    let (_, _, s) = run(&j, with(burned(), vec![ok()]));
    assert_eq!(answer(s), FulfillResponse::AlreadyRedeemed);
    let (told, _, s) = run(&j, with(burned(), vec![failed()]));
    assert_eq!(told, vec!["compensate failed for claim c1: [StoreError req stream-0]"]);
    assert_eq!(
        answer(s),
        FulfillResponse::Error { message: "recording failed — flagged for ben".into() }
    );
}

#[test]
fn a_link_that_could_not_be_recorded_is_not_handed_out() {
    let j = gift();
    let (told, _, s) = run(
        &j,
        with(gate(), vec![Reply::Redeemed(Ok(GiftUrl("https://gift".into()))), failed()]),
    );
    assert_eq!(told.len(), 1);
    assert!(told[0].starts_with("fulfill after redeem failed for claim c1: [StoreError req stream-0] — gift URL was generated"));
    assert_eq!(
        answer(s),
        FulfillResponse::Error {
            message: "gift generated but recording failed — flagged for ben".into()
        }
    );
}

#[test]
fn a_dead_session_is_healed_once() {
    let j = gift();
    let dead = || with(gate(), vec![Reply::Redeemed(Err(HumbleError::Unauthorized))]);
    let (_, _, s) = run(&j, dead());
    assert!(matches!(s.request, Request::Login));
    let (_, cookies, s) = run(
        &j,
        with(
            dead(),
            vec![
                Reply::LoggedIn(Heal::Unpersisted),
                Reply::Redeemed(Ok(GiftUrl("u".into()))),
                ok(),
            ],
        ),
    );
    assert_eq!(cookies, vec![false]);
    assert_eq!(answer(s), FulfillResponse::GiftUrl { url: "u".into() });
    let (told, cookies, s) = run(
        &j,
        with(
            dead(),
            vec![
                Reply::LoggedIn(Heal::Persisted),
                Reply::Redeemed(Err(HumbleError::Unauthorized)),
            ],
        ),
    );
    assert_eq!(cookies, vec![false]);
    assert_eq!(told.len(), 1);
    assert!(told[0].contains("the in-line self-heal could not revive it"));
    assert_eq!(answer(s), parked("humble session needs attention"));
    let (_, cookies, s) = run(&j, with(dead(), vec![Reply::LoggedIn(Heal::Failed)]));
    assert_eq!(cookies, vec![false]);
    assert_eq!(answer(s), parked("humble session needs attention"));
}

#[test]
fn without_self_login_a_dead_session_parks_at_once() {
    let mut j = gift();
    j.self_login = false;
    let (told, cookies, s) =
        run(&j, with(gate(), vec![Reply::Redeemed(Err(HumbleError::Unauthorized))]));
    assert_eq!(cookies, vec![false]);
    assert!(told[0].starts_with("humble session cookie is DEAD and self-login could not heal it"));
    assert_eq!(answer(s), parked("humble session needs attention"));
}

#[test]
fn inconclusive_redemptions_are_parked_with_their_reason() {
    let cases: Vec<(HumbleError, &str, usize)> = vec![
        (HumbleError::RedeemRefused { msg: "m".into(), code: None }, "refused", 0),
        (HumbleError::AmbiguousRedeem, "ambiguous", 0),
        (HumbleError::RateLimited, "rate-limited", 0),
        (HumbleError::RedeemAuthRejected { status: 403, csrf_minted: true }, "redeem-auth-rejected", 1),
        (
            HumbleError::SecureAreaStepUpFailed { reason: "locked".into() },
            "secure-area-step-up-failed",
            1,
        ),
        (HumbleError::Network, "transient", 0),
    ];
    for (e, detail, pings) in cases {
        let (told, _, s) = run(&gift(), with(gate(), vec![Reply::Redeemed(Err(e))]));
        assert_eq!(told.len(), pings);
        assert_eq!(
            answer(s),
            parked(&format!("humble call inconclusive: park for reconcile ({detail})"))
        );
    }
}

#[test]
fn the_owner_is_told_less_of_a_refused_write() {
    let j = job(ClaimFlavor::SelfClaim, false);
    let e = HumbleError::RedeemAuthRejected { status: 403, csrf_minted: false };
    let (told, _, s) = run(&j, with(gate(), vec![Reply::Revealed(Err(e))]));
    assert!(told.is_empty());
    assert_eq!(
        answer(s),
        parked("self-claim reveal inconclusive: park for reconcile (redeem-auth-rejected)")
    );
    let e = HumbleError::RedeemAuthRejected { status: 403, csrf_minted: false };
    let (told, _, _) = run(&gift(), with(gate(), vec![Reply::Redeemed(Err(e))]));
    assert!(told[0].contains("(status 403). humble rejected its own captured csrf token"));
}

#[test]
fn a_dead_key_fails_the_claim() {
    let j = gift();
    let dead = || {
        with(
            gate(),
            vec![Reply::Redeemed(Err(HumbleError::KeyExpired {
                msg: "expired".into(),
                code: Some("E1".into()),
            }))],
        )
    };
    let (_, _, s) = run(&j, dead());
    match &s.request {
        Request::Retire { own, reason } => {
            assert!(!own);
            assert_eq!(reason.words(), "expired [code: E1]");
        }
        _ => panic!("the key should be retired"),
    }
    let (told, _, s) = run(&j, with(dead(), vec![ok()]));
    assert!(told[0].starts_with(
        "claim c1 (gk:mn) hit a DEAD key — humble says: \"expired [code: E1]\"."
    ));
    assert!(told[0].ends_with("Nothing retries this."));
    assert_eq!(answer(s), FulfillResponse::KeyDead);
    let (told, _, s) = run(&j, with(dead(), vec![failed()]));
    assert!(told[0].starts_with("dead-key fail-claim write for c1 failed: [StoreError req"));
    assert_eq!(answer(s), parked("dead key detected but recording failed — will retry"));
}

#[test]
fn the_owner_gets_a_key_and_recovers_one_that_was_revealed() {
    let j = job(ClaimFlavor::SelfClaim, false);
    let (_, _, s) =
        run(&j, with(gate(), vec![Reply::Revealed(Ok(RevealedKey("KEY".into()))), ok()]));
    assert_eq!(answer(s), FulfillResponse::RevealedKey { key: "KEY".into() });
    let gone = || with(gate(), vec![Reply::Revealed(Err(HumbleError::AlreadyRedeemed))]);
    let mut had = key("mn", "Octopath");
    had.redeemed_key_val = Some("OLD".into());
    let (_, _, s) = run(&j, with(gone(), vec![Reply::Order(Ok(order(vec![had]))), ok()]));
    assert_eq!(answer(s), FulfillResponse::RevealedKey { key: "OLD".into() });
    let (told, _, s) =
        run(&j, with(gone(), vec![Reply::Order(Ok(order(vec![key("mn", "Octopath")])))]));
    assert!(told[0].starts_with("self-claim c1 (mn): humble says already-redeemed"));
    assert_eq!(answer(s), parked("already-redeemed with no recoverable key value"));
    let (_, _, s) = run(&j, with(gone(), vec![Reply::Order(Err(HumbleError::Unauthorized))]));
    assert_eq!(answer(s), parked("recover re-read failed: park for reconcile"));
    let (told, _, s) = run(
        &j,
        with(gate(), vec![Reply::Revealed(Ok(RevealedKey("KEY".into()))), failed()]),
    );
    assert!(told[0].starts_with("self-claim fulfill failed for claim c1"));
    assert_eq!(
        answer(s),
        FulfillResponse::Error {
            message: "key revealed but recording failed — flagged for ben".into()
        }
    );
}

fn choice_gate() -> Vec<Reply> {
    with(gate(), vec![Reply::Game(Read::Found(game("gk", "mn", 3)))])
}

#[test]
fn a_pick_is_spent_only_after_its_snapshot() {
    let j = job(ClaimFlavor::Gift, true);
    let (_, _, s) = run(
        &j,
        with(choice_gate(), vec![Reply::Order(Ok(order(vec![key("old", "Old Game")])))]),
    );
    assert!(matches!(s.request, Request::RecordIntent));
    assert_eq!(s.at.snapshot(), vec!["old"]);
    let (_, _, s) = run(
        &j,
        with(
            choice_gate(),
            vec![Reply::Order(Ok(order(vec![key("old", "Old Game")]))), failed()],
        ),
    );
    assert_eq!(
        answer(s),
        parked("choice fulfillment inconclusive: park for reconcile (intent-write)")
    );
    let spent = || {
        with(choice_gate(), vec![Reply::Order(Ok(order(vec![key("old", "Old Game")]))), ok()])
    };
    let (_, _, s) = run(&j, spent());
    assert!(matches!(s.request, Request::Choose { gift: true }));
    let after = order(vec![key("old", "Old Game"), key("new", "Something")]);
    let (_, _, s) =
        run(&j, with(spent(), vec![Reply::Chosen(Ok(())), Reply::Order(Ok(after))]));
    match &s.request {
        Request::Redeem { machine_name, keyindex } => {
            assert_eq!((machine_name.as_str(), *keyindex), ("new", 7))
        }
        _ => panic!("the new key should be redeemed"),
    }
    let after = order(vec![key("old", "Old Game"), key("new", "Something")]);
    let (_, _, s) = run(
        &j,
        with(
            spent(),
            vec![
                Reply::Chosen(Ok(())),
                Reply::Order(Ok(after)),
                Reply::Redeemed(Ok(GiftUrl("u".into()))),
                ok(),
            ],
        ),
    );
    assert_eq!(answer(s), FulfillResponse::GiftUrl { url: "u".into() });
}

#[test]
fn a_pick_that_did_not_work_is_parked() {
    let j = job(ClaimFlavor::Gift, true);
    let spent = || with(choice_gate(), vec![Reply::Order(Ok(order(vec![]))), ok()]);
    let cases: Vec<(HumbleError, &str, usize)> = vec![
        (HumbleError::ChooseFailed { reason: "no picks".into() }, "choose-refused", 1),
        (
            HumbleError::SecureAreaStepUpFailed { reason: "r".into() },
            "secure-area-step-up-failed",
            1,
        ),
        (HumbleError::RateLimited, "rate-limited", 0),
        (HumbleError::Api(500), "ambiguous-api", 0),
        (HumbleError::Network, "ambiguous-network", 0),
        (HumbleError::Parse, "ambiguous-parse", 0),
        (HumbleError::AlreadyRedeemed, "transient", 0),
        (HumbleError::KeyExpired { msg: "m".into(), code: None }, "transient", 0),
    ];
    for (e, detail, pings) in cases {
        let (told, _, s) = run(&j, with(spent(), vec![Reply::Chosen(Err(e))]));
        assert_eq!(told.len(), pings, "{detail}");
        assert_eq!(
            answer(s),
            parked(&format!("choice choose inconclusive: park for reconcile ({detail})"))
        );
    }
    let (told, _, s) =
        run(&j, with(spent(), vec![Reply::Chosen(Ok(())), Reply::Order(Ok(order(vec![])))]));
    assert!(told[0].contains("the new key hasn't appeared in the order yet"));
    assert_eq!(
        answer(s),
        parked("choice fulfillment inconclusive: park for reconcile (no-tpk-yet)")
    );
    let two = order(vec![key("a", "A"), key("b", "B")]);
    let (told, _, s) = run(&j, with(spent(), vec![Reply::Chosen(Ok(())), Reply::Order(Ok(two))]));
    assert!(told[0].contains("several new keys appeared"));
    assert_eq!(
        answer(s),
        parked("choice fulfillment inconclusive: park for reconcile (ambiguous-tpk)")
    );
    let (_, _, s) = run(
        &j,
        with(spent(), vec![Reply::Chosen(Ok(())), Reply::Order(Err(HumbleError::RateLimited))]),
    );
    assert_eq!(
        answer(s),
        parked("choice fulfillment inconclusive: park for reconcile (re-read)")
    );
}

#[test]
fn a_key_that_bears_the_title_is_used_without_a_pick() {
    let j = job(ClaimFlavor::Gift, true);
    let there = || {
        with(
            choice_gate(),
            vec![Reply::Order(Ok(order(vec![
                key("old", "Old Game"),
                key("octo", "OCTOPATH"),
                key("octo", "Twin"),
            ])))],
        )
    };
    let (_, _, s) = run(&j, there());
    assert_eq!(s.at.snapshot(), vec!["old"]);
    let (_, _, s) = run(&j, with(there(), vec![ok()]));
    assert!(matches!(s.request, Request::Redeem { .. }));
    let (_, _, s) = run(&j, with(there(), vec![failed()]));
    assert_eq!(
        answer(s),
        parked("choice fulfillment inconclusive: park for reconcile (resume-intent-write)")
    );
    let mut spent = key("octo", "Octopath");
    spent.redeemed = true;
    let replies = vec![Reply::Order(Ok(order(vec![spent]))), ok()];
    let (told, _, s) = run(&j, with(choice_gate(), replies));
    assert!(told[0].contains("already claimed AND redeemed on humble"));
    assert_eq!(
        answer(s),
        parked("choice fulfillment inconclusive: park for reconcile (already-claimed-redeemed)")
    );
    let mut spent = key("octo", "Octopath");
    spent.redeemed = true;
    let replies = vec![Reply::Order(Ok(order(vec![spent]))), ok()];
    let (_, _, s) = run(&job(ClaimFlavor::SelfClaim, true), with(choice_gate(), replies));
    assert!(matches!(s.at, At::Recovering { .. }));
    let mut dead = key("octo", "Octopath");
    dead.expired = true;
    let replies = vec![Reply::Order(Ok(order(vec![dead]))), ok()];
    let (_, _, s) = run(&j, with(choice_gate(), replies));
    match &s.request {
        Request::Retire { reason, .. } => assert_eq!(
            reason.words(),
            "tpk octo is marked expired on the order (structural is_expired)"
        ),
        _ => panic!("an expired key is retired"),
    }
}

#[test]
fn a_spent_pick_is_never_given_back() {
    let j = job(ClaimFlavor::Gift, true);
    let there = with(
        choice_gate(),
        vec![
            Reply::Order(Ok(order(vec![key("octo", "Octopath")]))),
            ok(),
            Reply::Redeemed(Err(HumbleError::AlreadyRedeemed)),
        ],
    );
    let (told, _, s) = run(&j, there);
    assert!(told[0].contains("this claim was NOT compensated"));
    assert_eq!(answer(s), parked("choice key already redeemed — parked for human recovery"));
}

#[test]
fn one_login_serves_the_whole_run() {
    let j = job(ClaimFlavor::Gift, true);
    let (_, cookies, s) = run(
        &j,
        with(
            choice_gate(),
            vec![
                Reply::Order(Err(HumbleError::Unauthorized)),
                Reply::LoggedIn(Heal::Persisted),
                Reply::Order(Ok(order(vec![]))),
                ok(),
                Reply::Chosen(Err(HumbleError::Unauthorized)),
            ],
        ),
    );
    assert_eq!(cookies, vec![true, false]);
    assert_eq!(answer(s), parked("humble session needs attention"));
}

#[test]
fn a_vanished_game_and_an_unreadable_order_park_the_pick() {
    let j = job(ClaimFlavor::Gift, true);
    let (_, _, s) = run(&j, with(gate(), vec![Reply::Game(Read::Missing)]));
    assert_eq!(
        answer(s),
        parked("choice fulfillment inconclusive: park for reconcile (game-missing)")
    );
    let (_, _, s) =
        run(&j, with(choice_gate(), vec![Reply::Order(Err(HumbleError::TpkdDictAbsent))]));
    assert_eq!(
        answer(s),
        parked("choice fulfillment inconclusive: park for reconcile (pre-read)")
    );
    assert_eq!(
        parked_choice("pre-read"),
        parked("choice fulfillment inconclusive: park for reconcile (pre-read)")
    );
}

#[test]
fn requests_become_jobs() {
    let req = FulfillRequest::Gift {
        claim_id: "c".into(),
        link_token: "t".into(),
        game_id: "g".into(),
        gamekey: "k".into(),
        machine_name: "m".into(),
        keyindex: 4,
        requires_choice: true,
    };
    match handle(req, true) {
        Task::Claim(j) => {
            assert!(j.flavor == ClaimFlavor::Gift && j.choice && j.self_login);
            assert_eq!(
                (j.claim_id, j.link_token, j.game_id, j.gamekey, j.machine_name, j.keyindex),
                ("c".into(), "t".into(), "g".into(), "k".into(), "m".into(), 4)
            );
        }
        _ => panic!("a gift is a claim"),
    }
    let req = FulfillRequest::SelfClaim {
        claim_id: "c".into(),
        game_id: "g".into(),
        gamekey: "k".into(),
        machine_name: "m".into(),
        keyindex: 4,
        requires_choice: false,
    };
    match handle(req, false) {
        Task::Claim(j) => {
            assert!(j.flavor == ClaimFlavor::SelfClaim && !j.choice && !j.self_login);
            assert_eq!(j.link_token, "SELF");
        }
        _ => panic!("a reveal is a claim"),
    }
    assert!(matches!(handle(FulfillRequest::Sync, true), Task::Sync));
    assert!(matches!(handle(FulfillRequest::ValidateCookie, true), Task::ValidateCookie));
}

#[test]
fn the_owner_gets_the_key_of_a_pick() {
    let j = job(ClaimFlavor::SelfClaim, true);
    let (told, _, s) = run(
        &j,
        with(
            choice_gate(),
            vec![
                Reply::Order(Ok(order(vec![key("old", "Old")]))),
                ok(),
                Reply::Chosen(Ok(())),
                Reply::Order(Ok(order(vec![key("old", "Old"), key("new", "Octopath")]))),
                Reply::Revealed(Ok(RevealedKey("AAA-BBB".into()))),
                ok(),
            ],
        ),
    );
    assert!(told.is_empty());
    assert_eq!(answer(s), FulfillResponse::RevealedKey { key: "AAA-BBB".into() });
}

#[test]
fn what_was_won_is_not_told() {
    let own = job(ClaimFlavor::SelfClaim, false);
    for (j, won) in [
        (gift(), Reply::Redeemed(Ok(GiftUrl("https://secret".into())))),
        (own, Reply::Revealed(Ok(RevealedKey("secret".into())))),
    ] {
        let (told, _, s) = run(&j, with(gate(), vec![won, failed()]));
        assert_eq!(told.len(), 1);
        assert!(!told[0].contains("secret"));
        assert!(matches!(answer(s), FulfillResponse::Error { .. }));
    }
}
