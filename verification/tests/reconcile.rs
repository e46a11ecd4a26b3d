use fulfillment::claim_flow::{At, ClaimFlavor, Request, Tries};
use fulfillment::humble::{HumbleError, KeyEntry, Order};
use fulfillment::model::{Claim, ClaimState, Game, GameStatus};
use fulfillment::reconcile::{
    alert_unreconcilable, pending_age_sweep, reconcile, reconcile_choice_claim,
    reconcile_plain_claim, start_pass, Mend, PassAt, PassReply, PassRequest, Plan,
};
use fulfillment::session::Heal;

const HOUR: i128 = 3_600_000_000_000;
const NOW: i128 = 1_790_000_000_000_000_000;
const FRESH: Mend = Mend { healed: false, cookie_ok: true };

fn claim(id: &str, token: &str, game_id: &str, hours: i128) -> Claim {
    Claim {
        id: id.into(),
        link_token: token.into(),
        game_id: game_id.into(),
        state: ClaimState::Pending,
        created_at: NOW - hours * HOUR,
        choice_pre_tpks: None,
    }
}

fn game(title: &str, requires_choice: bool) -> Game {
    Game {
        id: "gk:mn".into(),
        title: title.into(),
        bundle: "B".into(),
        gamekey: "gk".into(),
        machine_name: "mn".into(),
        key_type: "steam".into(),
        giftable: true,
        hidden: false,
        status: GameStatus::Pending,
        claim_id: None,
        artwork_url: None,
        keyindex: 0,
        requires_choice,
        steam_app_id: None,
        appid_source: None,
        owned_by_ben: false,
    }
}

fn key(mn: &str, human: &str, redeemed: bool) -> KeyEntry {
    KeyEntry {
        machine_name: mn.into(),
        human_name: human.into(),
        key_type: "steam".into(),
        redeemed,
        expired: false,
        giftable: !redeemed,
        keyindex: 5,
        redeemed_key_val: None,
        steam_app_id: None,
        is_gift: Some(true),
    }
}

fn order(keys: Vec<KeyEntry>) -> Order {
    Order {
        gamekey: "gk".into(),
        bundle_name: "May Bundle".into(),
        product_machine_name: "p".into(),
        keys,
    }
}

fn tell(p: Plan) -> String {
    match p {
        Plan::Tell(m) => m.as_str().to_string(),
        _ => panic!("the operator should be told"),
    }
}

#[test]
fn old_claims_are_reported_every_day() {
    let claims = vec![
        claim("a", "t", "gk:x", 23),
        claim("b", "t", "gk:y", 24),
        claim("c", "t", "gk:z", 80),
    ];
    let told = pending_age_sweep(&claims, NOW);
    assert_eq!(told.len(), 2);
    assert!(told[0].as_str().starts_with("claim b (gk:y) is STILL PENDING after ~1d."));
    assert!(told[1].as_str().starts_with("claim c (gk:z) is STILL PENDING after ~3d."));
}

#[test]
fn without_a_snapshot_the_slot_goes_back_only_where_nothing_bears_the_title() {
    let c = claim("c1", "tok", "gk:mn", 1);
    let g = game("Octo", true);
    match reconcile_choice_claim(&c, &g, &order(vec![key("k", "Other", false)]), true) {
        Plan::Compensate { own, then } => {
            assert!(!own);
            assert!(then.as_str().starts_with("reconcile compensated choice claim c1 (Octo)"));
        }
        _ => panic!("nothing was spent"),
    }
    let m = tell(reconcile_choice_claim(&c, &g, &order(vec![key("k", "OCTO", false)]), true));
    assert!(m.contains("humble shows an unredeemed key for this title (`k`)"), "{m}");
    let m = tell(reconcile_choice_claim(&c, &g, &order(vec![key("k", "octo", true)]), true));
    assert!(m.contains("(`k`) already revealed"), "{m}");
    let two = order(vec![key("k", "Octo", false), key("l", "Octo", false)]);
    let m = tell(reconcile_choice_claim(&c, &g, &two, true));
    assert!(m.contains("multiple keys on humble could match the title"), "{m}");
}

#[test]
fn with_a_snapshot_the_one_new_key_is_used() {
    let mut c = claim("c1", "tok", "gk:mn", 1);
    c.choice_pre_tpks = Some(vec!["old".into()]);
    let g = game("Octo", false);
    let o = order(vec![key("old", "Old", false), key("new", "X", false)]);
    match reconcile_choice_claim(&c, &g, &o, true) {
        Plan::Finish(run) => {
            assert!(run.job.flavor == ClaimFlavor::Gift && run.job.choice);
            assert_eq!(run.job.gamekey, "gk");
            assert!(matches!(
                run.step.at,
                At::Calling { tries: Tries::First { may_heal: false }, .. }
            ));
            assert!(matches!(run.step.request, Request::Redeem { .. }));
        }
        _ => panic!("the pick was spent"),
    }
    let m = tell(reconcile_choice_claim(&c, &g, &order(vec![key("old", "Old", false)]), true));
    assert!(m.contains("NOT auto-compensating"), "{m}");
    let spent = order(vec![key("new", "X", true)]);
    let m = tell(reconcile_choice_claim(&c, &g, &spent, true));
    assert!(m.contains("no gift URL was recorded — recover it manually"), "{m}");
    let two = order(vec![key("n1", "X", false), key("n2", "Y", false)]);
    let m = tell(reconcile_choice_claim(&c, &g, &two, true));
    assert!(m.contains("multiple new keys on humble"), "{m}");
    c.link_token = "SELF".into();
    match reconcile_choice_claim(&c, &g, &order(vec![key("new", "X", true)]), false) {
        Plan::Recover { run, then } => {
            assert!(run.job.flavor == ClaimFlavor::SelfClaim && !run.job.self_login);
            assert!(matches!(run.step.request, Request::ReadOrder));
            assert!(then
                .as_str()
                .ends_with("the key was redeemed out of band (humble marks it a gift)."));
        }
        _ => panic!("the owner's key is recovered"),
    }
}

#[test]
fn plain_claims_are_held_against_their_key() {
    let c = claim("c1", "tok", "gk:mn", 1);
    match reconcile_plain_claim(&c, NOW, "gk", "mn", &order(vec![key("mn", "T", false)]), &vec![], true)
    {
        Plan::Compensate { own, then } => {
            assert!(!own);
            assert!(then
                .as_str()
                .starts_with("reconcile compensated parked claim c1 (May Bundle / T)"));
        }
        _ => panic!("the redemption never landed"),
    }
    let m = tell(reconcile_plain_claim(
        &c,
        NOW,
        "gk",
        "mn",
        &order(vec![key("mn", "T", true)]),
        &vec![],
        true,
    ));
    assert!(m.starts_with("parked claim c1 (May Bundle / T) shows redeemed"), "{m}");
    let own = claim("c1", "SELF", "gk:mn", 1);
    match reconcile_plain_claim(
        &own,
        NOW,
        "gk",
        "mn",
        &order(vec![key("mn", "T", false)]),
        &vec![],
        true,
    ) {
        Plan::Finish(run) => assert!(matches!(run.step.request, Request::Reveal { .. })),
        _ => panic!("the owner's key is revealed late"),
    }
    assert!(matches!(
        reconcile_plain_claim(
            &own,
            NOW,
            "gk",
            "mn",
            &order(vec![key("mn", "T", true)]),
            &vec![],
            true
        ),
        Plan::Recover { .. }
    ));
}

#[test]
fn a_key_that_is_not_there_is_reported_once_the_claim_is_old() {
    let young = claim("c1", "tok", "gk:mn", 23);
    let mut hidden = key("mn_choice_steam", "T", true);
    hidden.expired = true;
    let o = order(vec![key("x", "T", false), hidden]);
    let marks = vec![false, true];
    assert!(matches!(
        reconcile_plain_claim(&young, NOW, "gk", "mn", &o, &marks, true),
        Plan::Nothing
    ));
    let old = claim("c1", "tok", "gk:mn", 49);
    let m = tell(reconcile_plain_claim(&old, NOW, "gk", "mn", &o, &marks, true));
    assert!(m.contains("has been stuck ~49h"), "{m}");
    assert!(
        m.contains("machine_name `mn` is not among order `gk`'s keys on humble, so there is nothing to reconcile it against; NOTE: humble carries a key for this game under `mn_choice_steam`, already revealed outside the app, expired."),
        "{m}"
    );
    assert!(alert_unreconcilable(&young, NOW, "r").is_none());
}

#[test]
fn a_pass_skips_the_young_and_reports_the_shapeless() {
    let mut young = claim("young", "t", "gk:a", 0);
    young.created_at = NOW - HOUR / 4 + 1;
    let claims = vec![young, claim("shapeless", "t", "nocolon", 30), claim("c", "t", "gk:a:b", 1)];
    let s = start_pass(&claims, NOW, FRESH);
    assert_eq!(s.told.len(), 1);
    assert!(s.told[0].as_str().contains("its game_id has no `gamekey:machine_name` shape"));
    assert!(matches!(&s.request, PassRequest::ReadOrder { gamekey } if gamekey == "gk"));
    let s = reconcile(
        &claims,
        NOW,
        s.at,
        s.mend,
        PassReply::Order(Ok(order(vec![key("a:b", "T", false)]))),
        true,
    );
    assert!(matches!(&s.request, PassRequest::ReadGame { game_id, machine_name }
        if game_id.ends_with(&format!(":{machine_name}"))));
    let s = reconcile(
        &claims,
        NOW,
        s.at,
        s.mend,
        PassReply::Game { game: None, marks: vec![] },
        true,
    );
    assert!(matches!(s.request, PassRequest::Act(Plan::Compensate { .. })));
    let s = reconcile(&claims, NOW, s.at, s.mend, PassReply::Acted, true);
    assert!(matches!(s.request, PassRequest::Done) && matches!(s.at, PassAt::Over));
}

#[test]
fn a_dead_session_ends_the_pass_after_one_login() {
    let claims = vec![claim("a", "t", "gk:a", 1), claim("b", "t", "gk:b", 1)];
    let dead = || PassReply::Order(Err(HumbleError::Unauthorized));
    let s = start_pass(&claims, NOW, FRESH);
    let s = reconcile(&claims, NOW, s.at, s.mend, dead(), true);
    assert!(matches!(s.request, PassRequest::Login));
    let s = reconcile(&claims, NOW, s.at, s.mend, PassReply::LoggedIn(Heal::Unpersisted), true);
    assert_eq!(s.mend, Mend { healed: true, cookie_ok: false });
    assert!(matches!(s.request, PassRequest::ReadOrder { .. }));
    let s = reconcile(
        &claims,
        NOW,
        s.at,
        s.mend,
        PassReply::Order(Err(HumbleError::RateLimited)),
        true,
    );
    assert!(matches!(s.at, PassAt::Reading { i: 1, .. }));
    let s = reconcile(&claims, NOW, s.at, s.mend, dead(), true);
    assert!(matches!(s.request, PassRequest::Done));
    assert!(!s.mend.cookie_ok);
    let s = start_pass(&claims, NOW, FRESH);
    let s = reconcile(&claims, NOW, s.at, s.mend, dead(), true);
    let s = reconcile(&claims, NOW, s.at, s.mend, PassReply::LoggedIn(Heal::Failed), true);
    assert!(matches!(s.request, PassRequest::Done));
}

#[test]
fn a_claim_with_a_snapshot_is_judged_as_a_pick_even_after_its_game_has_changed() {
    let mut c = claim("c", "t", "gk:mn", 1);
    c.choice_pre_tpks = Some(vec![]);
    let claims = vec![c];
    let at = || PassAt::Gaming { i: 0, order: order(vec![key("mn", "T", false)]) };
    let game_reply = |g: Option<Game>| PassReply::Game { game: g, marks: vec![] };
    let s = reconcile(&claims, NOW, at(), FRESH, game_reply(Some(game("T", false))), true);
    assert!(matches!(s.request, PassRequest::Act(Plan::Finish(_))));
    let s = reconcile(&claims, NOW, at(), FRESH, game_reply(None), true);
    assert!(matches!(s.request, PassRequest::Act(Plan::Compensate { .. })));
}
