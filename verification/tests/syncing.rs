use fulfillment::humble::{HumbleError, KeyEntry, Order};
use fulfillment::model::{AppidSource, Game, GameStatus};
use fulfillment::reconcile::Mend;
use fulfillment::session::Heal;
use fulfillment::shelf::{
    audit_messages, correction, note_correction, order_row, route_after, route_from,
    shelf_truth_audit, store_key, store_looked, store_wrote, Audit, KeyInfo, Lookup, Pulled, Route,
    Row, StatusTable, StoreAt, StoreRequest, Stored, Truth, Write,
};
use fulfillment::sync::{start_sync, Learned, Summary, SyncAt, SyncReply, SyncRequest, SyncStep, Tally};

fn key(mn: &str) -> KeyEntry {
    KeyEntry {
        machine_name: mn.into(),
        human_name: "Human".into(),
        key_type: "gog".into(),
        redeemed: false,
        expired: false,
        giftable: true,
        keyindex: 2,
        redeemed_key_val: None,
        steam_app_id: Some(570),
        is_gift: None,
    }
}

fn order(keys: Vec<KeyEntry>) -> Order {
    Order {
        gamekey: "gk".into(),
        bundle_name: "Bundle".into(),
        product_machine_name: "p".into(),
        keys,
    }
}

fn table() -> StatusTable {
    StatusTable {
        fresh: GameStatus::Available,
        redeemed: GameStatus::BenRedeemed,
        expired: GameStatus::Expired,
        redeemed_and_expired: GameStatus::BenRedeemed,
    }
}

fn run_sync(at: SyncAt, tally: Tally, reply: SyncReply) -> SyncStep {
    fulfillment::sync::run_sync(at, tally, Learned::new(), reply).1
}

fn drive(replies: Vec<SyncReply>) -> (usize, SyncStep) {
    let mut s = start_sync();
    let mut dead = 0;
    for r in replies {
        s = run_sync(s.at, s.tally, r);
        if s.tell_dead {
            dead += 1;
        }
    }
    (dead, s)
}

fn summary(s: SyncStep) -> Summary {
    match s.request {
        SyncRequest::Persist(p) => p,
        _ => panic!("the run should be recorded"),
    }
}

fn listed(keys: &[&str]) -> SyncReply {
    SyncReply::Listed(Ok(keys.iter().map(|k| k.to_string()).collect()))
}

fn dead_listing() -> SyncReply {
    SyncReply::Listed(Err((HumbleError::Unauthorized, "unauthorized".into())))
}

const OK: Mend = Mend { healed: false, cookie_ok: true };

#[test]
fn a_clean_sync_walks_everything_and_is_recorded() {
    let (dead, s) = drive(vec![
        SyncReply::Swept,
        SyncReply::State(Some(true)),
        listed(&["a", "b"]),
        SyncReply::Reconciled(OK),
        SyncReply::Order(Ok(order(vec![]))),
        SyncReply::Stored { written: 2, failed: false },
        SyncReply::Order(Err(HumbleError::RateLimited)),
        SyncReply::Scanned(true),
        SyncReply::Mapped,
        SyncReply::Owned { private_pinged: false },
        SyncReply::Discovered { mend: OK, written: 1 },
        SyncReply::Enriched,
        SyncReply::Audited { pulls: 1, rows_failed: 0 },
    ]);
    assert_eq!(dead, 0);
    let p = summary(s);
    assert!(!p.ok && p.cookie_ok && !p.private_pinged);
    assert_eq!(p.games_written, 3);
    assert_eq!(p.message, "sync ok: 3 written, 1 order(s) failed, 1 audit-pulled");
}

#[test]
fn the_orders_are_asked_for_one_by_one() {
    let (_, s) = drive(vec![
        SyncReply::Swept,
        SyncReply::State(None),
        listed(&["a", "b"]),
        SyncReply::Reconciled(OK),
    ]);
    assert!(matches!(&s.request, SyncRequest::ReadOrder { gamekey } if gamekey == "a"));
    let s = run_sync(s.at, s.tally, SyncReply::Order(Ok(order(vec![key("m")]))));
    assert!(matches!(&s.request, SyncRequest::StoreOrder(o) if o.keys.len() == 1));
    let s = run_sync(s.at, s.tally, SyncReply::Stored { written: 0, failed: true });
    assert!(matches!(&s.request, SyncRequest::ReadOrder { gamekey } if gamekey == "b"));
    assert_eq!(s.tally.orders_failed, 1);
}

#[test]
fn a_dead_session_at_the_listing_is_told_and_recorded() {
    let (dead, s) = drive(vec![
        SyncReply::Swept,
        SyncReply::State(Some(true)),
        dead_listing(),
        SyncReply::LoggedIn(Heal::Failed),
    ]);
    assert_eq!(dead, 1);
    let p = summary(s);
    assert!(!p.ok && !p.cookie_ok && p.private_pinged);
    assert_eq!(p.message, "humble session cookie is dead");
    let (dead, s) = drive(vec![
        SyncReply::Swept,
        SyncReply::State(None),
        dead_listing(),
        SyncReply::LoggedIn(Heal::Persisted),
        dead_listing(),
    ]);
    assert_eq!(dead, 1);
    assert_eq!(summary(s).message, "humble session cookie is dead");
}

#[test]
fn a_failed_listing_still_looks_after_the_claims() {
    let (_, s) = drive(vec![
        SyncReply::Swept,
        SyncReply::State(None),
        SyncReply::Listed(Err((HumbleError::RateLimited, "rate limited".into()))),
    ]);
    assert!(matches!(s.request, SyncRequest::Reconcile));
    let s = run_sync(s.at, s.tally, SyncReply::Reconciled(OK));
    let p = summary(s);
    assert!(!p.ok && p.cookie_ok);
    assert_eq!(p.message, "sync failed listing orders: rate limited");
}

#[test]
fn a_walk_heals_once_and_is_then_broken_off() {
    let walking = || {
        vec![
            SyncReply::Swept,
            SyncReply::State(None),
            listed(&["a"]),
            SyncReply::Reconciled(OK),
            SyncReply::Order(Err(HumbleError::Unauthorized)),
        ]
    };
    let (_, s) = drive(walking());
    assert!(matches!(s.request, SyncRequest::Login));
    let s = run_sync(s.at, s.tally, SyncReply::LoggedIn(Heal::Unpersisted));
    assert!(s.tally.mend.healed && !s.tally.mend.cookie_ok);
    assert!(matches!(s.request, SyncRequest::ReadOrder { .. }));
    let s = run_sync(s.at, s.tally, SyncReply::Order(Err(HumbleError::Unauthorized)));
    assert!(s.tell_dead && matches!(s.request, SyncRequest::Scan));
    let s = run_sync(s.at, s.tally, SyncReply::Scanned(false));
    assert!(matches!(s.request, SyncRequest::Discover));
    let mend = s.tally.mend;
    let s = run_sync(s.at, s.tally, SyncReply::Discovered { mend, written: 0 });
    let s = run_sync(s.at, s.tally, SyncReply::Enriched);
    let p = summary(s);
    assert_eq!(
        p.message,
        "humble session cookie is dead (or a refreshed one could not be persisted — see pings)"
    );
    let (_, s) = drive(walking());
    let s = run_sync(s.at, s.tally, SyncReply::LoggedIn(Heal::Failed));
    assert!(s.tell_dead && matches!(s.request, SyncRequest::Scan));
}

#[test]
fn a_key_is_routed_to_the_row_it_was_offered_as() {
    let bases = Some(("omega_row".to_string(), Some("omega".to_string())));
    let id = |r: Route| match r {
        Route::Look { id, .. } => format!("look {id}"),
        Route::Write { id } => format!("write {id}"),
    };
    assert_eq!(id(route_from("gk", "tpk", &bases, 0)), "look gk:omega_row");
    assert_eq!(id(route_after("gk", "tpk", &bases, 0, Lookup::Found)), "write gk:omega_row");
    assert_eq!(id(route_after("gk", "tpk", &bases, 0, Lookup::Missing)), "look gk:omega");
    assert_eq!(id(route_after("gk", "tpk", &bases, 1, Lookup::Found)), "write gk:omega");
    assert_eq!(id(route_after("gk", "tpk", &bases, 1, Lookup::Missing)), "write gk:tpk");
    assert_eq!(id(route_after("gk", "tpk", &bases, 0, Lookup::Failed)), "write gk:tpk");
    assert_eq!(id(route_from("gk", "plain", &None, 0)), "write gk:plain");
}

#[test]
fn every_key_of_an_order_is_written() {
    let o = order(vec![key("a_choice_steam"), key("b")]);
    let infos = vec![
        KeyInfo { bases: Some(("a".into(), None)), artwork: None },
        KeyInfo { bases: None, artwork: Some("art".into()) },
    ];
    let none = Stored { written: 0, failed: false };
    let s = store_key(&o, &infos, &table(), 0, none);
    assert!(matches!(&s.request, StoreRequest::Look { id } if id == "gk:a"));
    let s = store_looked(&o, &infos, &table(), 0, 0, Lookup::Missing, s.stored);
    assert!(matches!(&s.request, StoreRequest::Write(g) if g.id == "gk:a_choice_steam"));
    let s = store_wrote(&o, &infos, &table(), 0, Write::Written, s.stored);
    assert_eq!(s.at, StoreAt::Writing { k: 1 });
    assert!(matches!(&s.request, StoreRequest::Write(g)
        if g.id == "gk:b" && g.artwork_url.as_deref() == Some("art")));
    let s = store_wrote(&o, &infos, &table(), 1, Write::Failed, s.stored);
    assert!(matches!(s.request, StoreRequest::Done));
    assert_eq!(s.stored, Stored { written: 1, failed: true });
    let s = store_wrote(&o, &infos, &table(), 1, Write::SkippedInFlight, none);
    assert_eq!(s.stored, none);
}

#[test]
fn a_row_holds_what_its_key_says() {
    let mut k = key("mn");
    k.redeemed = true;
    let g = order_row("id".into(), &order(vec![]), &k, &table(), None);
    assert_eq!(
        g,
        Game {
            id: "id".into(),
            title: "Human".into(),
            bundle: "Bundle".into(),
            gamekey: "gk".into(),
            machine_name: "mn".into(),
            key_type: "gog".into(),
            giftable: true,
            hidden: false,
            status: GameStatus::BenRedeemed,
            claim_id: None,
            artwork_url: None,
            keyindex: 2,
            requires_choice: false,
            steam_app_id: Some(570),
            appid_source: Some(AppidSource::Humble),
            owned_by_ben: false,
        }
    );
    k.steam_app_id = None;
    let g = order_row("id".into(), &order(vec![]), &k, &table(), None);
    assert_eq!(g.appid_source, None);
}

fn row(mn: &str, listable: bool) -> Row {
    let mut game = order_row(format!("gk:{mn}"), &order(vec![]), &key(mn), &table(), None);
    game.title = format!("Title {mn}");
    game.hidden = false;
    game.owned_by_ben = true;
    Row { game, listable }
}

#[test]
fn the_audit_pulls_what_is_listed_and_spent() {
    let mut truth = Truth::new();
    let mut spent = key("spent");
    spent.expired = true;
    spent.steam_app_id = None;
    spent.keyindex = 9;
    truth.record("gk", &key("spent"));
    truth.record("gk", &spent);
    truth.record("gk", &key("clean"));
    let mut other = key("elsewhere");
    other.redeemed = true;
    truth.record("other", &other);
    let rows =
        vec![row("unknown", true), row("clean", true), row("elsewhere", true), row("spent", true)];
    let (i, fixed) = shelf_truth_audit(&rows, &truth, &table(), 0).unwrap();
    assert_eq!(i, 3);
    assert_eq!(fixed.status, GameStatus::Expired);
    assert_eq!((fixed.keyindex, fixed.title.as_str()), (9, "Title spent"));
    assert_eq!((fixed.steam_app_id, fixed.appid_source), (Some(570), Some(AppidSource::Humble)));
    assert!(fixed.owned_by_ben);
    assert!(shelf_truth_audit(&rows, &truth, &table(), 4).is_none());
    assert!(correction(&row("spent", false), &truth, &table()).is_none());
    assert!(truth.get("gk", "elsewhere").is_none());
}

#[test]
fn an_audit_counts_failures_apart_and_tells_few_rows_one_by_one() {
    let mut audit = Audit { pulled: vec![], rows_failed: 0 };
    let mut k = key("a");
    k.redeemed = true;
    k.is_gift = Some(true);
    let g = row("a", true).game;
    note_correction(&mut audit, &g, &k, Write::Failed);
    note_correction(&mut audit, &g, &k, Write::Unchanged);
    note_correction(&mut audit, &g, &k, Write::SkippedInFlight);
    assert_eq!((audit.pulled.len(), audit.rows_failed), (0, 1));
    note_correction(&mut audit, &g, &k, Write::Written);
    let told = audit_messages(&audit.pulled);
    assert_eq!(told.len(), 1);
    assert_eq!(
        told[0].as_str(),
        "shelf audit: pulled Title a (gk:a) — key revealed outside the app on humble (humble marks it a gift)"
    );
    let many: Vec<Pulled> = (0..4)
        .map(|i| Pulled {
            title: format!("T{i}"),
            id: format!("g{i}"),
            expired: true,
            gift: i == 1,
        })
        .collect();
    let told = audit_messages(&many);
    assert_eq!(told.len(), 1);
    assert_eq!(
        told[0].as_str(),
        "shelf audit: pulled 4 listed games whose keys are spent on humble: T0, T1 (gift), T2, T3"
    );
    assert!(audit_messages(&vec![]).is_empty());
    let three: Vec<Pulled> = many.into_iter().take(3).collect();
    let told = audit_messages(&three);
    assert_eq!(told.len(), 3);
    assert_eq!(told[0].as_str(), "shelf audit: pulled T0 (g0) — key expired on humble");
}

#[test]
fn only_orders_that_were_read_are_known() {
    let mut s = start_sync();
    let mut learned = Learned::new();
    for reply in [
        SyncReply::Swept,
        SyncReply::State(None),
        listed(&["gk", "lost"]),
        SyncReply::Reconciled(OK),
        SyncReply::Order(Ok(order(vec![key("a"), key("b")]))),
        SyncReply::Stored { written: 0, failed: true },
        SyncReply::Order(Err(HumbleError::RateLimited)),
    ] {
        (learned, s) = fulfillment::sync::run_sync(s.at, s.tally, learned, reply);
    }
    assert!(matches!(s.request, SyncRequest::Scan));
    assert_eq!(learned.index.tpks_of("gk").unwrap(), &vec!["a", "b"]);
    assert_eq!(learned.index.order_of("p").unwrap(), "gk");
    assert!(learned.index.tpks_of("lost").is_none());
    assert_eq!(learned.truth.get("gk", "b").unwrap().machine_name, "b");
    assert!(learned.truth.get("gk", "c").is_none() && learned.truth.get("lost", "a").is_none());
}
