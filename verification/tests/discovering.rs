use fulfillment::claim_flow::Tries;
use fulfillment::discovery::{
    choice_targets, claimable, discover_choice_games, offered_row, start_search, strays, Found, Month,
    MonthPage, OfferedGame, OrderIndex, SearchAt, SearchReply, SearchRequest, SearchStep, Target,
    Walk,
};
use fulfillment::humble::{HumbleError, KeyEntry, Order};
use fulfillment::model::GameStatus;
use fulfillment::reconcile::Mend;
use fulfillment::session::Heal;
use fulfillment::shelf::Write;

const FRESH: Mend = Mend { healed: false, cookie_ok: true };
const NONE: Found = Found { written: 0, months_processed: 0, months_skipped: 0 };

fn key(mn: &str) -> KeyEntry {
    KeyEntry {
        machine_name: mn.into(),
        human_name: "H".into(),
        key_type: "steam".into(),
        redeemed: false,
        expired: false,
        giftable: true,
        keyindex: 0,
        redeemed_key_val: None,
        steam_app_id: None,
        is_gift: None,
    }
}

fn index() -> OrderIndex {
    let mut i = OrderIndex::new();
    for (gk, product, keys) in [
        ("GKX", "july_2026_choice", vec!["x_choice_steam"]),
        ("GK0", "", vec![]),
        ("GKX", "july_2026_choice", vec!["a_choice_steam", "b_choice_steam"]),
    ] {
        i.record(&Order {
            gamekey: gk.into(),
            bundle_name: "B".into(),
            product_machine_name: product.into(),
            keys: keys.into_iter().map(key).collect(),
        });
    }
    i
}

fn page(gamekey: Option<&str>) -> MonthPage {
    MonthPage {
        title: "July".into(),
        gamekey: gamekey.map(String::from),
        can_redeem_games: true,
        offered_games: ["a", "c", "d"]
            .iter()
            .map(|m| OfferedGame { machine_name: m.to_string(), title: m.to_uppercase() })
            .collect(),
    }
}

fn months() -> Vec<Month> {
    vec![
        Month { slug: "june-2026".into(), gamekey: None },
        Month { slug: "may-2026".into(), gamekey: Some("GK5".into()) },
        Month { slug: "april-2026".into(), gamekey: Some("GK4".into()) },
        Month { slug: "april-2026".into(), gamekey: Some("GK0".into()) },
    ]
}

fn targets() -> Vec<Target> {
    choice_targets(&vec!["july-2026".into(), "june-2026".into()], &months())
}

/// Noon of July 15, 2026.
const NOW: i128 = 1_784_116_800_000_000_000;

/// One turn of a pass over the months and the targets above.
fn turn(s: &OrderIndex, at: SearchAt, mend: Mend, found: Found, reply: SearchReply) -> SearchStep {
    let walk = Walk { months: months(), targets: targets() };
    discover_choice_games(s, NOW, walk, at, mend, found, reply).1
}

#[test]
fn the_newest_months_come_first_and_none_twice() {
    let got: Vec<(String, bool)> = targets().into_iter().map(|t| (t.slug, t.probe)).collect();
    assert_eq!(
        got,
        vec![
            ("july-2026".to_string(), true),
            ("june-2026".to_string(), true),
            ("may-2026".to_string(), false),
            ("april-2026".to_string(), false),
        ]
    );
}

#[test]
fn the_index_keeps_the_latest_of_each_order() {
    let i = index();
    assert_eq!(i.tpks_of("GKX").unwrap(), &vec!["a_choice_steam", "b_choice_steam"]);
    assert!(i.tpks_of("GK0").unwrap().is_empty());
    assert!(i.tpks_of("nope").is_none());
    assert_eq!(i.order_of("july_2026_choice").unwrap(), "GKX");
    assert!(i.order_of("").is_none());
}

#[test]
fn a_game_that_a_key_matches_is_not_on_offer() {
    let marks = vec![vec![false, true], vec![false, false], vec![]];
    assert_eq!(claimable(3, &marks, 2), vec![1]);
    assert_eq!(claimable(3, &marks, 1), vec![0, 1]);
    assert_eq!(claimable(4, &marks, 0), vec![0, 1, 2]);
    assert_eq!(claimable(2, &vec![vec![], vec![]], 0), vec![0, 1]);
}

#[test]
fn an_offered_row_waits_for_a_pick() {
    let o = OfferedGame { machine_name: "octo".into(), title: "Octo".into() };
    let g = offered_row("GK", &"July".to_string(), &o);
    assert_eq!((g.id.as_str(), g.title.as_str(), g.bundle.as_str()), ("GK:octo", "Octo", "July"));
    assert!(g.requires_choice && g.giftable && !g.hidden);
    assert_eq!((g.key_type.as_str(), g.status), ("steam", GameStatus::Available));
}

#[test]
fn a_pass_puts_what_is_left_on_the_shelf() {
    let s = index();
    let t = start_search(FRESH);
    assert!(matches!(t.request, SearchRequest::ListMonths));
    let t = turn(&s, t.at, t.mend, t.found, SearchReply::Listed(Ok(months())));
    assert!(matches!(t.request, SearchRequest::CheckClock));
    let t = turn(&s, t.at, t.mend, t.found, SearchReply::Late(false));
    assert!(matches!(&t.request, SearchRequest::ReadMonth { slug } if slug == "july-2026"));
    let t = turn(&s, t.at, t.mend, t.found, SearchReply::Month(Ok(page(None))));
    assert!(matches!(&t.at, SearchAt::Matching { gamekey, .. } if gamekey == "GKX"));
    assert_eq!(t.found.months_processed, 1);
    let marks = vec![vec![true, false], vec![false, false], vec![false, false]];
    let t = turn(&s, t.at, t.mend, t.found, SearchReply::Matched { marks });
    assert!(matches!(&t.request, SearchRequest::Write(g) if g.id == "GKX:c"));
    let t = turn(&s, t.at, t.mend, t.found, SearchReply::Wrote(Write::Written));
    assert!(matches!(&t.request, SearchRequest::Write(g) if g.id == "GKX:d"));
    let t = turn(&s, t.at, t.mend, t.found, SearchReply::Wrote(Write::Unchanged));
    assert_eq!(t.found.written, 1);
    assert!(matches!(t.at, SearchAt::Timing { j: 1 }));
    let t = turn(&s, t.at, t.mend, t.found, SearchReply::Late(true));
    assert!(matches!(t.request, SearchRequest::Done) && !t.tell_dead);
}

#[test]
fn months_without_an_order_are_passed_over() {
    let s = index();
    let read = |j: usize, p: MonthPage| {
        turn(
            &s,
            SearchAt::Reading { j, tries: Tries::First { may_heal: false } },
            FRESH,
            NONE,
            SearchReply::Month(Ok(p)),
        )
    };
    let mut closed = page(Some("GKX"));
    closed.can_redeem_games = false;
    for t in [read(0, closed), read(1, page(None)), read(2, page(None)), read(0, page(Some("?")))] {
        assert_eq!(t.found.months_skipped, 1);
        assert!(!matches!(t.at, SearchAt::Matching { .. }));
    }
    assert!(matches!(&read(3, page(None)).at, SearchAt::Matching { gamekey, .. } if gamekey == "GK0"));
    assert!(matches!(&read(1, page(Some("GK0"))).at, SearchAt::Matching { gamekey, .. } if gamekey == "GK0"));
}

#[test]
fn a_probe_never_logs_in_and_a_listed_month_does_once() {
    let s = index();
    let dead = || SearchReply::Month(Err(HumbleError::Unauthorized));
    let clock = |j: usize, m: Mend| {
        turn(&s, SearchAt::Timing { j }, m, NONE, SearchReply::Late(false))
    };
    let t = clock(0, FRESH);
    let t = turn(&s, t.at, t.mend, t.found, dead());
    assert!(matches!(t.at, SearchAt::Timing { j: 1 }) && t.mend == FRESH);
    let t = clock(2, FRESH);
    let t = turn(&s, t.at, t.mend, t.found, dead());
    assert!(matches!(t.request, SearchRequest::Login));
    let t = turn(&s, t.at, t.mend, t.found, SearchReply::LoggedIn(Heal::Persisted));
    assert!(matches!(&t.request, SearchRequest::ReadMonth { slug } if slug == "may-2026"));
    let t = turn(&s, t.at, t.mend, t.found, dead());
    assert!(t.tell_dead && matches!(t.request, SearchRequest::Done) && !t.mend.cookie_ok);
    let t = clock(2, Mend { healed: true, cookie_ok: true });
    let t = turn(&s, t.at, t.mend, t.found, dead());
    assert!(t.tell_dead && matches!(t.request, SearchRequest::Done));
    let t = clock(2, FRESH);
    let t = turn(
        &s,
        t.at,
        t.mend,
        t.found,
        SearchReply::Month(Err(HumbleError::Api(500))),
    );
    assert!(matches!(t.at, SearchAt::Timing { j: 3 }));
}

#[test]
fn a_list_that_cannot_be_read_ends_the_pass() {
    let s = index();
    let t = start_search(FRESH);
    let t = turn(
        &s,
        t.at,
        t.mend,
        t.found,
        SearchReply::Listed(Err(HumbleError::Network)),
    );
    assert!(matches!(t.request, SearchRequest::Done) && !t.tell_dead);
    let t = start_search(FRESH);
    let dead = || SearchReply::Listed(Err(HumbleError::Unauthorized));
    let t = turn(&s, t.at, t.mend, t.found, dead());
    assert!(matches!(t.request, SearchRequest::Login));
    let t = turn(&s, t.at, t.mend, t.found, SearchReply::LoggedIn(Heal::Failed));
    assert!(t.tell_dead && matches!(t.request, SearchRequest::Done));
    let t = start_search(Mend { healed: true, cookie_ok: true });
    let t = turn(&s, t.at, t.mend, t.found, dead());
    assert!(t.tell_dead && !t.mend.cookie_ok);
}

#[test]
fn the_list_and_the_clock_make_the_months_to_ask_for() {
    let t = start_search(FRESH);
    let mut listed = months();
    listed.push(Month { slug: "march-2026".into(), gamekey: None });
    listed.push(Month { slug: "july-2020".into(), gamekey: None });
    listed.push(Month { slug: "march-2026".into(), gamekey: None });
    let reply = SearchReply::Listed(Ok(listed));
    let (walk, t) =
        discover_choice_games(&index(), NOW, Walk::new(), t.at, t.mend, t.found, reply);
    assert!(matches!(t.request, SearchRequest::CheckClock));
    assert_eq!(walk.months.len(), 7);
    let asked: Vec<(&str, bool)> =
        walk.targets.iter().map(|t| (t.slug.as_str(), t.probe)).collect();
    assert_eq!(
        asked,
        vec![
            ("july-2026", true),
            ("june-2026", true),
            ("may-2026", true),
            ("april-2026", true),
            ("march-2026", false),
            ("july-2020", false),
        ]
    );
    let reply = SearchReply::Late(true);
    let (walk, _) = discover_choice_games(&index(), NOW, walk, t.at, t.mend, t.found, reply);
    assert_eq!(walk.targets.len(), 6);
}

#[test]
fn keys_of_a_pick_that_match_nothing_on_offer_are_counted() {
    let marks = vec![vec![true, false, false, false], vec![false, false, false, true]];
    assert_eq!(strays(&vec![true, true, false, true], &marks, 2), 1);
    assert_eq!(strays(&vec![true, true, false, true], &marks, 1), 2);
    assert_eq!(strays(&vec![false, false, false, false], &marks, 2), 0);
    assert_eq!(strays(&vec![true], &vec![], 2), 1);
}
