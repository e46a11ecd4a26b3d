use fulfillment::app_set::AppSet;
use fulfillment::backfill_pass::{
    backfill_steam_details, start_backfill, BackfillReply, BackfillRequest,
};
use fulfillment::enrich::{
    appids_of, auto_hide_adult_games, due_for, enrich_app, enrich_worklist, note_enriched,
    start_app, AppAt, AppDetails, AppOutcome, AppReply, AppRequest, EnrichTally,
    PersistResult, Put, SteamAppPutGuard, SteamError, Work,
};
use fulfillment::enrich_pass::{
    enrich_steam_apps, start_enrich, EnrichReply, EnrichRequest, EnrichSummary,
};
use fulfillment::model::{AppidSource, Game, GameStatus};
use fulfillment::ownership::{
    any_unmapped, apply_mapping, map_missing_appids, normalize, plan_refresh,
    refresh_ben_ownership, stamp_owned, tidy, Library, ListedApp, Refresh,
};
use fulfillment::steam::{
    fetch_tag_batch, has_adult_descriptors, tags_for_app, RecentReviews, ReviewSummary,
    SteamAppCache, SteamAppDetail, TagBatch,
};
use std::collections::HashMap;

const DAY: i64 = 86_400;

fn game(id: &str, title: &str, app: Option<u32>) -> Game {
    Game {
        id: id.into(),
        title: title.into(),
        bundle: "B".into(),
        gamekey: "gk".into(),
        machine_name: id.into(),
        key_type: "steam".into(),
        giftable: true,
        hidden: false,
        status: GameStatus::Available,
        claim_id: None,
        artwork_url: None,
        keyindex: 0,
        requires_choice: false,
        steam_app_id: app,
        appid_source: None,
        owned_by_ben: false,
    }
}

fn detail(app_id: u32, descriptors: Vec<u32>, tags: Vec<&str>) -> SteamAppDetail {
    SteamAppDetail {
        app_id,
        name: "N".into(),
        developers: vec!["D".into()],
        publishers: vec![],
        genres: vec![],
        release_date: None,
        short_description: "s".into(),
        header_image: None,
        video_hls_url: None,
        video_thumbnail: None,
        screenshots: vec![],
        tags: tags.into_iter().map(String::from).collect(),
        content_descriptor_ids: descriptors,
        content_notes: None,
    }
}

fn cache(app_id: u32, fetched: i64, reviewed: i64, live: bool, adult: bool) -> SteamAppCache {
    let mut c = SteamAppCache::empty(app_id);
    c.fetched_at = fetched;
    c.reviews_fetched_at = reviewed;
    if live {
        c.detail = Some(detail(app_id, if adult { vec![1, 4] } else { vec![1, 5] }, vec!["old"]));
    }
    c
}

fn summary() -> ReviewSummary {
    ReviewSummary { desc: "Good".into(), total_positive: 9, total_negative: 1, total_reviews: 10 }
}

#[test]
fn apps_are_counted_once_in_ascending_order() {
    let games = vec![
        game("a", "A", Some(30)),
        game("b", "B", None),
        game("c", "C", Some(10)),
        game("d", "D", Some(30)),
        game("e", "E", Some(20)),
    ];
    assert_eq!(appids_of(&games).ids(), vec![10, 20, 30]);
    let mut adult = AppSet::new();
    adult.insert(30);
    adult.insert(10);
    adult.insert(30);
    assert_eq!(auto_hide_adult_games(&adult, &games), vec!["c", "a", "d"]);
    adult.remove(10);
    adult.remove(11);
    assert_eq!(adult.ids(), vec![30]);
}

#[test]
fn each_half_is_due_by_its_own_clock() {
    let now = 100 * DAY;
    let w = |c: Option<SteamAppCache>| {
        let w = due_for(1, &c, now);
        (w.need_detail, w.need_reviews)
    };
    assert_eq!(w(None), (true, true));
    assert_eq!(w(Some(cache(1, now - 30 * DAY, now - 14 * DAY + 1, true, false))), (true, false));
    assert_eq!(w(Some(cache(1, now - 30 * DAY + 1, now - 14 * DAY, true, false))), (false, true));
    assert_eq!(w(Some(cache(1, now - 29 * DAY, 0, false, false))), (false, false));
    assert_eq!(w(Some(cache(1, i64::MIN, i64::MAX, true, false))), (true, false));
}

#[test]
fn a_pass_takes_seventy_five_and_puts_off_the_rest() {
    let apps: Vec<u32> = (0..80).collect();
    let mut caches: Vec<Option<SteamAppCache>> = apps.iter().map(|_| None).collect();
    caches[3] = Some(cache(3, 0, 0, true, false));
    let (work, deferred) = enrich_worklist(&apps, &caches, 1);
    assert_eq!((work.len(), deferred), (75, 4));
    assert_eq!((work[2].app_id, work[3].app_id), (2, 4));
}

#[test]
fn tags_come_from_the_batch_or_stay() {
    let mut items = HashMap::new();
    items.insert(7u32, (0..14).collect::<Vec<u32>>());
    let names: HashMap<u32, String> =
        (0..14).filter(|i| *i != 1).map(|i| (i, format!("t{i}"))).collect();
    let batch = Some(TagBatch { items, names });
    let got = tags_for_app(7, &batch, None);
    assert_eq!(
        got,
        vec!["t0", "t2", "t3", "t4", "t5", "t6", "t7", "t8", "t9", "t10"]
    );
    let before = detail(8, vec![], vec!["kept"]);
    assert!(tags_for_app(8, &batch, Some(&before)).is_empty());
    assert_eq!(tags_for_app(8, &None, Some(&before)), vec!["kept"]);
    assert!(tags_for_app(8, &None, None).is_empty());
    assert!(fetch_tag_batch(Ok(HashMap::new()), Ok(HashMap::new())).is_none());
    assert!(fetch_tag_batch(Err(()), Ok(HashMap::new())).is_none());
    let mut one = HashMap::new();
    one.insert(1u32, vec![]);
    assert!(fetch_tag_batch(Ok(one), Ok(HashMap::new())).is_some());
}

#[test]
fn three_and_four_mark_an_adult_game() {
    assert!(has_adult_descriptors(&Some(detail(1, vec![1, 3], vec![]))));
    assert!(has_adult_descriptors(&Some(detail(1, vec![4], vec![]))));
    assert!(!has_adult_descriptors(&Some(detail(1, vec![1, 2, 5], vec![]))));
    assert!(!has_adult_descriptors(&None));
}

const BOTH: Work = Work { app_id: 7, need_detail: true, need_reviews: true };

#[test]
fn an_app_is_fetched_and_written() {
    let s = start_app();
    let s = enrich_app(&BOTH, &None, 500, s.at, AppReply::Snapshot(Ok(None)));
    assert!(matches!(s.request, AppRequest::FetchDetail));
    let found = AppDetails::Found(Box::new(detail(7, vec![], vec!["wire"])));
    let s = enrich_app(&BOTH, &None, 500, s.at, AppReply::Detail(Ok(found)));
    assert!(matches!(s.request, AppRequest::FetchSummary));
    let s = enrich_app(&BOTH, &None, 500, s.at, AppReply::Summary(Ok(summary())));
    assert!(matches!(s.request, AppRequest::FetchRecent));
    let recent = RecentReviews { percent_positive: 90, count: 3 };
    let s = enrich_app(&BOTH, &None, 500, s.at, AppReply::Recent(Ok(recent)));
    assert!(matches!(s.request, AppRequest::Put { guard: SteamAppPutGuard::Absent }));
    let s = enrich_app(&BOTH, &None, 500, s.at, AppReply::Put(Put::LostRace));
    assert!(matches!(s.request, AppRequest::ReadSnapshot));
    let theirs = cache(7, 900, 100, true, false);
    let s = enrich_app(&BOTH, &None, 500, s.at, AppReply::Snapshot(Ok(Some(theirs))));
    assert!(matches!(s.request, AppRequest::Put { guard: SteamAppPutGuard::Unchanged }));
    match &s.at {
        AppAt::Putting { cache, .. } => {
            assert_eq!((cache.fetched_at, cache.reviews_fetched_at), (900, 500));
            assert_eq!(cache.detail.as_ref().unwrap().tags, vec!["old"]);
            assert!(cache.overall.is_some());
        }
        _ => panic!("the second write is under way"),
    }
    let s = enrich_app(&BOTH, &None, 500, s.at, AppReply::Put(Put::LostRace));
    match s.request {
        AppRequest::Done(o) => {
            assert!(matches!(o.result, PersistResult::LostTwice) && o.live && !o.abort)
        }
        _ => panic!("two races are enough"),
    }
}

#[test]
fn a_stub_keeps_its_reviews_and_a_delisted_app_has_none() {
    let stub = || AppReply::Snapshot(Ok(Some(cache(7, 0, 0, false, false))));
    let reviews_only = Work { app_id: 7, need_detail: false, need_reviews: true };
    let s = enrich_app(&reviews_only, &None, 500, AppAt::Reading, stub());
    assert!(matches!(s.request, AppRequest::Done(o) if matches!(o.result, PersistResult::Nothing)));
    let s = enrich_app(&BOTH, &None, 500, AppAt::Reading, stub());
    let s = enrich_app(&BOTH, &None, 500, s.at, AppReply::Detail(Ok(AppDetails::Delisted)));
    match &s.at {
        AppAt::Putting { cache, .. } => {
            assert_eq!((cache.fetched_at, cache.reviews_fetched_at), (500, 500));
            assert!(cache.detail.is_none());
        }
        _ => panic!("a stub is written"),
    }
    let s = enrich_app(&BOTH, &None, 500, s.at, AppReply::Put(Put::Done));
    assert!(matches!(s.request, AppRequest::Done(o) if o.delisted && !o.live));
}

#[test]
fn a_rate_limit_banks_the_page_and_ends_the_pass() {
    let s = enrich_app(&BOTH, &None, 500, AppAt::Reading, AppReply::Snapshot(Ok(None)));
    let s = enrich_app(
        &BOTH,
        &None,
        500,
        s.at,
        AppReply::Detail(Err(SteamError::RateLimited)),
    );
    assert!(matches!(s.request, AppRequest::Done(o) if o.abort));
    let s = enrich_app(&BOTH, &None, 500, AppAt::Reading, AppReply::Snapshot(Ok(None)));
    let found = AppDetails::Found(Box::new(detail(7, vec![], vec![])));
    let s = enrich_app(&BOTH, &None, 500, s.at, AppReply::Detail(Ok(found)));
    let s = enrich_app(
        &BOTH,
        &None,
        500,
        s.at,
        AppReply::Summary(Err(SteamError::RateLimited)),
    );
    assert!(matches!(s.request, AppRequest::Put { .. }));
    let s = enrich_app(&BOTH, &None, 500, s.at, AppReply::Put(Put::Done));
    match s.request {
        AppRequest::Done(o) => {
            assert!(o.abort && o.live && matches!(o.result, PersistResult::Written { .. }))
        }
        _ => panic!("the page is banked"),
    }
    let s = enrich_app(&BOTH, &None, 500, AppAt::Reading, AppReply::Snapshot(Err(())));
    assert!(matches!(s.request, AppRequest::Done(o) if matches!(o.result, PersistResult::SnapshotFailed)));
    let at = AppAt::Detailing { snap: None };
    let s = enrich_app(&BOTH, &None, 500, at, AppReply::Detail(Err(SteamError::NotFound)));
    assert!(matches!(s.request, AppRequest::Done(o) if matches!(o.result, PersistResult::DetailFailed) && !o.abort));
}

fn one_app(mut s: fulfillment::enrich_pass::EnrichStep, now: i64) -> fulfillment::enrich_pass::EnrichStep {
    s = enrich_steam_apps(now, s.at, EnrichReply::Late(false));
    s = enrich_steam_apps(now, s.at, EnrichReply::App(AppReply::Snapshot(Ok(None))));
    let found = AppDetails::Found(Box::new(detail(1, vec![3], vec![])));
    s = enrich_steam_apps(now, s.at, EnrichReply::App(AppReply::Detail(Ok(found))));
    s = enrich_steam_apps(
        now,
        s.at,
        EnrichReply::App(AppReply::Summary(Err(SteamError::Network))),
    );
    assert!(matches!(&s.request, EnrichRequest::App { request: AppRequest::Put { .. }, .. }));
    enrich_steam_apps(now, s.at, EnrichReply::App(AppReply::Put(Put::Done)))
}

#[test]
fn a_whole_pass_fetches_hides_and_sums_up() {
    let now = 100 * DAY;
    let s = start_enrich(false, true);
    let games = vec![game("g1", "A", Some(1)), game("g2", "B", Some(2)), game("g3", "C", Some(3))];
    let s = enrich_steam_apps(now, s.at, EnrichReply::Games(Ok(games)));
    assert!(matches!(&s.request, EnrichRequest::ReadCaches { apps } if *apps == vec![1, 2, 3]));
    let fresh_adult = cache(2, now, now, true, true);
    let s = enrich_steam_apps(
        now,
        s.at,
        EnrichReply::Caches(Ok(vec![None, Some(fresh_adult), None])),
    );
    assert!(matches!(s.request, EnrichRequest::CheckClock));
    let s = enrich_steam_apps(now, s.at, EnrichReply::Late(false));
    assert!(matches!(&s.request, EnrichRequest::FetchTags { ids } if *ids == vec![1, 3]));
    let s = enrich_steam_apps(
        now,
        s.at,
        EnrichReply::Tags { items: Err(()), names: Ok(HashMap::new()) },
    );
    let s = one_app(s, now);
    assert!(matches!(s.request, EnrichRequest::CheckClock));
    let s = enrich_steam_apps(now, s.at, EnrichReply::Late(true));
    assert!(matches!(&s.request, EnrichRequest::Hide { id } if id == "g1"));
    let s = enrich_steam_apps(now, s.at, EnrichReply::Hidden(true));
    assert!(matches!(&s.request, EnrichRequest::Hide { id } if id == "g2"));
    let s = enrich_steam_apps(now, s.at, EnrichReply::Hidden(false));
    match s.request {
        EnrichRequest::Done(Some(sum)) => assert_eq!(
            sum,
            EnrichSummary {
                fetched: 1,
                fresh: 1,
                negative: 0,
                lost_race: 0,
                aborted_429: false,
                auto_hidden: 1,
                tag_batch_failed: true,
                deferred: 1,
            }
        ),
        _ => panic!("the pass is over"),
    }
}

#[test]
fn a_pass_that_is_off_or_cannot_read_does_nothing() {
    assert!(matches!(start_enrich(true, true).request, EnrichRequest::Done(None)));
    assert!(matches!(start_enrich(false, false).request, EnrichRequest::Done(None)));
    let s = start_enrich(false, true);
    let s = enrich_steam_apps(0, s.at, EnrichReply::Games(Err(())));
    assert!(matches!(s.request, EnrichRequest::Done(None)));
    let s = start_enrich(false, true);
    let s = enrich_steam_apps(0, s.at, EnrichReply::Games(Ok(vec![])));
    let s = enrich_steam_apps(0, s.at, EnrichReply::Caches(Err(())));
    assert!(matches!(s.request, EnrichRequest::Done(None)));
}

#[test]
fn a_rebuild_takes_everything_that_is_not_fresh() {
    let now = 1000;
    let s = start_backfill();
    let games: Vec<Game> = (1..=4).map(|i| game(&format!("g{i}"), "T", Some(i))).collect();
    let step = |s: fulfillment::backfill_pass::BackfillStep, r: BackfillReply| {
        backfill_steam_details(now, 100, s.at, r)
    };
    let s = step(s, BackfillReply::Games(Ok(games)));
    assert!(matches!(s.request, BackfillRequest::ReadCache { app_id: 1 }));
    let s = step(s, BackfillReply::Cache(Err(())));
    let s = step(s, BackfillReply::Cache(Ok(Some(cache(2, 901, 0, true, true)))));
    let s = step(s, BackfillReply::Cache(Ok(Some(cache(3, 900, 0, true, true)))));
    let s = step(s, BackfillReply::Cache(Ok(None)));
    assert!(matches!(&s.request, BackfillRequest::FetchTags { ids } if *ids == vec![3, 4]));
    let s = step(s, BackfillReply::Tags { items: Err(()), names: Err(()) });
    assert!(matches!(&s.request, BackfillRequest::App { app_id: 3, request: AppRequest::ReadSnapshot }));
    let s = step(s, BackfillReply::App(AppReply::Snapshot(Ok(None))));
    let clean = AppDetails::Found(Box::new(detail(3, vec![], vec![])));
    let s = step(s, BackfillReply::App(AppReply::Detail(Ok(clean))));
    assert!(matches!(&s.request, BackfillRequest::App { request: AppRequest::Put { .. }, .. }));
    let s = step(s, BackfillReply::App(AppReply::Put(Put::Done)));
    let s = step(s, BackfillReply::App(AppReply::Snapshot(Ok(None))));
    let s = step(s, BackfillReply::App(AppReply::Detail(Err(SteamError::RateLimited))));
    assert!(matches!(&s.request, BackfillRequest::Hide { id } if id == "g2"));
    let s = step(s, BackfillReply::Hidden(true));
    match s.request {
        BackfillRequest::Done(Some(b)) => {
            assert_eq!((b.fetched, b.negative, b.skipped, b.failed), (1, 0, 1, 1));
            assert!(b.aborted_429 && b.tag_batch_failed);
            assert_eq!((b.auto_hidden, b.lost_race), (1, 0));
        }
        _ => panic!("the rebuild is over"),
    }
    let s = step(start_backfill(), BackfillReply::Games(Err(())));
    assert!(matches!(s.request, BackfillRequest::Done(None)));
}

#[test]
fn marks_change_only_where_the_library_says_otherwise() {
    let mut owned = game("owned", "A", Some(1));
    owned.owned_by_ben = true;
    let mut sold = game("sold", "B", Some(2));
    sold.owned_by_ben = true;
    let games = vec![owned, sold, game("new", "C", Some(3)), game("none", "D", None)];
    let got: Vec<(String, bool)> =
        stamp_owned(&games, &vec![3, 1]).into_iter().map(|s| (s.game_id, s.owned)).collect();
    assert_eq!(got, vec![("sold".to_string(), false), ("new".to_string(), true)]);
}

#[test]
fn a_private_library_is_told_of_once() {
    assert_eq!(plan_refresh(false, true, None, 0), Refresh::Skip);
    assert_eq!(plan_refresh(true, false, None, 0), Refresh::Skip);
    assert_eq!(plan_refresh(true, true, Some(0), DAY), Refresh::UseCached);
    assert_eq!(plan_refresh(true, true, Some(0), DAY + 1), Refresh::Fetch);
    assert_eq!(plan_refresh(true, true, None, 0), Refresh::Fetch);
    let r = refresh_ben_ownership(Refresh::Fetch, Library::Private, true, false);
    assert!(r.private_pinged && !r.stamp);
    assert!(r.told.unwrap().as_str().starts_with("your steam 'game details' privacy"));
    let r = refresh_ben_ownership(Refresh::Fetch, Library::Private, true, true);
    assert!(r.private_pinged && r.told.is_none());
    let r = refresh_ben_ownership(Refresh::Fetch, Library::Private, false, false);
    assert!(r.private_pinged && r.told.is_none());
    let r = refresh_ben_ownership(Refresh::Fetch, Library::Games, true, true);
    assert!(!r.private_pinged && r.stamp);
    let r = refresh_ben_ownership(Refresh::UseCached, Library::Failed, true, true);
    assert!(!r.private_pinged && r.stamp);
    let r = refresh_ben_ownership(Refresh::Fetch, Library::Failed, true, true);
    assert!(r.private_pinged && !r.stamp);
    let r = refresh_ben_ownership(Refresh::Skip, Library::Failed, true, false);
    assert!(!r.private_pinged && !r.stamp);
}

#[test]
fn titles_are_compared_in_lower_case_without_signs_and_spare_space() {
    assert_eq!(normalize("  Sid Meier's™  CIVILIZATION®\tVI "), "sid meier's civilization vi");
    assert_eq!(normalize("ÄÖ ™ x"), "äö x");
    assert_eq!(tidy("™"), "");
    assert_eq!(tidy(" a™b "), "ab");
}

#[test]
fn only_one_app_of_a_title_will_do() {
    let apps = vec![
        ListedApp { app_id: 1, name: "Alpha".into() },
        ListedApp { app_id: 2, name: "Beta™".into() },
        ListedApp { app_id: 3, name: "beta".into() },
        ListedApp { app_id: 4, name: "Gamma®".into() },
    ];
    let mut manual = game("m", "Alpha", None);
    manual.appid_source = Some(AppidSource::Manual);
    let mut gog = game("g", "Alpha", None);
    gog.key_type = "gog".into();
    let mut games = vec![
        game("a", "ALPHA", None),
        game("b", "Beta", None),
        game("c", " gamma", None),
        game("d", "Delta", None),
        game("e", "Alpha", Some(9)),
        manual,
        gog,
    ];
    assert!(any_unmapped(&games));
    assert!(!any_unmapped(&vec![game("e", "Alpha", Some(9))]));
    let got: Vec<(String, u32)> =
        map_missing_appids(&games, &apps).into_iter().map(|m| (m.game_id, m.app_id)).collect();
    assert_eq!(got, vec![("a".to_string(), 1), ("c".to_string(), 4)]);
    apply_mapping(&mut games, "c", 4);
    apply_mapping(&mut games, "nowhere", 5);
    assert_eq!(games[2].steam_app_id, Some(4));
    assert_eq!(games[2].appid_source, Some(AppidSource::Title));
    assert_eq!(games[0].steam_app_id, None);
}

fn tally() -> EnrichTally {
    let mut adult = AppSet::new();
    adult.insert(7);
    EnrichTally {
        fetched: 0,
        fresh: 0,
        negative: 0,
        lost_race: 0,
        aborted_429: false,
        deferred: 0,
        adult,
    }
}

#[test]
fn only_what_was_written_is_counted_and_clears_an_app() {
    let outcome = |result: PersistResult, live: bool, delisted: bool| AppOutcome {
        result,
        live,
        delisted,
        abort: false,
    };
    let written = |adult: bool| PersistResult::Written {
        cache: Box::new(cache(7, 1, 1, true, adult)),
        after_race: true,
    };
    let mut t = tally();
    assert!(note_enriched(&mut t, 7, &outcome(PersistResult::LostTwice, true, false), 1, 0));
    assert_eq!((t.fetched, t.fresh, t.lost_race), (0, 0, 1));
    let failed = PersistResult::Failed { after_race: true };
    assert!(note_enriched(&mut t, 7, &outcome(failed, false, true), 1, 0));
    assert_eq!((t.fetched, t.negative, t.lost_race), (0, 0, 2));
    assert_eq!(t.adult.ids(), vec![7]);
    assert!(note_enriched(&mut t, 7, &outcome(written(false), false, true), 1, 0));
    assert_eq!((t.fetched, t.fresh, t.negative, t.lost_race), (1, 0, 1, 3));
    assert_eq!(t.adult.ids(), vec![7]);
    assert!(note_enriched(&mut t, 7, &outcome(written(false), true, false), 1, 0));
    assert_eq!((t.fetched, t.fresh), (2, 1));
    assert!(t.adult.ids().is_empty());
    assert!(note_enriched(&mut t, 7, &outcome(written(true), true, false), 1, 0));
    assert_eq!(t.adult.ids(), vec![7]);
}

#[test]
fn pages_are_asked_for_in_order_and_not_after_a_rate_limit() {
    let now = 100 * DAY;
    let games: Vec<Game> =
        [30, 10, 20, 10].iter().map(|a| game(&format!("g{a}"), "T", Some(*a))).collect();
    let s = start_enrich(false, true);
    let s = enrich_steam_apps(now, s.at, EnrichReply::Games(Ok(games)));
    let s = enrich_steam_apps(now, s.at, EnrichReply::Caches(Ok(vec![None, None, None])));
    let mut s = enrich_steam_apps(now, s.at, EnrichReply::Late(true));
    let mut asked = Vec::new();
    loop {
        let reply = match &s.request {
            EnrichRequest::CheckClock => EnrichReply::Late(false),
            EnrichRequest::App { app_id, request } => EnrichReply::App(match request {
                AppRequest::ReadSnapshot => AppReply::Snapshot(Ok(None)),
                AppRequest::FetchDetail => {
                    asked.push(*app_id);
                    AppReply::Detail(Err(if asked.len() == 2 {
                        SteamError::RateLimited
                    } else {
                        SteamError::NotFound
                    }))
                }
                _ => panic!("nothing was found"),
            }),
            EnrichRequest::Done(Some(sum)) => {
                assert!(sum.aborted_429);
                assert_eq!(sum.deferred, 1);
                break;
            }
            _ => panic!("no other request is due"),
        };
        s = enrich_steam_apps(now, s.at, reply);
    }
    assert_eq!(asked, vec![10, 20]);
}

#[test]
fn a_rebuild_tells_of_every_app_once() {
    let games: Vec<Game> = (1..=4).map(|i| game(&format!("g{i}"), "T", Some(i))).collect();
    let mut s = start_backfill();
    let mut puts = 0;
    let summary = loop {
        let reply = match s.request {
            BackfillRequest::ListGames => {
                BackfillReply::Games(Ok((0..4).map(|i| games[i].copy()).collect()))
            }
            BackfillRequest::ReadCache { app_id } => BackfillReply::Cache(match app_id {
                1 => Err(()),
                2 => Ok(Some(cache(2, 1000, 0, true, false))),
                _ => Ok(None),
            }),
            BackfillRequest::FetchTags { .. } => {
                BackfillReply::Tags { items: Err(()), names: Err(()) }
            }
            BackfillRequest::App { app_id, request } => BackfillReply::App(match request {
                AppRequest::ReadSnapshot => AppReply::Snapshot(Ok(None)),
                AppRequest::FetchDetail => AppReply::Detail(Ok(if app_id == 3 {
                    AppDetails::Found(Box::new(detail(3, vec![], vec![])))
                } else {
                    AppDetails::Delisted
                })),
                AppRequest::Put { .. } => {
                    puts += 1;
                    AppReply::Put(if puts == 1 { Put::LostRace } else { Put::Done })
                }
                _ => panic!("a rebuild asks for no reviews"),
            }),
            BackfillRequest::Hide { .. } => BackfillReply::Hidden(false),
            BackfillRequest::Done(Some(b)) => break b,
            BackfillRequest::Done(None) => panic!("the games were listed"),
        };
        s = backfill_steam_details(1000, 100, s.at, reply);
    };
    assert_eq!((summary.fetched, summary.negative, summary.skipped, summary.failed), (1, 1, 1, 1));
    assert_eq!(summary.lost_race, 1);
    assert!(!summary.aborted_429);
}
