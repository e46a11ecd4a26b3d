use fulfillment::card::Embed;
use fulfillment::model::{Game, GameStatus, Link};
use fulfillment::steam::{
    RecentReviews, ReviewSummary, Screenshot, SteamAppCache, SteamAppDetail,
};
use fulfillment::whisper::{
    active_promises, current_cycle, delivered_ids, eligible, select, WhisperRecord,
};
use fulfillment::whisper_card::{
    fmt_thousands, footer_text, title_len_after_trunc, trunc, whisper_card, PreviewKind,
    CONTENT_MAX, EMBED_TITLE_MAX, EMBED_TOTAL_TEXT_MAX, MAX_EMBEDS,
};
use fulfillment::card::Card;
use std::collections::HashSet;

const DAY: i128 = 86_400_000_000_000;

fn now_utc() -> i128 {
    time::OffsetDateTime::now_utc().unix_timestamp_nanos()
}

fn game(id: &str, title: &str, art: Option<&str>) -> Game {
    Game {
        id: id.into(),
        title: title.into(),
        bundle: "Humble Test Bundle".into(),
        gamekey: "gk".into(),
        machine_name: id.into(),
        key_type: "steam".into(),
        giftable: true,
        hidden: false,
        status: GameStatus::Available,
        claim_id: None,
        artwork_url: art.map(Into::into),
        keyindex: 0,
        requires_choice: false,
        steam_app_id: None,
        appid_source: None,
        owned_by_ben: false,
    }
}

fn game_with_bundle(id: &str, title: &str, bundle: &str, art: Option<&str>) -> Game {
    let mut g = game(id, title, art);
    g.bundle = bundle.into();
    g
}

fn is_listable(g: &Game) -> bool {
    g.status == GameStatus::Available && !g.hidden
}

fn pool_of<'a>(games: &'a Vec<Game>, excluded: &Vec<String>) -> Vec<&'a Game> {
    let listable: Vec<bool> = games.iter().map(is_listable).collect();
    eligible(games, &listable, &vec![], excluded)
}

fn test_link(token: &str) -> Link {
    Link {
        token: token.into(),
        label: "t".into(),
        thank_note: None,
        claims_allowed: 3,
        claims_used: 0,
        revoked: false,
        expires_at: None,
        unlock_at: None,
        curated_game_ids: None,
        friend_id: None,
        created_at: now_utc(),
    }
}

fn wr(slot: &str, game_id: &str, cycle: u32, delivered: bool) -> WhisperRecord {
    WhisperRecord { slot: slot.into(), game_id: game_id.into(), cycle, delivered }
}

/// The share of positive reviews, rounded to full percent.
fn percent(c: &SteamAppCache) -> u64 {
    match &c.overall {
        Some(o) => {
            ((o.total_positive as f64 / (o.total_reviews.max(1) as f64)) * 100.0).round() as u64
        }
        None => 0,
    }
}

fn card(
    g: &Game,
    steam: Option<&SteamAppCache>,
    site: &str,
    cycle: u32,
    slot: &str,
    preview: Option<PreviewKind>,
) -> Card {
    whisper_card(g, steam, steam.map_or(0, percent), site, cycle, slot, preview)
}

fn footer(e: &Embed) -> &str {
    e.footer.as_deref().unwrap()
}

#[test]
fn active_promise_excludes_curated_only() {
    let now = now_utc();
    let open_shelf = test_link("open");
    let mut curated = test_link("cur");
    curated.curated_game_ids = Some(vec!["g1".into()]);
    let mut spent = test_link("spent");
    spent.curated_game_ids = Some(vec!["g2".into()]);
    spent.claims_allowed = 1;
    spent.claims_used = 1;
    let mut revoked = test_link("rev");
    revoked.curated_game_ids = Some(vec!["g3".into()]);
    revoked.revoked = true;
    let p: HashSet<String> =
        active_promises(&vec![open_shelf, curated, spent, revoked], now).into_iter().collect();
    assert_eq!(p, ["g1".to_string()].into_iter().collect());
}

#[test]
fn sealed_curated_link_still_promises() {
    let now = now_utc();
    let mut sealed = test_link("sealed");
    sealed.curated_game_ids = Some(vec!["g9".into()]);
    sealed.unlock_at = Some(now + 2 * DAY);
    let p = active_promises(&vec![sealed], now);
    assert!(p.contains(&"g9".to_string()));
}

#[test]
fn cycle_rolls_over_instead_of_going_quiet() {
    let ws = vec![wr("2026-W31", "g1", 0, true), wr("2026-W32", "g2", 0, true)];
    assert_eq!(current_cycle(&ws), 0);
    let excluded = delivered_ids(&ws, 0);
    let games = vec![game("g1", "a", None), game("g2", "b", None)];
    let pool = pool_of(&games, &excluded);
    assert!(pool.is_empty());
    let pool2 = pool_of(&games, &delivered_ids(&ws, 1));
    assert_eq!(pool2.len(), 2);
}

#[test]
fn undelivered_whisper_is_a_receipt_not_an_exclusion() {
    let ws = vec![wr("2026-W31", "g1", 0, false)];
    assert!(delivered_ids(&ws, 0).is_empty());
}

#[test]
fn eligible_respects_listability_and_stable_order() {
    let mut hidden = game("g3", "ccc", None);
    hidden.hidden = true;
    let mut pending = game("g4", "ddd", None);
    pending.status = GameStatus::Pending;
    let games = vec![game("g2", "bbb", None), game("g1", "aaa", None), hidden, pending];
    let pool = pool_of(&games, &vec![]);
    let ids: Vec<&str> = pool.iter().map(|g| g.id.as_str()).collect();
    assert_eq!(ids, vec!["g1", "g2"]);
}

#[test]
fn select_prefers_dressed_treasures_and_is_deterministic() {
    let g_art = game("g1", "aaa", Some("https://art/1.png"));
    let g_plain = game("g2", "bbb", None);
    let pool = vec![&g_art, &g_plain];
    let picked = select(&pool, 2_461_281).unwrap();
    assert_eq!(picked.id, "g1");
    assert_eq!(select(&pool, 2_461_281).unwrap().id, picked.id);
    let artless = vec![&g_plain];
    assert!(select(&artless, 2_461_281).is_some());
    assert!(select(&vec![], 2_461_281).is_none());
}

#[test]
fn card_without_steam_carries_v1_information() {
    let g = game_with_bundle(
        "g1",
        "Overgrowth",
        "Humble Indie Bundle 9",
        Some("https://art/x.png"),
    );
    let v = card(&g, None, "https://bendobundles.com", 0, "2026-W36", None);
    let content = v.content.as_str();
    assert!(content.starts_with("🕯️"));
    assert!(content.contains("**Overgrowth**"));
    assert!(content.contains("Humble Indie Bundle 9"));
    assert!(content.contains("https://bendobundles.com/admin/catalog?q=Overgrowth"));
    assert!(!content.contains("https://art/x.png"));
    assert_eq!(v.embeds.len(), 1);
    assert_eq!(v.embeds[0].title.as_deref(), Some("Overgrowth"));
    assert_eq!(v.embeds[0].image.as_deref(), Some("https://art/x.png"));
    assert_eq!(v.allowed_mentions.parse.len(), 0);
}

#[test]
fn card_deeplink_urlencodes_the_title() {
    let g = game_with_bundle("g1", "Papers, Please", "HB 12", None);
    let v = card(&g, None, "https://bendobundles.com", 0, "2026-W36", None);
    assert!(v.content.contains("catalog?q=Papers%2C%20Please"));
}

#[test]
fn card_preview_marks_content_and_footer_and_names_its_kind() {
    let g = game("g1", "aaa", None);
    let real = card(&g, None, "https://s", 0, "2026-W36", None);
    let prev = card(&g, None, "https://s", 0, "2026-W36", Some(PreviewKind::NewestDelivered));
    let dry = card(&g, None, "https://s", 0, "2026-W36", Some(PreviewKind::DryRunPick));
    assert!(prev.content.starts_with("🔍 *preview"));
    assert!(footer(&prev.embeds[0]).starts_with("🔍 preview — newest delivered"));
    assert!(footer(&dry.embeds[0]).starts_with("🔍 preview — today's dry pick"));
    let strip =
        |v: &Card| footer(&v.embeds[0]).rsplit("the attic whispers").next().unwrap().to_string();
    assert_eq!(strip(&real), strip(&prev));
    assert!(!real.content.contains("preview"));
    assert!(!footer(&real.embeds[0]).contains("preview"));
}

#[test]
fn trunc_is_char_boundary_safe() {
    assert_eq!(trunc("abc", 5), "abc");
    assert_eq!(trunc("abcdef", 5), "abcd…");
    let s = "♡♡♡♡";
    assert_eq!(trunc(s, 3), "♡♡…");
}

fn steam_cache(n_shots: usize, hls: bool) -> SteamAppCache {
    SteamAppCache {
        app_id: 570,
        detail: Some(SteamAppDetail {
            app_id: 570,
            name: "Overgrowth".into(),
            developers: vec!["Wolfire".into()],
            publishers: vec!["Wolfire".into()],
            genres: vec!["Action".into()],
            release_date: Some("Oct 16, 2017".into()),
            short_description: "a rabbit does kung fu.".into(),
            header_image: Some("https://cdn/header.jpg".into()),
            video_hls_url: if hls { Some("https://cdn/movie.m3u8".into()) } else { None },
            video_thumbnail: Some("https://cdn/vthumb.jpg".into()),
            screenshots: (0..n_shots)
                .map(|i| Screenshot {
                    thumbnail: format!("https://cdn/s{i}t.jpg"),
                    full: format!("https://cdn/s{i}.jpg"),
                })
                .collect(),
            tags: vec!["Ninja".into(), "Rabbits".into()],
            content_descriptor_ids: vec![2, 5],
            content_notes: Some("cartoon rabbit violence".into()),
        }),
        overall: Some(ReviewSummary {
            desc: "Very Positive".into(),
            total_positive: 900,
            total_negative: 100,
            total_reviews: 1000,
        }),
        recent: Some(RecentReviews { percent_positive: 88, count: 42 }),
        fetched_at: 0,
        reviews_fetched_at: 0,
    }
}

fn steam_game(title: &str) -> Game {
    let mut g = game("g1", title, None);
    g.steam_app_id = Some(570);
    g
}

#[test]
fn card_full_blob_renders_every_card_element() {
    let mut g = game("g1", "Overgrowth", Some("https://art/x.png"));
    g.steam_app_id = Some(570);
    let v = card(&g, Some(&steam_cache(2, true)), "https://s", 3, "2026-W36", None);
    let e0 = &v.embeds[0];
    assert_eq!(e0.url.as_deref(), Some("https://store.steampowered.com/app/570"));
    let description = e0.description.as_deref().unwrap();
    assert!(description.contains("a rabbit does kung fu."));
    assert!(
        description.contains("[🎬 watch the trailer](https://store.steampowered.com/app/570)")
    );
    let get = |n: &str| e0.fields.iter().find(|f| f.name == n).unwrap().value.clone();
    assert_eq!(get("by"), "Wolfire");
    assert_eq!(get("released"), "Oct 16, 2017");
    assert_eq!(get("tags"), "Ninja · Rabbits");
    assert_eq!(get("reviews"), "Very Positive — 90% of 1,000 (88% of 42 recent)");
    assert_eq!(get("bundle"), "Humble Test Bundle (steam)");
    assert_eq!(e0.image.as_deref(), Some("https://cdn/s0.jpg"));
    assert_eq!(e0.thumbnail.as_deref(), Some("https://cdn/vthumb.jpg"));
    assert!(footer(e0).contains("cycle 3"));
    assert!(footer(e0).contains("2026-W36"));
    assert!(!footer(e0).contains("trimmed"));
}

#[test]
fn card_without_screenshots_keeps_header_as_image() {
    let v = card(
        &steam_game("aaa"),
        Some(&steam_cache(0, false)),
        "https://s",
        0,
        "2026-W36",
        None,
    );
    assert_eq!(v.embeds[0].image.as_deref(), Some("https://cdn/header.jpg"));
}

#[test]
fn card_never_leaks_admin_only_descriptors() {
    let v = card(
        &steam_game("aaa"),
        Some(&steam_cache(1, false)),
        "https://s",
        0,
        "2026-W36",
        None,
    );
    let s = format!("{v:?}");
    assert!(!s.contains("cartoon rabbit violence"));
}

#[test]
fn card_ten_screenshots_all_ship_zero_silent_drops() {
    let v = card(
        &steam_game("aaa"),
        Some(&steam_cache(10, false)),
        "https://s",
        0,
        "2026-W36",
        None,
    );
    let embeds = &v.embeds;
    assert_eq!(embeds.len(), MAX_EMBEDS);
    let base = "https://store.steampowered.com/app/570";
    let urls: Vec<&str> = embeds.iter().map(|e| e.url.as_deref().unwrap()).collect();
    assert_eq!(urls.iter().filter(|u| **u == base).count(), 4);
    assert_eq!(urls.iter().filter(|u| **u == format!("{base}#more")).count(), 4);
    assert_eq!(urls.iter().filter(|u| **u == format!("{base}#more2")).count(), 2);
    let images: Vec<&str> = embeds.iter().filter_map(|e| e.image.as_deref()).collect();
    for i in 0..10 {
        assert!(
            images.contains(&format!("https://cdn/s{i}.jpg").as_str()),
            "screenshot {i} missing"
        );
    }
}

#[test]
fn card_two_screenshots_make_one_gallery_and_no_empty_groups() {
    let v = card(
        &steam_game("aaa"),
        Some(&steam_cache(2, false)),
        "https://s",
        0,
        "2026-W36",
        None,
    );
    assert_eq!(v.embeds.len(), 2);
    assert!(v.embeds.iter().all(|e| !e.url.as_deref().unwrap().contains("#more")));
}

#[test]
fn card_truncation_announces_itself_in_the_footer() {
    let mut cache = steam_cache(0, false);
    if let Some(d) = cache.detail.as_mut() {
        d.short_description = "x".repeat(9000);
    }
    let v = card(&steam_game("aaa"), Some(&cache), "https://s", 0, "2026-W36", None);
    assert!(footer(&v.embeds[0]).ends_with("· trimmed to fit"));
}

#[test]
fn card_text_budget_holds_under_hostile_description() {
    let mut cache = steam_cache(10, true);
    if let Some(d) = cache.detail.as_mut() {
        d.short_description = "x".repeat(9000);
    }
    let g = steam_game(&"t".repeat(300));
    let v = card(&g, Some(&cache), "https://s", 0, "2026-W36", None);
    let embeds = &v.embeds;
    assert_eq!(embeds[0].title.as_deref().unwrap().chars().count(), EMBED_TITLE_MAX);
    assert!(embeds[0].description.as_deref().unwrap().contains("[🎬 watch the trailer]"));
    assert!(footer(&embeds[0]).contains("trimmed to fit"));
    let len = |o: &Option<String>| o.as_deref().unwrap_or("").chars().count();
    let total: usize = embeds
        .iter()
        .map(|e| {
            len(&e.title)
                + len(&e.description)
                + len(&e.footer)
                + e.fields
                    .iter()
                    .map(|f| f.name.chars().count() + f.value.chars().count())
                    .sum::<usize>()
        })
        .sum();
    assert!(
        total <= EMBED_TOTAL_TEXT_MAX,
        "combined embed text {total} > {EMBED_TOTAL_TEXT_MAX}"
    );
}

#[test]
fn card_degrades_per_half_when_reviews_or_detail_missing() {
    let mut g = game("g1", "aaa", Some("https://art/x.png"));
    g.steam_app_id = Some(570);
    let mut only_reviews = steam_cache(0, false);
    only_reviews.detail = None;
    let v = card(&g, Some(&only_reviews), "https://s", 0, "2026-W36", None);
    let fields = &v.embeds[0].fields;
    assert!(fields.iter().any(|f| f.name == "reviews"));
    assert!(!fields.iter().any(|f| f.name == "by"));
    assert_eq!(v.embeds[0].image.as_deref(), Some("https://art/x.png"));
    let mut only_detail = steam_cache(0, false);
    only_detail.overall = None;
    only_detail.recent = None;
    let v2 = card(&g, Some(&only_detail), "https://s", 0, "2026-W36", None);
    assert!(!v2.embeds[0].fields.iter().any(|f| f.name == "reviews"));
}

#[test]
fn content_holds_under_hostile_title_and_bundle() {
    let g = game_with_bundle("g1", &"t♡".repeat(300), &"b".repeat(900), None);
    let v = card(
        &g,
        None,
        "https://bendobundles.example",
        0,
        "2026-W36",
        Some(PreviewKind::DryRunPick),
    );
    let content = v.content.as_str();
    assert!(
        content.chars().count() <= CONTENT_MAX,
        "content {} > {}",
        content.chars().count(),
        CONTENT_MAX
    );
    assert!(content.contains("/admin/catalog?q="));
    assert!(!content.contains("%E2%80%A6"));
}

#[test]
fn content_cap_is_enforced_not_asserted() {
    let g = game("g1", "aaa", None);
    let huge_site = format!("https://x/{}", "p".repeat(3000));
    let v = card(&g, None, &huge_site, 0, "2026-W36", None);
    assert!(v.content.chars().count() <= CONTENT_MAX);
    assert!(footer(&v.embeds[0]).contains("trimmed to fit"));
}

#[test]
fn card_thumbnail_dropped_when_it_would_duplicate_image() {
    let g = steam_game("aaa");
    let mut cache = steam_cache(0, false);
    if let Some(d) = cache.detail.as_mut() {
        d.video_thumbnail = None;
        d.header_image = None;
    }
    let mut g2 = g.copy();
    g2.artwork_url = Some("https://art/same.png".into());
    let v = card(&g2, Some(&cache), "https://s", 0, "2026-W36", None);
    assert_eq!(v.embeds[0].image.as_deref(), Some("https://art/same.png"));
    assert!(v.embeds[0].thumbnail.is_none());
}

#[test]
fn equal_titles_are_ordered_by_id_and_promises_are_passed_over() {
    let games = vec![
        game("b", "Same", None),
        game("a", "Same", None),
        game("p", "Alpha", None),
        game("x", "Beta", None),
        game("z", "Áccent", None),
    ];
    let listable = vec![true; 5];
    let pool = eligible(&games, &listable, &vec!["p".into()], &vec!["x".into()]);
    let ids: Vec<&str> = pool.iter().map(|g| g.id.as_str()).collect();
    assert_eq!(ids, vec!["a", "b", "z"]);
}

#[test]
fn an_expired_link_promises_nothing_and_no_promise_is_listed_twice() {
    let mut gone = test_link("gone");
    gone.curated_game_ids = Some(vec!["g1".into()]);
    gone.expires_at = Some(1000);
    let mut live = test_link("live");
    live.curated_game_ids = Some(vec!["g2".into(), "g2".into(), "g3".into()]);
    live.expires_at = Some(1001);
    assert_eq!(active_promises(&vec![gone, live], 1000), vec!["g2", "g3"]);
}

#[test]
fn the_day_decides_the_choice() {
    let games: Vec<Game> = (0..7).map(|i| game(&format!("g{i}"), "t", None)).collect();
    let pool: Vec<&Game> = games.iter().collect();
    for day in [0i64, 1, 2_461_281, -5, i64::MIN] {
        let want = day.unsigned_abs().wrapping_mul(2_654_435_761) as usize % 7;
        assert_eq!(select(&pool, day).unwrap().id, format!("g{want}"));
    }
}

#[test]
fn the_latest_cycle_counts_alone() {
    let ws = vec![wr("a", "g1", 2, true), wr("b", "g2", 5, false), wr("c", "g3", 5, true)];
    assert_eq!(current_cycle(&ws), 5);
    assert_eq!(delivered_ids(&ws, 5), vec!["g3"]);
    assert_eq!(current_cycle(&vec![]), 0);
}

#[test]
fn thousands_are_set_apart() {
    assert_eq!(fmt_thousands(0), "0");
    assert_eq!(fmt_thousands(999), "999");
    assert_eq!(fmt_thousands(1_000), "1,000");
    assert_eq!(fmt_thousands(1_050_007), "1,050,007");
    assert_eq!(fmt_thousands(u64::MAX), "18,446,744,073,709,551,615");
}

#[test]
fn footers_and_titles_read_exactly_so() {
    assert_eq!(
        footer_text(3, "2026-W36", Some(PreviewKind::DryRunPick), true, true),
        "🔍 preview — today's dry pick · the attic whispers · cycle 3 · 2026-W36 · trimmed to fit · trailer link cut"
    );
    assert_eq!(
        footer_text(0, "s", None, false, false),
        "the attic whispers · cycle 0 · s"
    );
    assert_eq!(title_len_after_trunc(&"t".repeat(300)), 256);
    assert_eq!(title_len_after_trunc("abc"), 3);
}

#[test]
fn other_publishers_are_named_and_genres_stand_in_for_tags() {
    let mut cache = steam_cache(0, false);
    if let Some(d) = cache.detail.as_mut() {
        d.publishers = vec!["A".into(), "B".into()];
        d.tags = vec![];
    }
    cache.overall = None;
    let v = card(&steam_game("aaa"), Some(&cache), "https://s", 0, "s", None);
    let got: Vec<(String, String)> =
        v.embeds[0].fields.iter().map(|f| (f.name.clone(), f.value.clone())).collect();
    assert_eq!(
        got,
        vec![
            ("by".to_string(), "Wolfire · A, B".to_string()),
            ("released".to_string(), "Oct 16, 2017".to_string()),
            ("tags".to_string(), "Action".to_string()),
            ("reviews".to_string(), "88% of 42 recent".to_string()),
            ("bundle".to_string(), "Humble Test Bundle (steam)".to_string()),
        ]
    );
}

#[test]
fn a_whisper_reads_exactly_so() {
    let g = game_with_bundle("g1", "Ä b", "HB", None);
    let v = card(&g, None, "https://s", 0, "2026-W36", Some(PreviewKind::NewestDelivered));
    assert_eq!(
        v.content,
        "🔍 *preview — newest delivered, not a new whisper*\n🕯️ *from the attic…*\n**Ä b** has been sleeping in *HB*.\ncut a link for someone ♡ → https://s/admin/catalog?q=%C3%84%20b"
    );
    assert!(v.embeds[0].description.is_none());
}

#[test]
fn more_than_ten_screenshots_stop_at_ten_boxes() {
    let v = card(
        &steam_game("aaa"),
        Some(&steam_cache(14, false)),
        "https://s",
        0,
        "s",
        None,
    );
    assert_eq!(v.embeds.len(), 10);
    let mut no_page = steam_game("aaa");
    no_page.steam_app_id = None;
    let v = card(&no_page, Some(&steam_cache(5, true)), "https://s", 0, "s", None);
    assert_eq!(v.embeds.len(), 1);
    assert_eq!(v.embeds[0].description.as_deref(), Some("a rabbit does kung fu."));
}
