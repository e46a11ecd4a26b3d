use fulfillment::discovery::recent_month_slugs;
use fulfillment::humble::{
    choose_decision, find_new_tpk, gift_decision, reveal_decision, Decision, GiftUrl, HumbleError,
    KeyEntry, Order, RevealedKey, TpkPick,
};
use fulfillment::notify::{
    deliver, ping_msg, recognize, secret_read, secret_value, stuck_claim_refusal, Notify, Refusal,
    SecretRead, PING_PREFIX,
};
use fulfillment::model::{Claim, ClaimState, Game, GameStatus};
use fulfillment::operator_message::OperatorMessage;
use fulfillment::protocol::{FulfillRequest, FulfillResponse};
use fulfillment::steam::{
    merge_fetched_halves, stub_freezes_reviews, DetailFetch, FetchedHalves, RecentReviews,
    ReviewSummary, SteamAppCache, SteamAppDetail,
};
use fulfillment::sync::{
    compute_enrich_deadline, enrich_budget_millis, handle_sync, summary_line,
    STEAM_ENRICH_DEADLINE_MARGIN_MILLIS, SYNC_LAMBDA_TIMEOUT_MILLIS,
};

#[test]
fn ssm_read_failure_is_unresolved_not_disabled() {
    assert!(matches!(Notify::resolve(SecretRead::ReadFailed, false), Notify::Unresolved));
}

#[test]
fn deliberately_off_is_disabled_not_unresolved() {
    assert!(matches!(Notify::resolve(SecretRead::DeliberatelyOff, false), Notify::Disabled));
}

#[test]
fn disable_flag_overrides_a_resolved_secret() {
    assert!(matches!(
        Notify::resolve(SecretRead::Resolved("https://x".into()), true),
        Notify::Disabled
    ));
}

#[test]
fn disable_flag_suppresses_the_unresolved_alarm() {
    assert!(matches!(Notify::resolve(SecretRead::ReadFailed, true), Notify::Disabled));
}

#[test]
fn explicit_disable_flag_also_yields_disabled() {
    assert!(matches!(Notify::resolve(SecretRead::DeliberatelyOff, true), Notify::Disabled));
}

#[test]
fn resolved_value_is_webhook() {
    let r = SecretRead::Resolved("https://x".into());
    assert!(matches!(Notify::resolve(r, false), Notify::Webhook(_)));
}

#[test]
fn resolve_never_halts_the_process() {
    let _ = Notify::resolve(SecretRead::ReadFailed, false);
}

#[test]
fn compute_enrich_deadline_normal_remaining_subtracts_margin() {
    let now_ms: u64 = 1_000_000;
    let deadline_ms = now_ms + 900_000;
    let d = compute_enrich_deadline(deadline_ms, now_ms);
    assert_eq!(d, std::time::Duration::from_secs(720));
}

#[test]
fn compute_enrich_deadline_zero_context_falls_back_to_const() {
    let d = compute_enrich_deadline(0, 1_000_000);
    assert_eq!(
        d,
        std::time::Duration::from_millis(SYNC_LAMBDA_TIMEOUT_MILLIS)
            - std::time::Duration::from_millis(STEAM_ENRICH_DEADLINE_MARGIN_MILLIS)
    );
    assert_eq!(d, std::time::Duration::from_secs(720));
}

#[test]
fn compute_enrich_deadline_remaining_smaller_than_margin_is_zero() {
    let now_ms: u64 = 1_000_000;
    let deadline_ms = now_ms + 60_000;
    let d = compute_enrich_deadline(deadline_ms, now_ms);
    assert_eq!(d, std::time::Duration::ZERO);
}

#[test]
fn a_deadline_that_has_passed_leaves_no_time() {
    assert_eq!(enrich_budget_millis(1, 1_000_000), 0);
    assert_eq!(enrich_budget_millis(1_180_001, 1_000_000), 1);
    assert_eq!(enrich_budget_millis(u64::MAX, 0), u64::MAX - 180_000);
}

#[test]
fn summary_reports_audit_row_failures_only_when_nonzero() {
    assert_eq!(
        summary_line(3, 0, 2, 0),
        "sync ok: 3 written, 0 order(s) failed, 2 audit-pulled"
    );
    assert_eq!(
        summary_line(3, 0, 2, 4),
        "sync ok: 3 written, 0 order(s) failed, 2 audit-pulled, 4 audit row(s) failed"
    );
}

#[test]
fn summary_reports_audit_row_failures_even_when_nothing_was_pulled() {
    assert_eq!(
        summary_line(3, 0, 0, 4),
        "sync ok: 3 written, 0 order(s) failed, 4 audit row(s) failed"
    );
    assert_eq!(summary_line(3, 0, 0, 0), "sync ok: 3 written, 0 order(s) failed");
}

#[test]
fn operator_body_is_prefixed_from_the_const_and_carries_the_message() {
    let m = OperatorMessage::literal("cookie is DEAD");
    let chunks = m.chunks(PING_PREFIX);
    assert_eq!(chunks.len(), 1, "short message should be one chunk: {chunks:?}");
    assert!(chunks[0].starts_with(PING_PREFIX), "prefix missing: {}", chunks[0]);
    assert!(chunks[0].contains("cookie is DEAD"), "message missing: {}", chunks[0]);
}

fn noon(y: i32, mo: u8, d: u8, h: u8) -> i128 {
    time::Date::from_calendar_date(y, time::Month::try_from(mo).unwrap(), d)
        .unwrap()
        .with_hms(h, 0, 0)
        .unwrap()
        .assume_utc()
        .unix_timestamp_nanos()
}

#[test]
fn recent_month_slugs_are_newest_first_and_cross_year() {
    let now = noon(2026, 7, 6, 12);
    assert_eq!(
        recent_month_slugs(now, 4),
        vec!["july-2026", "june-2026", "may-2026", "april-2026"],
    );
    let jan = noon(2026, 1, 15, 0);
    assert_eq!(
        recent_month_slugs(jan, 3),
        vec!["january-2026", "december-2025", "november-2025"],
    );
}

#[test]
fn a_year_of_slugs_has_every_month() {
    let got = recent_month_slugs(noon(2026, 12, 31, 23), 12);
    assert_eq!(got[0], "december-2026");
    assert_eq!(
        got[1..],
        [
            "november-2026",
            "october-2026",
            "september-2026",
            "august-2026",
            "july-2026",
            "june-2026",
            "may-2026",
            "april-2026",
            "march-2026",
            "february-2026",
            "january-2026"
        ]
    );
    assert!(recent_month_slugs(noon(2026, 1, 1, 0), 0).is_empty());
    assert_eq!(
        recent_month_slugs(noon(0, 1, 1, 0), 2),
        vec!["january-0", "december--1"]
    );
}

#[test]
fn login_failure_parks_never_compensates() {
    let outcome = Err(HumbleError::LoginFailed {
        reason: "/processlogin returned status 403 without a goto".into(),
    });
    assert_eq!(gift_decision(&outcome), Decision::Park);
}

#[test]
fn secure_area_step_up_failure_parks_never_compensates() {
    let outcome = Err(HumbleError::SecureAreaStepUpFailed {
        reason: "humble /processlogin returned status 403 without a goto".into(),
    });
    assert_eq!(gift_decision(&outcome), Decision::Park);
}

#[test]
fn choose_decision_ladder_never_compensates() {
    assert_eq!(choose_decision(&Ok(())), Decision::Record);
    assert_eq!(choose_decision(&Err(HumbleError::Unauthorized)), Decision::ParkCookieDead);
    let park_variants = [
        HumbleError::SecureAreaStepUpFailed { reason: "x".into() },
        HumbleError::ChooseFailed { reason: "already chosen".into() },
        HumbleError::RateLimited,
        HumbleError::Api(500),
        HumbleError::LoginFailed { reason: "x".into() },
        HumbleError::AlreadyRedeemed,
        HumbleError::RedeemAuthRejected { status: 403, csrf_minted: false },
        HumbleError::RedeemRefused { msg: "x".into(), code: None },
        HumbleError::AmbiguousRedeem,
        HumbleError::KeyExpired { msg: "x".into(), code: None },
        HumbleError::Network,
        HumbleError::Parse,
        HumbleError::TpkdDictAbsent,
    ];
    for v in park_variants {
        let d = choose_decision(&Err(v));
        assert_eq!(d, Decision::Park, "expected Park");
        assert_ne!(d, Decision::Compensate);
    }
    assert_ne!(choose_decision(&Ok(())), Decision::Compensate);
}

#[test]
fn each_redemption_outcome_means_the_same_for_gift_and_reveal() {
    let errors: Vec<(fn() -> HumbleError, Decision)> = vec![
        (|| HumbleError::AlreadyRedeemed, Decision::Compensate),
        (|| HumbleError::Unauthorized, Decision::ParkCookieDead),
        (|| HumbleError::KeyExpired { msg: "m".into(), code: None }, Decision::DeadKey),
        (|| HumbleError::RedeemRefused { msg: "m".into(), code: None }, Decision::Park),
        (|| HumbleError::RedeemAuthRejected { status: 403, csrf_minted: true }, Decision::Park),
        (|| HumbleError::ChooseFailed { reason: "r".into() }, Decision::Park),
        (|| HumbleError::AmbiguousRedeem, Decision::Park),
        (|| HumbleError::RateLimited, Decision::Park),
        (|| HumbleError::Api(502), Decision::Park),
        (|| HumbleError::Network, Decision::Park),
        (|| HumbleError::Parse, Decision::Park),
        (|| HumbleError::TpkdDictAbsent, Decision::Park),
    ];
    for (make, want) in errors {
        assert_eq!(gift_decision(&Err(make())), want);
        assert_eq!(reveal_decision(&Err(make())), want);
    }
    assert_eq!(gift_decision(&Ok(GiftUrl("u".into()))), Decision::Record);
    assert_eq!(reveal_decision(&Ok(RevealedKey("k".into()))), Decision::Record);
}

fn key(mn: &str, human: &str, redeemed: bool) -> KeyEntry {
    KeyEntry {
        machine_name: mn.into(),
        human_name: human.into(),
        key_type: "steam".into(),
        redeemed,
        expired: false,
        giftable: !redeemed,
        keyindex: 0,
        redeemed_key_val: None,
        steam_app_id: None,
        is_gift: None,
    }
}

fn order(keys: Vec<KeyEntry>) -> Order {
    Order {
        gamekey: "gk".into(),
        bundle_name: "May 2026 Humble Choice".into(),
        product_machine_name: "may_2026_choice".into(),
        keys,
    }
}

#[test]
fn find_new_tpk_diff_and_disambiguation() {
    let o = order(vec![key("old_choice_steam", "Old Game", false)]);
    assert_eq!(
        find_new_tpk(&o, &vec!["old_choice_steam".into()], "New Game"),
        TpkPick::Absent
    );
    let o = order(vec![
        key("old_choice_steam", "Old Game", false),
        key("octo_choice_steam", "Octopath Traveler II", false),
    ]);
    assert_eq!(
        find_new_tpk(&o, &vec!["old_choice_steam".into()], "Octopath Traveler II"),
        TpkPick::Unique(&o.keys[1])
    );
    let o = order(vec![key("a_choice_steam", "Alpha", false), key("b_choice_steam", "Beta", false)]);
    assert_eq!(find_new_tpk(&o, &vec![], "Gamma"), TpkPick::Ambiguous);
    let o = order(vec![key("a_choice_steam", "Alpha", false), key("b_choice_steam", "Beta", false)]);
    assert_eq!(find_new_tpk(&o, &vec![], "beta"), TpkPick::Unique(&o.keys[1]));
}

#[test]
fn two_keys_with_the_title_stay_ambiguous_and_case_beyond_ascii_counts() {
    let o = order(vec![key("a", "Beta", false), key("b", "BETA", false)]);
    assert_eq!(find_new_tpk(&o, &vec![], "beta"), TpkPick::Ambiguous);
    let o = order(vec![key("a", "Äb", false), key("b", "äB", false)]);
    assert_eq!(find_new_tpk(&o, &vec![], "äb"), TpkPick::Unique(&o.keys[1]));
}

fn test_detail(app_id: u32) -> SteamAppDetail {
    SteamAppDetail {
        app_id,
        name: "T".into(),
        developers: vec![],
        publishers: vec![],
        genres: vec![],
        release_date: None,
        short_description: "t".into(),
        header_image: None,
        video_hls_url: None,
        video_thumbnail: None,
        screenshots: vec![],
        tags: vec![],
        content_descriptor_ids: vec![],
        content_notes: None,
    }
}

fn test_review_summary() -> ReviewSummary {
    ReviewSummary {
        desc: "Positive".into(),
        total_positive: 10,
        total_negative: 1,
        total_reviews: 11,
    }
}

fn test_recent_reviews() -> RecentReviews {
    RecentReviews { percent_positive: 90, count: 11 }
}

fn halves(now: i64) -> FetchedHalves {
    FetchedHalves { now, detail: None, reviews: None }
}

#[test]
fn stub_gate_truth_table() {
    let stub = SteamAppCache::empty(570);
    let mut live_cache = SteamAppCache::empty(570);
    live_cache.detail = Some(test_detail(570));
    let fetched_live = Some(DetailFetch::Live(Box::new(test_detail(570))));
    assert!(!stub_freezes_reviews(Some(&stub), &fetched_live));
    assert!(stub_freezes_reviews(Some(&stub), &None));
    assert!(stub_freezes_reviews(Some(&stub), &Some(DetailFetch::Delisted)));
    assert!(!stub_freezes_reviews(Some(&live_cache), &None));
    assert!(!stub_freezes_reviews(None, &None));
}

#[test]
fn merge_ours_newer_detail_applies() {
    let mut cache = SteamAppCache::empty(570);
    cache.fetched_at = 100;
    cache.reviews_fetched_at = 900;
    let ours = FetchedHalves {
        detail: Some(DetailFetch::Live(Box::new(test_detail(570)))),
        ..halves(500)
    };
    merge_fetched_halves(&mut cache, &ours);
    assert!(cache.detail.is_some());
    assert_eq!(cache.fetched_at, 500);
    assert_eq!(cache.reviews_fetched_at, 900, "reviews half untouched");
}

#[test]
fn merge_theirs_newer_detail_survives() {
    let mut cache = SteamAppCache::empty(570);
    cache.detail = Some(test_detail(570));
    cache.fetched_at = 800;
    let ours = FetchedHalves { detail: Some(DetailFetch::Delisted), ..halves(500) };
    merge_fetched_halves(&mut cache, &ours);
    assert!(cache.detail.is_some(), "their live detail survives our stale stub");
    assert_eq!(cache.fetched_at, 800);
    assert_eq!(
        cache.reviews_fetched_at, 0,
        "delisted reviews stamp only applies with the detail half"
    );
}

#[test]
fn merge_theirs_newer_delisted_not_resurrected() {
    let mut cache = SteamAppCache::empty(570);
    cache.detail = None;
    cache.fetched_at = 800;
    cache.reviews_fetched_at = 800;
    let ours = FetchedHalves {
        detail: Some(DetailFetch::Live(Box::new(test_detail(570)))),
        ..halves(500)
    };
    merge_fetched_halves(&mut cache, &ours);
    assert!(cache.detail.is_none(), "our stale Live must not resurrect their newer Delisted");
    assert_eq!(cache.fetched_at, 800);
}

#[test]
fn merge_equal_stamp_ours_wins() {
    let mut cache = SteamAppCache::empty(570);
    cache.fetched_at = 500;
    let ours = FetchedHalves {
        detail: Some(DetailFetch::Live(Box::new(test_detail(570)))),
        ..halves(500)
    };
    merge_fetched_halves(&mut cache, &ours);
    assert!(cache.detail.is_some());
}

#[test]
fn merge_delisted_stamps_both_clocks_forward_only() {
    let mut cache = SteamAppCache::empty(570);
    cache.fetched_at = 100;
    cache.reviews_fetched_at = 100;
    let ours = FetchedHalves { detail: Some(DetailFetch::Delisted), ..halves(500) };
    merge_fetched_halves(&mut cache, &ours);
    assert!(cache.detail.is_none());
    assert_eq!(cache.fetched_at, 500);
    assert_eq!(cache.reviews_fetched_at, 500);

    let mut cache2 = SteamAppCache::empty(571);
    cache2.fetched_at = 100;
    cache2.reviews_fetched_at = 800;
    merge_fetched_halves(
        &mut cache2,
        &FetchedHalves { detail: Some(DetailFetch::Delisted), ..halves(500) },
    );
    assert_eq!(cache2.reviews_fetched_at, 800, "never stamps backward");
}

#[test]
fn merge_reviews_half_independent() {
    let mut cache = SteamAppCache::empty(570);
    cache.detail = Some(test_detail(570));
    cache.fetched_at = 800;
    cache.reviews_fetched_at = 100;
    let ours = FetchedHalves {
        reviews: Some((test_review_summary(), test_recent_reviews())),
        ..halves(500)
    };
    merge_fetched_halves(&mut cache, &ours);
    assert!(cache.overall.is_some());
    assert!(cache.recent.is_some());
    assert_eq!(cache.reviews_fetched_at, 500);
    assert_eq!(cache.fetched_at, 800, "detail half untouched");
}

#[test]
fn merging_the_same_halves_twice_changes_nothing() {
    let ours = FetchedHalves {
        now: 500,
        detail: Some(DetailFetch::Live(Box::new(test_detail(570)))),
        reviews: Some((test_review_summary(), test_recent_reviews())),
    };
    let mut once = SteamAppCache::empty(570);
    merge_fetched_halves(&mut once, &ours);
    let mut twice = SteamAppCache::empty(570);
    merge_fetched_halves(&mut twice, &ours);
    merge_fetched_halves(&mut twice, &ours);
    assert_eq!(once, twice);
}

#[test]
fn secrets_are_told_apart() {
    assert_eq!(secret_read(Ok(Some("v".into()))), SecretRead::Resolved("v".into()));
    assert_eq!(secret_read(Ok(Some("UNSET".into()))), SecretRead::DeliberatelyOff);
    assert_eq!(secret_read(Ok(Some("".into()))), SecretRead::DeliberatelyOff);
    assert_eq!(secret_read(Ok(None)), SecretRead::DeliberatelyOff);
    assert_eq!(secret_read(Err(())), SecretRead::ReadFailed);
    assert_eq!(secret_value(SecretRead::Resolved("v".into())), Some("v".to_string()));
    assert_eq!(secret_value(SecretRead::ReadFailed), None);
    assert_eq!(secret_value(SecretRead::DeliberatelyOff), None);
}

#[test]
fn operator_posts_call_nobody_and_need_an_address() {
    let m = OperatorMessage::literal("hello @everyone");
    let posts = ping_msg(&Notify::Webhook("https://x".into()), &m);
    assert_eq!(posts.len(), 1);
    assert_eq!(posts[0].content, "🐱 bendobundles: hello @everyone");
    assert!(posts[0].allowed_mentions.parse.is_empty());
    assert!(ping_msg(&Notify::Disabled, &m).is_empty());
    assert!(ping_msg(&Notify::Unresolved, &m).is_empty());
}

#[test]
fn a_refused_post_is_a_failed_one() {
    assert_eq!(deliver(Some(204)), 0);
    assert_eq!(deliver(Some(200)), 0);
    assert_eq!(deliver(Some(400)), 1);
    assert_eq!(deliver(Some(429)), 1);
    assert_eq!(deliver(Some(302)), 1);
    assert_eq!(deliver(None), 1);
}

#[test]
fn invocations_are_recognized() {
    assert_eq!(
        recognize(Some(FulfillRequest::ValidateCookie), &None),
        Ok(FulfillRequest::ValidateCookie)
    );
    assert_eq!(recognize(None, &Some("aws.events".into())), Ok(FulfillRequest::Sync));
    assert_eq!(
        recognize(None, &Some("other".into())),
        Err(FulfillResponse::Error { message: "unrecognized invocation payload".into() })
    );
    assert!(recognize(None, &None).is_err());
}

#[test]
fn only_one_sync_runs_at_a_time() {
    assert!(handle_sync(Ok(true)));
    assert!(!handle_sync(Ok(false)));
    assert!(!handle_sync(Err(())));
}

#[test]
fn a_stuck_claim_is_failed_by_hand_only_if_all_is_in_order() {
    let claim = |state: ClaimState, token: &str, game: &str| Claim {
        id: "c1".into(),
        link_token: token.into(),
        game_id: game.into(),
        state,
        created_at: 0,
        choice_pre_tpks: None,
    };
    let game = |claim_id: Option<&str>| Game {
        id: "g".into(),
        title: "T".into(),
        bundle: "B".into(),
        gamekey: "gk".into(),
        machine_name: "mn".into(),
        key_type: "steam".into(),
        giftable: true,
        hidden: false,
        status: GameStatus::Pending,
        claim_id: claim_id.map(String::from),
        artwork_url: None,
        keyindex: 0,
        requires_choice: false,
        steam_app_id: None,
        appid_source: None,
        owned_by_ben: false,
    };
    let pending = ClaimState::Pending;
    let ok = game(Some("c1"));
    assert_eq!(stuck_claim_refusal(&claim(pending, "SELF", "g"), &ok, "c1", "g"), None);
    assert_eq!(
        stuck_claim_refusal(&claim(pending, "tok", "g"), &ok, "c1", "g"),
        Some(Refusal::NotSelf)
    );
    assert_eq!(
        stuck_claim_refusal(&claim(ClaimState::Failed, "SELF", "g"), &ok, "c1", "g"),
        Some(Refusal::NotPending)
    );
    assert_eq!(
        stuck_claim_refusal(&claim(pending, "SELF", "h"), &ok, "c1", "g"),
        Some(Refusal::WrongGame)
    );
    assert_eq!(
        stuck_claim_refusal(&claim(pending, "SELF", "g"), &game(None), "c1", "g"),
        Some(Refusal::NotPointedAt)
    );
    assert!(Refusal::WrongGame.words().contains("wrong patient"));
}
