use fulfillment::bell::{cap_content, Markup};
use fulfillment::lantern::{
    compose, eastern_date, eastern_offset, render, replace, room, tick_slot, weekday_name, Friend,
    Input, Lantern, Slot, CHIMNEY_BAR, ROOM_CAP,
};
use fulfillment::model::{Claim, ClaimState, Game, GameStatus, Link};
use fulfillment::reconcile::RECONCILE_STUCK_ALERT_AGE;

const SECOND: i128 = 1_000_000_000;
const MINUTE: i128 = 60 * SECOND;
const HOUR: i128 = 60 * MINUTE;
const DAY: i128 = 24 * HOUR;

fn sanitize(s: String) -> String {
    s.chars().map(|c| if c == '\n' { ' ' } else { c }).collect()
}

fn escape(s: String) -> String {
    let mut out = String::new();
    for c in s.chars() {
        if "\\*_`~|[]()".contains(c) {
            out.push('\\');
        }
        out.push(c);
    }
    out
}

fn at(y: i32, mo: u8, d: u8, h: u8, mi: u8, s: u8) -> i128 {
    time::Date::from_calendar_date(y, time::Month::try_from(mo).unwrap(), d)
        .unwrap()
        .with_hms(h, mi, s)
        .unwrap()
        .assume_utc()
        .unix_timestamp_nanos()
}

fn sun_tick() -> i128 {
    at(2026, 9, 20, 21, 5, 0)
}

fn link(token: &str, created: i128) -> Link {
    Link {
        token: token.into(),
        label: format!("label-{token}"),
        thank_note: None,
        claims_allowed: 1,
        claims_used: 0,
        revoked: false,
        expires_at: None,
        unlock_at: None,
        curated_game_ids: None,
        friend_id: None,
        created_at: created,
    }
}

fn game(id: &str, title: &str) -> Game {
    Game {
        id: id.into(),
        title: title.into(),
        bundle: "b".into(),
        gamekey: "gk".into(),
        machine_name: id.into(),
        key_type: "steam".into(),
        giftable: true,
        hidden: false,
        status: GameStatus::Available,
        claim_id: None,
        artwork_url: None,
        keyindex: 0,
        requires_choice: false,
        steam_app_id: None,
        appid_source: None,
        owned_by_ben: false,
    }
}

fn claim(id: &str, gid: &str, created: i128) -> Claim {
    Claim {
        id: id.into(),
        link_token: "SELF".into(),
        game_id: gid.into(),
        state: ClaimState::Pending,
        created_at: created,
        choice_pre_tpks: None,
    }
}

fn is_open_door(l: &Link, now: i128) -> bool {
    !l.revoked
        && l.claims_used < l.claims_allowed
        && l.expires_at.map_or(true, |e| e > now)
        && l.unlock_at.map_or(true, |u| u <= now)
}

fn light(
    links: &Vec<Link>,
    pending: &Vec<Claim>,
    games: &Vec<Game>,
    friends: &Vec<Friend>,
    now: i128,
    any_delivered: bool,
) -> Option<Lantern> {
    let open: Vec<bool> = links.iter().map(|l| is_open_door(l, now)).collect();
    let markup: Markup<fn(String) -> String, fn(String) -> String> = Markup { sanitize, escape };
    compose(
        &markup,
        &Input {
            links,
            open: &open,
            pending,
            games,
            friends,
            slot: tick_slot(now),
            now,
            any_delivered,
        },
    )
}

#[test]
fn tick_slot_maps_every_instant_to_the_sunday_whose_2100z_boundary_it_follows() {
    assert_eq!(tick_slot(at(2026, 9, 20, 21, 0, 0)).key(), "2026-09-20");
    assert_eq!(tick_slot(at(2026, 9, 20, 21, 5, 0)).key(), "2026-09-20", "the real EDT tick");
    assert_eq!(
        tick_slot(at(2026, 9, 20, 20, 59, 59)).key(),
        "2026-09-13",
        "before the boundary is LAST week — why the tick is 17:05 not 17:00"
    );
    assert_eq!(
        tick_slot(at(2026, 9, 23, 21, 5, 0)).key(),
        "2026-09-20",
        "wednesday → previous sunday"
    );
    assert_eq!(
        tick_slot(at(2026, 11, 1, 22, 5, 0)).key(),
        "2026-11-01",
        "the real EST tick, first Sunday after fall-back"
    );
    assert_eq!(
        tick_slot(at(2026, 10, 25, 21, 5, 0)).next().key(),
        "2026-11-01",
        "EDT tick's next IS the EST tick's slot"
    );
    assert_eq!(
        tick_slot(at(2027, 3, 14, 21, 5, 0)).key(),
        "2027-03-14",
        "first EDT tick after spring-forward"
    );
    let s = tick_slot(sun_tick());
    assert_eq!(s.start(), at(2026, 9, 13, 21, 0, 0));
    assert_eq!(s.end(), at(2026, 9, 20, 21, 0, 0));
    assert!(s.contains(at(2026, 9, 20, 20, 59, 59)) && !s.contains(s.end()));
    assert_eq!(s.next().key(), "2026-09-27");
}

#[test]
fn weekly_buckets_partition_time_exactly_including_the_dst_change_weeks() {
    for (a, b) in [
        (at(2026, 10, 25, 21, 5, 0), at(2026, 11, 1, 22, 5, 0)),
        (at(2027, 3, 7, 22, 5, 0), at(2027, 3, 14, 21, 5, 0)),
    ] {
        let slots = [tick_slot(a), tick_slot(b), tick_slot(b).next()];
        assert_eq!(slots[0].next(), slots[1]);
        let mut t = a;
        while t < b + 3 * HOUR {
            let n = slots.iter().filter(|s| s.contains(t)).count();
            assert_eq!(n, 1, "{t} in {n} buckets");
            t += 17 * MINUTE;
        }
    }
}

#[test]
fn chimney_bar_matches_the_sweep() {
    assert_eq!(CHIMNEY_BAR, RECONCILE_STUCK_ALERT_AGE);
}

#[test]
fn doors_mention_on_the_14d_and_60d_birthdays_and_never_otherwise() {
    let slot = tick_slot(sun_tick());
    let inside = link("in", slot.start() - 14 * DAY + SECOND);
    let at_end = link("end", slot.end() - 14 * DAY);
    let before = link("before", slot.start() - 14 * DAY - SECOND);
    let sixty = link("sixty", slot.start() - 60 * DAY + HOUR);
    let links = vec![inside, at_end, before, sixty];
    let l = light(&links, &vec![], &vec![], &vec![], sun_tick(), true).unwrap();
    let doors = &l.rooms[0];
    assert_eq!(doors.lines.len(), 2, "{:?}", doors.lines);
    assert!(
        doors.lines[0].contains("label-sixty") && doors.lines[0].contains("shall it stay open"),
        "{:?}",
        doors.lines
    );
    assert!(
        doors.lines[1].contains("label-in") && doors.lines[1].contains("two weeks"),
        "{:?}",
        doors.lines
    );
    assert_eq!(l.counts, [2, 0, 0, 0]);
}

#[test]
fn shelf_voice_vs_door_voice() {
    let slot = tick_slot(sun_tick());
    let mut shelf = link("shelf", slot.start() - 14 * DAY + HOUR);
    shelf.claims_allowed = 15;
    let mut door = link("door", slot.start() - 14 * DAY + 2 * HOUR);
    door.claims_allowed = 5;
    door.friend_id = Some("f1".into());
    let links = vec![shelf, door];
    let l = light(&links, &vec![], &vec![], &vec![], sun_tick(), true).unwrap();
    let lines = &l.rooms[0].lines;
    assert!(lines[0].contains("the shelf for") && lines[0].contains("15 slots"), "{lines:?}");
    assert!(lines[1].contains("the door for"), "{lines:?}");
}

#[test]
fn backlog_line_counts_doors_past_sixty_days_only_until_first_delivery() {
    let links = vec![
        link("old1", sun_tick() - 70 * DAY),
        link("old2", sun_tick() - 200 * DAY),
        link("young", sun_tick() - 40 * DAY),
    ];
    let l = light(&links, &vec![], &vec![], &vec![], sun_tick(), false).unwrap();
    assert!(
        l.rooms[0].lines[0].contains("2 doors older than two months"),
        "backlog line is FIRST: {:?}",
        l.rooms[0].lines
    );
    assert!(
        light(&links, &vec![], &vec![], &vec![], sun_tick(), true).is_none(),
        "delivered once ⇒ backlog gone ⇒ quiet"
    );
}

#[test]
fn chimney_lists_pending_past_24h_with_week_counter_and_names_the_action() {
    let games = vec![game("g1", "Soulcalibur *VI*")];
    let pending = vec![
        claim("c1", "g1", sun_tick() - 72 * DAY),
        claim("c2", "g1", sun_tick() - 23 * HOUR),
    ];
    let l = light(&vec![], &pending, &games, &vec![], sun_tick(), true).unwrap();
    let r = l.rooms.iter().find(|r| r.heading.contains("chimney")).unwrap();
    assert_eq!(r.lines.len(), 1, "{:?}", r.lines);
    assert!(
        r.lines[0].contains("week 10")
            && r.lines[0].contains("compensated")
            && r.lines[0].contains("#234")
    );
    assert!(
        r.lines[0].contains(r"Soulcalibur \*VI\*") && !r.lines[0].contains(r"\\*"),
        "escaped exactly once: {}",
        r.lines[0]
    );
}

#[test]
fn wrapped_mentions_seven_days_after_unlock_once() {
    let slot = tick_slot(sun_tick());
    let mut w = link("w", sun_tick() - 100 * DAY);
    w.unlock_at = Some(slot.start() - 7 * DAY + 2 * HOUR);
    let mut early = link("early", sun_tick() - 100 * DAY);
    early.unlock_at = Some(slot.start() - 7 * DAY - 2 * HOUR);
    let links = vec![w, early];
    let l = light(&links, &vec![], &vec![], &vec![], sun_tick(), true).unwrap();
    let r = l.rooms.iter().find(|r| r.heading.contains("wrapped")).unwrap();
    assert_eq!(r.lines.len(), 1, "{:?}", r.lines);
    assert!(r.lines[0].contains("still wrapped a week later"));
    assert!(r.lines[0].contains("label-w") && !r.lines[0].contains("label-early"));
}

#[test]
fn closing_looks_forward_into_the_next_bucket_only() {
    let slot = tick_slot(sun_tick());
    let old = sun_tick() - 100 * DAY;
    let mut last_thu = link("lastthu", old);
    last_thu.expires_at = Some(at(2026, 9, 17, 12, 0, 0));
    let mut next_thu = link("nextthu", old);
    next_thu.expires_at = Some(at(2026, 9, 24, 12, 0, 0));
    let mut tonight = link("tonight", old);
    tonight.expires_at = Some(sun_tick() + 10 * MINUTE);
    let mut far = link("far", old);
    far.expires_at = Some(slot.next().end());
    let links = vec![last_thu, next_thu, tonight, far];
    let l = light(&links, &vec![], &vec![], &vec![], sun_tick(), true).unwrap();
    let r = l.rooms.iter().find(|r| r.heading.contains("closing")).unwrap();
    assert_eq!(r.lines.len(), 2, "{:?}", r.lines);
    assert!(
        r.lines.iter().all(|x| !x.contains("lastthu") && !x.contains("far")),
        "{:?}",
        r.lines
    );
    assert!(r.lines[0].contains("label-tonight") && r.lines[0].contains("closes sunday"));
    assert!(r.lines[1].contains("label-nextthu") && r.lines[1].contains("closes thursday"));
}

#[test]
fn empty_input_is_quiet_and_room_cap_announces_more() {
    assert!(light(&vec![], &vec![], &vec![], &vec![], sun_tick(), true).is_none());
    let slot = tick_slot(sun_tick());
    let links: Vec<Link> = (0..8)
        .map(|i: i32| link(&format!("d{i}"), slot.start() - 14 * DAY + i as i128 * MINUTE))
        .collect();
    let l = light(&links, &vec![], &vec![], &vec![], sun_tick(), true).unwrap();
    assert_eq!(l.rooms[0].lines.len(), ROOM_CAP);
    assert_eq!(l.rooms[0].more, 3);
}

#[test]
fn render_carries_one_deep_link_per_room_no_mentions_and_the_final_cap() {
    let games: Vec<Game> = (0..5).map(|i| game(&format!("g{i}"), &"*".repeat(240))).collect();
    let pending: Vec<Claim> = (0..5)
        .map(|i: i32| {
            claim(&format!("c{i}"), &format!("g{i}"), sun_tick() - (3 + i as i128) * DAY)
        })
        .collect();
    let slot = tick_slot(sun_tick());
    let l = light(&vec![], &pending, &games, &vec![], sun_tick(), true).unwrap();
    let raw: usize = l
        .rooms
        .iter()
        .map(|r| r.lines.iter().map(|x| x.chars().count()).sum::<usize>())
        .sum();
    assert!(raw > 2000, "fixture must overflow the cap to test it: {raw}");
    let v = render(&l, &slot, "https://s", false);
    let c = v.content.as_str();
    assert!(c.starts_with("🏮 the lantern · week of sep 13"), "{c}");
    assert!(c.contains("https://s/admin/ops"));
    assert!(!c.contains("token=") && !c.contains("/l/"), "no bearer capability: {c}");
    let n = c.chars().count();
    assert!((1999..=2000).contains(&n) && !c.ends_with('\\'), "{n}");
    let exact = format!("{}\\*", "y".repeat(1999));
    assert_eq!(cap_content(&exact), "y".repeat(1999));
    assert_eq!(v.allowed_mentions.parse.len(), 0);
    assert!(v.embeds.is_empty());
    let p = render(&l, &slot, "https://s", true);
    assert!(p.content.contains("(preview"));
}

#[test]
fn eastern_dates_render_local_across_dst() {
    assert_eq!(eastern_date(at(2026, 9, 21, 2, 0, 0)), "sep 20");
    assert_eq!(eastern_date(at(2026, 12, 1, 4, 30, 0)), "nov 30");
    assert_eq!(eastern_date(at(2026, 12, 1, 5, 30, 0)), "dec 1");
    assert_eq!(weekday_name(at(2026, 9, 24, 12, 0, 0)), "thursday");
}

#[test]
fn daylight_saving_starts_and_ends_to_the_second() {
    assert_eq!(eastern_offset(at(2026, 3, 8, 6, 59, 59)), 5);
    assert_eq!(eastern_offset(at(2026, 3, 8, 7, 0, 0)), 4);
    assert_eq!(eastern_offset(at(2026, 11, 1, 5, 59, 59)), 4);
    assert_eq!(eastern_offset(at(2026, 11, 1, 6, 0, 0)), 5);
    assert_eq!(eastern_offset(at(1969, 7, 1, 0, 0, 0)), 4);
}

#[test]
fn every_weekday_and_month_has_its_name() {
    let names = ["sunday", "monday", "tuesday", "wednesday", "thursday", "friday", "saturday"];
    for (i, n) in names.iter().enumerate() {
        assert_eq!(weekday_name(at(2026, 9, 20 + i as u8, 12, 0, 0)), *n);
    }
    let months = [
        "jan", "feb", "mar", "apr", "may", "jun", "jul", "aug", "sep", "oct", "nov", "dec",
    ];
    for (i, m) in months.iter().enumerate() {
        assert_eq!(eastern_date(at(2026, i as u8 + 1, 15, 12, 0, 0)), format!("{m} 15"));
    }
}

#[test]
fn a_slot_goes_by_its_date_in_every_year() {
    assert_eq!(Slot { sunday: 1_721_425 }.key(), "0000-12-31");
    assert_eq!(Slot { sunday: 1_721_059 }.key(), "-0001-12-31");
    assert_eq!(Slot { sunday: 2_451_545 }.key(), "2000-01-01");
}

#[test]
fn a_room_without_lines_is_dark() {
    assert!(room("h", vec![]).is_none());
    let r = room("h", vec!["a".into()]).unwrap();
    assert_eq!((r.heading.as_str(), r.lines.len(), r.more), ("h", 1, 0));
}

#[test]
fn friends_and_games_are_called_by_name_or_else_by_what_is_known() {
    let slot = tick_slot(sun_tick());
    let mut known = link("k", slot.start() - 14 * DAY + HOUR);
    known.friend_id = Some("f1".into());
    let mut unknown = link("u", slot.start() - 60 * DAY + HOUR);
    unknown.friend_id = Some("f2".into());
    let friends = vec![Friend { id: "f1".into(), name: "Sam *S*".into() }];
    let pending = vec![claim("c", "orphan", sun_tick() - 2 * DAY)];
    let l = light(&vec![known, unknown], &pending, &vec![], &friends, sun_tick(), true).unwrap();
    assert_eq!(
        l.rooms[0].lines,
        vec![
            "· the door for label-u — open two months, 1 still inside. shall it stay open?"
                .to_string(),
            "· the door for Sam \\*S\\* — open two weeks, nobody's come through yet".to_string(),
        ]
    );
    assert_eq!(
        l.rooms[1].lines,
        vec!["· orphan — a claim started sep 18 never finished (week 0). it clears when the claim is compensated (slot returned, game re-listed) or fulfilled — no admin button for that yet, see #234".to_string()]
    );
    assert_eq!(l.counts, [2, 1, 0, 0]);
}

#[test]
fn a_lantern_reads_exactly_so() {
    let slot = tick_slot(sun_tick());
    let mut closing = link("c", sun_tick() - 100 * DAY);
    closing.expires_at = Some(sun_tick() + DAY);
    closing.claims_allowed = 3;
    let l = light(&vec![closing], &vec![], &vec![], &vec![], sun_tick(), true).unwrap();
    let v = render(&l, &slot, "https://s", true);
    assert_eq!(
        v.content,
        "🏮 the lantern · week of sep 13 (preview — nothing recorded)\n\n⏳ doors closing soon  ↗ https://s/admin/links\n· the door for label-c closes monday with 3 claims left"
    );
}

#[test]
fn replacing_goes_from_the_left_and_not_over_what_was_put_in() {
    assert_eq!(replace("a{site}b{site}", "{site}", "{site}x"), "a{site}xb{site}x");
    assert_eq!(replace("aaa", "aa", "b"), "ba");
    assert_eq!(replace("", "x", "y"), "");
}

#[test]
fn a_sunday_closes_its_own_week_and_a_wednesday_none() {
    let sunday = tick_slot(at(2026, 8, 30, 21, 5, 0));
    assert_eq!(sunday.key(), "2026-08-30");
    assert_eq!(tick_slot(at(2026, 9, 2, 21, 5, 0)), sunday);
    assert_eq!(tick_slot(at(2026, 8, 30, 20, 59, 59)).key(), "2026-08-23");
    assert_eq!(sunday.next().start(), sunday.end());
    assert!(sunday.next().contains(sunday.end()) && !sunday.contains(sunday.end()));
}
