use fulfillment::bell::{
    cap_content, current_week, field, ring, start_ring, thanks_card, unwrap_card, BellEvent,
    LinkNote, Markup, RingAt, RingReply, RingRequest,
};

fn sanitize(s: String) -> String {
    s.chars()
        .map(|c| if c == '\n' || c == '\r' { ' ' } else { c })
        .filter(|c| !c.is_control())
        .collect()
}

fn escape(s: String) -> String {
    let mut out = String::new();
    for c in s.chars() {
        if "\\*_`~|[]()".contains(c) {
            out.push('\\');
        }
        out.push(c);
    }
    out
}

fn markup() -> Markup<fn(String) -> String, fn(String) -> String> {
    Markup { sanitize, escape }
}

fn at(y: i32, mo: u8, d: u8) -> i128 {
    time::Date::from_calendar_date(y, time::Month::try_from(mo).unwrap(), d)
        .unwrap()
        .midnight()
        .assume_utc()
        .unix_timestamp_nanos()
}

#[test]
fn unwrap_card_carries_voice_art_and_deny() {
    let v = unwrap_card(
        &markup(),
        "sam ♡",
        "Celeste",
        Some("https://art/1.png"),
        "https://bendobundles.com",
        false,
    );
    let content = v.content.as_str();
    assert!(content.contains("🔔"));
    assert!(content.contains("sam ♡"));
    assert!(content.contains("Celeste"));
    assert!(content.contains("https://bendobundles.com/admin/links"));
    assert!(!content.contains("monthly pick"));
    assert_eq!(v.allowed_mentions.parse.len(), 0);
    assert_eq!(v.embeds[0].thumbnail.as_deref(), Some("https://art/1.png"));
    assert_eq!(v.embeds[0].title.as_deref(), Some("Celeste"));
}

#[test]
fn unwrap_card_choice_says_so_and_artless_sends_zero_embeds() {
    let v = unwrap_card(&markup(), "sam", "Celeste", None, "https://s", true);
    assert!(v.content.contains("a monthly pick, spent with love"));
    assert!(v.embeds.is_empty());
}

#[test]
fn thanks_card_quotes_the_note_and_denies_mentions() {
    let v = thanks_card(&markup(), "sam", "omg i loved this @everyone", "https://s");
    let content = v.content.as_str();
    assert!(content.contains("💌"));
    assert!(content.contains("omg i loved this @everyone"));
    assert_eq!(v.allowed_mentions.parse.len(), 0);
}

#[test]
fn cards_cap_pathological_inputs() {
    let long = "x".repeat(6000);
    for v in [
        unwrap_card(&markup(), &long, &long, None, &long, false),
        thanks_card(&markup(), &long, &long, &long),
    ] {
        assert!(v.content.chars().count() <= 2000);
    }
}

#[test]
fn thanks_card_escapes_markdown_exactly_once() {
    let v = thanks_card(
        &markup(),
        "sam",
        "[open your gift](https://evil) and a `tick",
        "https://s",
    );
    let c = v.content.as_str();
    assert!(c.contains(r"\[open your gift\]\(https://evil\) and a \`tick"), "{c}");
    assert!(!c.contains(r"\\["), "escaped twice: {c}");
    assert!(c.contains("**sam** says"), "template bold must survive: {c}");
}

#[test]
fn field_caps_before_escaping_so_no_dangling_backslash() {
    assert_eq!(field(&markup(), "ab*cd", 3), "ab\\*");
    let note = "*".repeat(500);
    assert_eq!(field(&markup(), &note, 500).chars().count(), 1000);
}

#[test]
fn cap_content_cuts_at_2000_and_never_strands_a_backslash() {
    let s = format!("{}\\x", "y".repeat(1999));
    assert_eq!(cap_content(&s), "y".repeat(1999));
    assert_eq!(cap_content("short").as_str(), "short");
    let v = unwrap_card(&markup(), "sam", "Celeste", None, &"u".repeat(6000), false);
    let c = v.content.as_str();
    assert!(c.chars().count() <= 2000 && !c.ends_with('\\'));
}

#[test]
fn unwrap_card_title_with_newline_heading_is_flattened() {
    let v = unwrap_card(&markup(), "sam", "Bad\n# Title", None, "https://s", false);
    let c = v.content.as_str();
    assert!(!c.contains("\n# "), "{c}");
    assert!(c.contains("Bad # Title"), "{c}");
}

#[test]
fn cards_read_exactly_so() {
    let v = unwrap_card(&markup(), "sam", "Celeste", None, "https://s", true);
    assert_eq!(
        v.content,
        "🔔 *the attic rings…*\n**sam** just unwrapped **Celeste** (a monthly pick, spent with love) ♡\nhttps://s/admin/links"
    );
    let t = thanks_card(&markup(), "sam", "hi", "https://s");
    assert_eq!(t.content, "💌 *a note came back…*\n**sam** says: “hi”\nhttps://s/admin/links");
    assert!(t.embeds.is_empty());
}

#[test]
fn weeks_are_counted_by_their_thursday() {
    assert_eq!(current_week(at(2026, 9, 20)), "2026-W38");
    assert_eq!(current_week(at(2026, 9, 21)), "2026-W39");
    assert_eq!(current_week(at(2021, 1, 1)), "2020-W53");
    assert_eq!(current_week(at(2019, 12, 30)), "2020-W01");
    assert_eq!(current_week(at(1969, 12, 31)), "1970-W01");
}

fn unwrap_event() -> BellEvent {
    BellEvent::Unwrap {
        link_token: "tok".into(),
        game_id: "g1".into(),
        week: "2026-W38".into(),
        choice: true,
    }
}

#[test]
fn an_unwrapped_gift_rings_and_is_counted() {
    let m = markup();
    let e = unwrap_event();
    let s = start_ring(false);
    assert!(matches!(s.request, RingRequest::Resolve));
    let s = ring(&m, &e, "https://s", s.at, RingReply::Resolved(true));
    assert!(matches!(s.request, RingRequest::ReadLink));
    let note = LinkNote { label: "sam".into(), thank_note: None };
    let s = ring(&m, &e, "https://s", s.at, RingReply::Link(Some(note)));
    assert!(matches!(s.request, RingRequest::ReadGame));
    let game = ("Celeste".to_string(), Some("https://art".to_string()));
    let s = ring(&m, &e, "https://s", s.at, RingReply::Game(Some(game)));
    match s.request {
        RingRequest::Send(card) => {
            assert!(card.content.contains("**sam** just unwrapped **Celeste**"));
            assert!(card.content.contains("monthly pick"));
            assert_eq!(card.embeds.len(), 1);
        }
        _ => panic!("the bell should ring"),
    }
    let s = ring(&m, &e, "https://s", RingAt::Sending, RingReply::Sent(true));
    assert!(matches!(s.request, RingRequest::Count));
    let s = ring(&m, &e, "https://s", RingAt::Sending, RingReply::Sent(false));
    match s.request {
        RingRequest::Tell(m) => assert_eq!(
            m.as_str(),
            "the attic bell failed to ring (unwrap): webhook POST failed — the moment passed unheard; no retry by design"
        ),
        _ => panic!("a bell that was not heard is told of"),
    }
}

#[test]
fn a_note_of_thanks_rings_from_the_store_and_is_not_counted() {
    let m = markup();
    let e = BellEvent::Thanks { link_token: "tok".into() };
    let with = LinkNote { label: "sam".into(), thank_note: Some("hi".into()) };
    let s = ring(&m, &e, "https://s", RingAt::ReadingLink, RingReply::Link(Some(with)));
    assert!(matches!(s.request, RingRequest::Send(_)));
    let without = LinkNote { label: "sam".into(), thank_note: None };
    let s = ring(&m, &e, "https://s", RingAt::ReadingLink, RingReply::Link(Some(without)));
    assert!(matches!(s.request, RingRequest::Done));
    let s = ring(&m, &e, "https://s", RingAt::Sending, RingReply::Sent(true));
    assert!(matches!(s.request, RingRequest::Done));
}

#[test]
fn a_bell_that_is_off_or_knows_nothing_is_silent() {
    let m = markup();
    let e = unwrap_event();
    assert!(matches!(start_ring(true).request, RingRequest::Done));
    let s = ring(&m, &e, "https://s", RingAt::Resolving, RingReply::Resolved(false));
    assert!(matches!(s.request, RingRequest::Done));
    let s = ring(&m, &e, "https://s", RingAt::ReadingLink, RingReply::Link(None));
    assert!(matches!(s.request, RingRequest::Done));
    let waiting = RingAt::ReadingGame { label: "sam".into() };
    let s = ring(&m, &e, "https://s", waiting, RingReply::Game(None));
    assert!(matches!(s.request, RingRequest::Done));
}
