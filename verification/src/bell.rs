//! The attic bell: a short post when a gift is unwrapped, or when a note of thanks comes back.
use vstd::prelude::*;
use vstd::string::*;
use crate::calendar::{
    day_at, day_of, iso_week_of_day, julian, new_years_follow, padded2,
    the_days_are_counted_one_by_one, thursday_of,
};
use crate::card::{cap, first_chars, no_mentions, Card, Embed};
use crate::discovery::{signed, signed_of};
use crate::model::is_instant;
use crate::operator_message::{fmt_text, part_texts, OperatorMessage, Part};
use crate::text::{chars_of, decimal_of, text_of};

verus! {

/// What the bell rings for.
#[derive(Debug, PartialEq, Eq)]
pub enum BellEvent {
    /// A gift was unwrapped. The week is the one that the ring is counted in.
    Unwrap { link_token: String, game_id: String, week: String, choice: bool },
    /// A note of thanks came back.
    Thanks { link_token: String },
}

/// The longest text that the channel takes.
pub const BELL_CONTENT_MAX: usize = 2000;

pub const BELL_LABEL_MAX: usize = 120;

pub const BELL_TITLE_MAX: usize = 240;

pub const BELL_NOTE_MAX: usize = 500;

// ---- Foreign text -----------------------------------------------------------------------------

/// How foreign text is made fit for a post: `sanitize` makes one harmless line of it, `escape` takes
/// the meaning from characters that would otherwise style it.
pub struct Markup<S, E> {
    pub sanitize: S,
    pub escape: E,
}

impl<S: Fn(String) -> String, E: Fn(String) -> String> Markup<S, E> {
    /// Both can be applied to every text.
    pub open spec fn is_total(self) -> bool {
        &&& forall|s: String| #[trigger] self.sanitize.requires((s,))
        &&& forall|s: String| #[trigger] self.escape.requires((s,))
    }

    /// Whether `r` is the field for `raw`: sanitized, cut to `max` characters, and only then escaped,
    /// so that no cut falls between an escape and what it escapes.
    pub open spec fn is_field(self, raw: Seq<char>, max: nat, r: Seq<char>) -> bool {
        exists|a: String, b: String, c: String, d: String| #[trigger]
            self.sanitize.ensures((a,), b) && #[trigger] self.escape.ensures((c,), d) && a@ == raw
                && c@ == first_chars(b@, max) && d@ == r
    }
}

/// The one way in which a foreign text enters a post.
pub fn field<S: Fn(String) -> String, E: Fn(String) -> String>(
    markup: &Markup<S, E>,
    raw: &str,
    max: usize,
) -> (r: String)
    requires
        markup.is_total(),
    ensures
        markup.is_field(raw@, max as nat, r@),
{
    let a = String::from_str(raw);
    let ghost a0 = a;
    let b = (markup.sanitize)(a);
    let c = cap(b.as_str(), max);
    let ghost c0 = c;
    let d = (markup.escape)(c);
    assert(markup.sanitize.ensures((a0,), b));
    assert(markup.escape.ensures((c0,), d));
    d
}

/// A text without the backslashes that it ends with.
pub open spec fn without_trailing_escapes(s: Seq<char>) -> Seq<char>
    decreases s.len(),
{
    if s.len() > 0 && s.last() == '\\' {
        without_trailing_escapes(s.drop_last())
    } else {
        s
    }
}

/// A finished text as it is sent: cut to what the channel takes, with no escape left dangling.
pub open spec fn capped_content(s: Seq<char>) -> Seq<char> {
    without_trailing_escapes(first_chars(s, BELL_CONTENT_MAX as nat))
}

/// Cuts a finished text to what the channel takes, and leaves no escape dangling.
pub fn cap_content(s: &str) -> (r: String)
    ensures
        r@ == capped_content(s@),
{
    let v = chars_of(cap(s, BELL_CONTENT_MAX).as_str());
    let mut n: usize = v.len();
    assert(v@.take(n as int) =~= v@);
    while n > 0 && v[n - 1] == '\\'
        invariant
            n <= v@.len(),
            without_trailing_escapes(v@.take(n as int)) == without_trailing_escapes(v@),
        decreases n,
    {
        assert(v@.take(n as int).drop_last() =~= v@.take(n - 1));
        n -= 1;
    }
    let r = text_of(&v, 0, n);
    assert(r@ =~= v@.take(n as int));
    r
}

/// What is sent is never too long, and never ends in an escape. A short text without one is sent as
/// it is.
pub proof fn capped_content_is_safe(s: Seq<char>)
    ensures
        capped_content(s).len() <= BELL_CONTENT_MAX,
        capped_content(s).len() > 0 ==> capped_content(s).last() != '\\',
        s.len() <= BELL_CONTENT_MAX && (s.len() > 0 ==> s.last() != '\\') ==> capped_content(s) == s,
{
    trailing_escapes_go(first_chars(s, BELL_CONTENT_MAX as nat));
}

proof fn trailing_escapes_go(s: Seq<char>)
    ensures
        without_trailing_escapes(s).len() <= s.len(),
        without_trailing_escapes(s).len() > 0 ==> without_trailing_escapes(s).last() != '\\',
    decreases s.len(),
{
    if s.len() > 0 && s.last() == '\\' {
        trailing_escapes_go(s.drop_last());
    }
}

// ---- The two posts ----------------------------------------------------------------------------

/// What is said when a gift is unwrapped.
pub open spec fn unwrap_text(label: Seq<char>, title: Seq<char>, site: Seq<char>, choice: bool) -> Seq<
    char,
> {
    "🔔 *the attic rings…*\n**"@ + label + "** just unwrapped **"@ + title + "**"@ + (if choice {
        " (a monthly pick, spent with love)"@
    } else {
        ""@
    }) + " ♡\n"@ + site + "/admin/links"@
}

/// Whether `e` shows a game's title and small picture, and nothing else.
pub open spec fn is_art_embed(e: Embed, title: Seq<char>, art: Seq<char>) -> bool {
    &&& e.title matches Some(t) && t@ == first_chars(title, BELL_TITLE_MAX as nat)
    &&& e.thumbnail matches Some(u) && u@ == art
    &&& e.url is None
    &&& e.description is None
    &&& e.fields@.len() == 0
    &&& e.image is None
    &&& e.footer is None
}

/// The post for a gift that was unwrapped. Without artwork there is no box at all.
pub fn unwrap_card<S: Fn(String) -> String, E: Fn(String) -> String>(
    markup: &Markup<S, E>,
    label: &str,
    game_title: &str,
    artwork_url: Option<&str>,
    site_url: &str,
    choice: bool,
) -> (r: Card)
    requires
        markup.is_total(),
    ensures
        exists|l: Seq<char>, t: Seq<char>|
            markup.is_field(label@, BELL_LABEL_MAX as nat, l) && markup.is_field(
                game_title@,
                BELL_TITLE_MAX as nat,
                t,
            ) && r.content@ == capped_content(#[trigger] unwrap_text(l, t, site_url@, choice)),
        match artwork_url {
            Some(url) => r.embeds@.len() == 1 && is_art_embed(r.embeds@[0], game_title@, url@),
            None => r.embeds@.len() == 0,
        },
        r.calls_nobody(),
{
    let l = field(markup, label, BELL_LABEL_MAX);
    let t = field(markup, game_title, BELL_TITLE_MAX);
    let mut content = String::from_str("🔔 *the attic rings…*\n**");
    content.append(l.as_str());
    content.append("** just unwrapped **");
    content.append(t.as_str());
    content.append("**");
    content.append(
        if choice {
            " (a monthly pick, spent with love)"
        } else {
            ""
        },
    );
    content.append(" ♡\n");
    content.append(site_url);
    content.append("/admin/links");
    assert(content@ == unwrap_text(l@, t@, site_url@, choice));
    let mut embeds: Vec<Embed> = Vec::new();
    if let Some(url) = artwork_url {
        embeds.push(
            Embed {
                title: Some(cap(game_title, BELL_TITLE_MAX)),
                url: None,
                description: None,
                fields: Vec::new(),
                image: None,
                thumbnail: Some(String::from_str(url)),
                footer: None,
            },
        );
    }
    Card { content: cap_content(content.as_str()), embeds, allowed_mentions: no_mentions() }
}

/// What is said when a note of thanks comes back.
pub open spec fn thanks_text(label: Seq<char>, note: Seq<char>, site: Seq<char>) -> Seq<char> {
    "💌 *a note came back…*\n**"@ + label + "** says: “"@ + note + "”\n"@ + site
        + "/admin/links"@
}

/// The post for a note of thanks.
pub fn thanks_card<S: Fn(String) -> String, E: Fn(String) -> String>(
    markup: &Markup<S, E>,
    label: &str,
    note: &str,
    site_url: &str,
) -> (r: Card)
    requires
        markup.is_total(),
    ensures
        exists|l: Seq<char>, n: Seq<char>|
            markup.is_field(label@, BELL_LABEL_MAX as nat, l) && markup.is_field(
                note@,
                BELL_NOTE_MAX as nat,
                n,
            ) && r.content@ == capped_content(#[trigger] thanks_text(l, n, site_url@)),
        r.embeds@.len() == 0,
        r.calls_nobody(),
{
    let l = field(markup, label, BELL_LABEL_MAX);
    let n = field(markup, note, BELL_NOTE_MAX);
    let mut content = String::from_str("💌 *a note came back…*\n**");
    content.append(l.as_str());
    content.append("** says: “");
    content.append(n.as_str());
    content.append("”\n");
    content.append(site_url);
    content.append("/admin/links");
    assert(content@ == thanks_text(l@, n@, site_url@));
    Card {
        content: cap_content(content.as_str()),
        embeds: Vec::new(),
        allowed_mentions: no_mentions(),
    }
}

// ---- Weeks ------------------------------------------------------------------------------------

/// The name of an ISO week.
pub open spec fn week_text(year: int, week: nat) -> Seq<char> {
    signed(year) + "-W"@ + padded2(week)
}

/// Whether a day falls in the ISO week: the year is that of the week's Thursday, and the week is
/// counted by it.
pub open spec fn is_iso_week(day: int, year: int, week: int) -> bool {
    &&& julian(year, 1, 1) <= thursday_of(day) < julian(year + 1, 1, 1)
    &&& week == (thursday_of(day) - julian(year, 1, 1)) / 7 + 1
}

/// The name of the week that a point in time is counted in.
pub fn current_week(now: i128) -> (r: String)
    requires
        is_instant(now),
    ensures
        exists|y: int, w: int| #[trigger]
            is_iso_week(day_at(now as int), y, w) && r@ == week_text(y, w as nat),
{
    let (y, w) = iso_week_of_day(day_of(now));
    assert(is_iso_week(day_at(now as int), y as int, w as int));
    let mut out = signed_of(y as i64);
    out.append("-W");
    if w < 10 {
        out.append("0");
    }
    out.append(decimal_of(w as u64).as_str());
    assert(out@ =~= week_text(y as int, w as nat));
    out
}

/// The days of one week, Monday to Sunday, are all counted in the same week, across the turn of the
/// year too.
pub proof fn a_week_has_one_name(day: int, day2: int, year: int, week: int, year2: int, week2: int)
    requires
        day - day % 7 == day2 - day2 % 7,
        is_iso_week(day, year, week),
        is_iso_week(day2, year2, week2),
    ensures
        year == year2,
        week == week2,
{
    if year < year2 {
        new_years_follow(year, year2);
    } else if year2 < year {
        new_years_follow(year2, year);
    }
}

// ---- Ringing ----------------------------------------------------------------------------------

/// What the operator reads of a bell that was not heard.
pub const BELL_FAILED: &'static str =
    "the attic bell failed to ring ({}): webhook POST failed — the moment passed unheard; no retry by design";

/// Where a ring stands: what it waits for.
pub enum RingAt {
    Resolving,
    ReadingLink,
    ReadingGame { label: String },
    Sending,
    Over,
}

/// What a ring requests next.
pub enum RingRequest {
    /// Is there a channel to ring in?
    Resolve,
    ReadLink,
    ReadGame,
    Send(Card),
    /// Count the ring in the event's week.
    Count,
    Tell(OperatorMessage),
    /// The ring is over. Whatever went wrong on the way is not reported back.
    Done,
}

/// The reply to a request. What could not be read is not there.
pub enum RingReply {
    Resolved(bool),
    Link(Option<LinkNote>),
    /// The game's title and artwork.
    Game(Option<(String, Option<String>)>),
    Sent(bool),
}

/// What a ring needs of a link: its label, and the note of thanks as it is stored.
pub struct LinkNote {
    pub label: String,
    pub thank_note: Option<String>,
}

/// One turn of a ring.
pub struct RingStep {
    pub at: RingAt,
    pub request: RingRequest,
}

impl RingAt {
    /// Whether `reply` is a reply to what the ring waits for.
    pub open spec fn expects(self, reply: RingReply) -> bool {
        match self {
            RingAt::Resolving => reply is Resolved,
            RingAt::ReadingLink => reply is Link,
            RingAt::ReadingGame { .. } => reply is Game,
            RingAt::Sending => reply is Sent,
            RingAt::Over => false,
        }
    }
}

impl RingStep {
    pub open spec fn is_silent(self) -> bool {
        self.at is Over && self.request is Done
    }

    pub open spec fn sends(self) -> bool {
        self.at is Sending && self.request is Send
    }
}

/// The first turn of a ring: nothing at all where the bell is switched off.
pub fn start_ring(disabled: bool) -> (out: RingStep)
    ensures
        if disabled {
            out.is_silent()
        } else {
            out.at is Resolving && out.request is Resolve
        },
{
    if disabled {
        RingStep { at: RingAt::Over, request: RingRequest::Done }
    } else {
        RingStep { at: RingAt::Resolving, request: RingRequest::Resolve }
    }
}

/// Whether `c` is the post for a gift that was unwrapped.
pub open spec fn is_unwrap_card<S: Fn(String) -> String, E: Fn(String) -> String>(
    c: Card,
    markup: Markup<S, E>,
    label: Seq<char>,
    title: Seq<char>,
    art: Option<String>,
    site: Seq<char>,
    choice: bool,
) -> bool {
    &&& exists|l: Seq<char>, t: Seq<char>|
        markup.is_field(label, BELL_LABEL_MAX as nat, l) && markup.is_field(
            title,
            BELL_TITLE_MAX as nat,
            t,
        ) && c.content@ == capped_content(#[trigger] unwrap_text(l, t, site, choice))
    &&& match art {
        Some(url) => c.embeds@.len() == 1 && is_art_embed(c.embeds@[0], title, url@),
        None => c.embeds@.len() == 0,
    }
    &&& c.calls_nobody()
}

/// Whether `c` is the post for a note of thanks.
pub open spec fn is_thanks_card<S: Fn(String) -> String, E: Fn(String) -> String>(
    c: Card,
    markup: Markup<S, E>,
    label: Seq<char>,
    note: Seq<char>,
    site: Seq<char>,
) -> bool {
    &&& exists|l: Seq<char>, n: Seq<char>|
        markup.is_field(label, BELL_LABEL_MAX as nat, l) && markup.is_field(
            note,
            BELL_NOTE_MAX as nat,
            n,
        ) && c.content@ == capped_content(#[trigger] thanks_text(l, n, site))
    &&& c.embeds@.len() == 0
    &&& c.calls_nobody()
}

/// Whether `out` is the turn that follows a reply. What cannot be read leaves the bell silent. A ring
/// that was heard is counted for an unwrapped gift alone; one that was not is told of, and not tried
/// again.
pub open spec fn ring_follows<S: Fn(String) -> String, E: Fn(String) -> String>(
    out: RingStep,
    markup: Markup<S, E>,
    event: BellEvent,
    site: Seq<char>,
    at: RingAt,
    reply: RingReply,
) -> bool {
    match (at, reply) {
        (RingAt::Resolving, RingReply::Resolved(there)) => if there {
            out.at is ReadingLink && out.request is ReadLink
        } else {
            out.is_silent()
        },
        (RingAt::ReadingLink, RingReply::Link(link)) => match (event, link) {
            (_, None) => out.is_silent(),
            (BellEvent::Unwrap { .. }, Some(l)) => out.at == (RingAt::ReadingGame {
                label: l.label,
            }) && out.request is ReadGame,
            (BellEvent::Thanks { .. }, Some(l)) => match l.thank_note {
                None => out.is_silent(),
                Some(note) => out.sends() && is_thanks_card(
                    out.request->Send_0,
                    markup,
                    l.label@,
                    note@,
                    site,
                ),
            },
        },
        (RingAt::ReadingGame { label }, RingReply::Game(game)) => match game {
            None => out.is_silent(),
            Some((title, art)) => out.sends() && is_unwrap_card(
                out.request->Send_0,
                markup,
                label@,
                title@,
                art,
                site,
                event is Unwrap && event->choice,
            ),
        },
        (RingAt::Sending, RingReply::Sent(heard)) => {
            &&& out.at is Over
            &&& if heard {
                if event is Unwrap {
                    out.request is Count
                } else {
                    out.request is Done
                }
            } else {
                out.request matches RingRequest::Tell(m) && m@ == fmt_text(
                    BELL_FAILED@,
                    seq![
                        if event is Unwrap {
                            "unwrap"@
                        } else {
                            "thanks"@
                        },
                    ],
                )
            }
        },
        _ => false,
    }
}

fn silent() -> (out: RingStep)
    ensures
        out.is_silent(),
{
    RingStep { at: RingAt::Over, request: RingRequest::Done }
}

/// The turn of a ring that follows a reply.
pub fn ring<S: Fn(String) -> String, E: Fn(String) -> String>(
    markup: &Markup<S, E>,
    event: &BellEvent,
    site_url: &str,
    at: RingAt,
    reply: RingReply,
) -> (out: RingStep)
    requires
        markup.is_total(),
        at.expects(reply),
    ensures
        ring_follows(out, *markup, *event, site_url@, at, reply),
{
    match (at, reply) {
        (RingAt::Resolving, RingReply::Resolved(there)) => if there {
            RingStep { at: RingAt::ReadingLink, request: RingRequest::ReadLink }
        } else {
            silent()
        },
        (RingAt::ReadingLink, RingReply::Link(link)) => match link {
            None => silent(),
            Some(l) => match event {
                BellEvent::Unwrap { .. } => RingStep {
                    at: RingAt::ReadingGame { label: l.label },
                    request: RingRequest::ReadGame,
                },
                BellEvent::Thanks { .. } => match l.thank_note {
                    None => silent(),
                    Some(note) => RingStep {
                        at: RingAt::Sending,
                        request: RingRequest::Send(
                            thanks_card(markup, l.label.as_str(), note.as_str(), site_url),
                        ),
                    },
                },
            },
        },
        (RingAt::ReadingGame { label }, RingReply::Game(game)) => match game {
            None => silent(),
            Some((title, art)) => {
                let choice: bool = match event {
                    BellEvent::Unwrap { choice, .. } => *choice,
                    BellEvent::Thanks { .. } => false,
                };
                let card = match &art {
                    Some(url) => unwrap_card(
                        markup,
                        label.as_str(),
                        title.as_str(),
                        Some(url.as_str()),
                        site_url,
                        choice,
                    ),
                    None => unwrap_card(
                        markup,
                        label.as_str(),
                        title.as_str(),
                        None,
                        site_url,
                        choice,
                    ),
                };
                RingStep { at: RingAt::Sending, request: RingRequest::Send(card) }
            },
        },
        (RingAt::Sending, RingReply::Sent(heard)) => {
            let unwrap: bool = matches!(event, BellEvent::Unwrap { .. });
            if heard {
                if unwrap {
                    RingStep { at: RingAt::Over, request: RingRequest::Count }
                } else {
                    silent()
                }
            } else {
                let what = if unwrap {
                    "unwrap"
                } else {
                    "thanks"
                };
                let parts = [Part::Id(what)];
                assert(part_texts(parts@) =~= seq![what@]);
                RingStep {
                    at: RingAt::Over,
                    request: RingRequest::Tell(OperatorMessage::fmt(BELL_FAILED, &parts)),
                }
            }
        },
        _ => {
            assert(false);
            silent()
        },
    }
}

// ---- What is rung, and when -------------------------------------------------------------------

/// What is sent is the start of the text: nothing but trailing escapes goes from what the channel takes.
pub proof fn what_is_sent_starts_the_text(s: Seq<char>)
    ensures
        ({
            let r = capped_content(s);
            let n = if s.len() <= 2000 {
                s.len() as int
            } else {
                2000
            };
            &&& r.len() <= n
            &&& r == s.take(r.len() as int)
            &&& forall|i: int| r.len() <= i < n ==> #[trigger] s[i] == '\\'
        }),
{
    let f = first_chars(s, BELL_CONTENT_MAX as nat);
    only_escapes_go(f);
    let r = capped_content(s);
    assert(r =~= s.take(r.len() as int));
    assert forall|i: int| r.len() <= i < f.len() implies #[trigger] s[i] == '\\' by {
        assert(f[i] == s[i]);
    }
}

proof fn only_escapes_go(s: Seq<char>)
    ensures
        ({
            let r = without_trailing_escapes(s);
            &&& r.len() <= s.len()
            &&& r == s.take(r.len() as int)
            &&& forall|i: int| r.len() <= i < s.len() ==> #[trigger] s[i] == '\\'
        }),
    decreases s.len(),
{
    if s.len() > 0 && s.last() == '\\' {
        let d = s.drop_last();
        only_escapes_go(d);
        let r = without_trailing_escapes(s);
        assert(d.take(r.len() as int) =~= s.take(r.len() as int));
        assert forall|i: int| r.len() <= i < s.len() implies #[trigger] s[i] == '\\' by {
            if i < d.len() {
                assert(d[i] == s[i]);
            }
        }
    } else {
        assert(s.take(s.len() as int) =~= s);
    }
}

/// A gift that was a monthly pick is told of as one, and no other is; who unwrapped it comes first, then
/// what.
pub proof fn a_pick_is_told_of_as_one(label: Seq<char>, title: Seq<char>, site: Seq<char>)
    ensures
        unwrap_text(label, title, site, false) == "🔔 *the attic rings…*\n**"@ + label
            + "** just unwrapped **"@ + title + "** ♡\n"@ + site + "/admin/links"@,
        unwrap_text(label, title, site, true) == "🔔 *the attic rings…*\n**"@ + label
            + "** just unwrapped **"@ + title + "**"@ + " (a monthly pick, spent with love)"@
            + " ♡\n"@ + site + "/admin/links"@,
{
    reveal_strlit("");
    reveal_strlit("**");
    reveal_strlit(" ♡\n");
    reveal_strlit("** ♡\n");
    let head = "🔔 *the attic rings…*\n**"@ + label + "** just unwrapped **"@ + title;
    assert("**"@ + ""@ + " ♡\n"@ =~= "** ♡\n"@);
    assert(unwrap_text(label, title, site, false) =~= head + ("**"@ + ""@ + " ♡\n"@) + site
        + "/admin/links"@);
}

proof fn a_year_has_a_year_of_days(year: int)
    ensures
        365 <= julian(year + 1, 1, 1) - julian(year, 1, 1) <= 366,
{
    the_days_are_counted_one_by_one(year, 12, 31);
    assert(julian(year, 12, 31) - julian(year, 1, 1) == 364 || julian(year, 12, 31) - julian(year, 1, 1)
        == 365);
}

proof fn weeks_by_thursdays(first: int, next: int, fourth: int, day: int)
    requires
        365 <= next - first <= 366,
        fourth == first + 3,
    ensures
        first <= thursday_of(fourth) < next,
        (thursday_of(fourth) - first) / 7 == 0,
        thursday_of(day + 7) == thursday_of(day) + 7,
        (thursday_of(day) + 7 - first) / 7 == (thursday_of(day) - first) / 7 + 1,
        first <= thursday_of(day) < next ==> 0 <= (thursday_of(day) - first) / 7 <= 52,
{
}

/// The fourth of January is always in the first week of its year, and a week later is the next week
/// unless a year has begun.
pub proof fn weeks_are_counted_from_the_fourth_of_january(year: int, day: int, week: int)
    ensures
        is_iso_week(julian(year, 1, 4), year, 1),
        is_iso_week(day, year, week) && thursday_of(day) + 7 < julian(year + 1, 1, 1) ==> is_iso_week(
            day + 7,
            year,
            week + 1,
        ),
        is_iso_week(day, year, week) ==> 1 <= week <= 53,
{
    a_year_has_a_year_of_days(year);
    assert(julian(year, 1, 4) == julian(year, 1, 1) + 3);
    weeks_by_thursdays(
        julian(year, 1, 1),
        julian(year + 1, 1, 1),
        julian(year, 1, 4),
        day,
    );
}

/// A ring goes its way: channel, link, and for an unwrapped gift the game; where one of them is not to
/// be had it is silent. What is sent speaks of what was read.
pub proof fn a_ring_says_what_it_read<S: Fn(String) -> String, E: Fn(String) -> String>(
    out: RingStep,
    markup: Markup<S, E>,
    event: BellEvent,
    site: Seq<char>,
    at: RingAt,
    reply: RingReply,
    pick: bool,
)
    requires
        ring_follows(out, markup, event, site, at, reply),
        pick == (event matches BellEvent::Unwrap { choice, .. } && choice),
    ensures
        reply matches RingReply::Resolved(there) ==> (there ==> out.request is ReadLink) && (!there
            ==> out.request is Done),
        reply matches RingReply::Link(None) ==> out.request is Done,
        reply matches RingReply::Game(None) ==> out.request is Done,
        reply matches RingReply::Link(Some(l)) ==> (event is Unwrap ==> out.request is ReadGame
            && out.at == (RingAt::ReadingGame { label: l.label })) && (event is Thanks
            && l.thank_note is None ==> out.request is Done) && (event is Thanks
            && l.thank_note is Some ==> (out.request matches RingRequest::Send(c)
            && c.embeds@.len() == 0 && exists|who: Seq<char>, note: Seq<char>|
            markup.is_field(l.label@, 120, who) && markup.is_field((l.thank_note->0)@, 500, note)
                && c.content@ == capped_content(#[trigger] thanks_text(who, note, site)))),
        reply matches RingReply::Game(Some(g)) ==> (at matches RingAt::ReadingGame { label } && (
        out.request matches RingRequest::Send(c) && (g.1 is None ==> c.embeds@.len() == 0) && (g.1
            is Some ==> c.embeds@.len() == 1) && exists|who: Seq<char>, what: Seq<char>|
            markup.is_field(label@, 120, who) && markup.is_field(g.0@, 240, what) && c.content@
                == capped_content(
                #[trigger] unwrap_text(who, what, site, pick),
            ))),
{
}

/// A ring that was heard is counted if it was for an unwrapped gift; one that was not is told of by what
/// it was for. Either way it is over.
pub proof fn only_unwrapped_gifts_are_counted<S: Fn(String) -> String, E: Fn(String) -> String>(
    out: RingStep,
    markup: Markup<S, E>,
    event: BellEvent,
    site: Seq<char>,
    heard: bool,
)
    requires
        ring_follows(out, markup, event, site, RingAt::Sending, RingReply::Sent(heard)),
    ensures
        out.at is Over,
        heard && event is Unwrap ==> out.request is Count,
        heard && event is Thanks ==> out.request is Done,
        !heard && event is Unwrap ==> (out.request matches RingRequest::Tell(m) && m@ == fmt_text(
            BELL_FAILED@,
            seq!["unwrap"@],
        )),
        !heard && event is Thanks ==> (out.request matches RingRequest::Tell(m) && m@ == fmt_text(
            BELL_FAILED@,
            seq!["thanks"@],
        )),
{
}

} // verus!
