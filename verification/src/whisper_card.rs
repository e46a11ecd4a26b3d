//! The post that a whisper is made with: a line of text, and a card with all that is known of the
//! game, cut to what the channel takes. Whatever is cut, the foot of the card says so.
use vstd::prelude::*;
use vstd::string::*;
use vstd::utf8::encode_utf8;
use crate::card::{first_chars, cap, no_mentions, Card, Embed, EmbedField};
use crate::model::Game;
use crate::steam::{
    shot_views, CacheView, DetailView, RecentReviews, ReviewSummary, SteamAppCache, SteamAppDetail,
};
use crate::text::{chars_of, decimal, decimal_of, opt_view, text_of, views};

verus! {

// ---- What the channel takes -------------------------------------------------------------------

pub const EMBED_TITLE_MAX: usize = 256;

pub const EMBED_DESC_MAX: usize = 4096;

pub const EMBED_FIELD_VALUE_MAX: usize = 1024;

pub const EMBED_TOTAL_TEXT_MAX: usize = 6000;

pub const MAX_EMBEDS: usize = 10;

/// So many boxes with one address are shown as one gallery.
pub const GALLERY_GROUP: usize = 4;

pub const CONTENT_MAX: usize = 2000;

pub const CONTENT_TITLE_MAX: usize = 180;

pub const CONTENT_BUNDLE_MAX: usize = 180;

pub const CONTENT_QUERY_MAX: usize = 120;

// ---- Small texts ------------------------------------------------------------------------------

/// A text cut to `max` characters, the last of which then says that it was cut.
pub open spec fn cut(s: Seq<char>, max: nat) -> Seq<char> {
    if s.len() <= max {
        s
    } else {
        s.take(if max == 0 {
            0
        } else {
            max - 1
        }).push('…')
    }
}

/// Cuts a text to `max` characters, the last of which then says that it was cut.
pub fn trunc(s: &str, max: usize) -> (r: String)
    ensures
        r@ == cut(s@, max as nat),
{
    let v = chars_of(s);
    if v.len() <= max {
        return String::from_str(s);
    }
    let n: usize = if max == 0 {
        0
    } else {
        max - 1
    };
    let mut r = text_of(&v, 0, n);
    assert(r@ =~= s@.take(n as int));
    r.push('…');
    r
}

/// A text that was cut is as long as it may be, and one that fits is not cut.
pub proof fn a_cut_text_fits(s: Seq<char>, max: nat)
    ensures
        max > 0 ==> cut(s, max).len() <= max,
        s.len() <= max ==> cut(s, max) == s,
        max > 0 && s.len() > max ==> cut(s, max).len() == max && cut(s, max) != s,
{
}

/// The texts with a separator between them.
pub open spec fn joined_by(parts: Seq<Seq<char>>, sep: Seq<char>) -> Seq<char>
    decreases parts.len(),
{
    if parts.len() == 0 {
        Seq::empty()
    } else if parts.len() == 1 {
        parts[0]
    } else {
        joined_by(parts.drop_last(), sep) + sep + parts.last()
    }
}

/// The texts with a separator between them.
pub fn join(parts: &Vec<String>, sep: &str) -> (r: String)
    ensures
        r@ == joined_by(views(parts@), sep@),
{
    let mut out = String::new();
    let ghost all = views(parts@);
    for i in 0..parts.len()
        invariant
            all == views(parts@),
            out@ == joined_by(all.take(i as int), sep@),
    {
        let ghost part = all.take(i + 1);
        assert(part.drop_last() =~= all.take(i as int));
        assert(part.last() == parts@[i as int]@);
        if i > 0 {
            out.append(sep);
        }
        out.append(parts[i].as_str());
        assert(out@ =~= joined_by(part, sep@));
    }
    assert(all.take(parts@.len() as int) =~= all);
    out
}

/// A number below a thousand, of three digits.
pub open spec fn three_digits(n: nat) -> Seq<char> {
    if n < 10 {
        "00"@ + decimal(n)
    } else if n < 100 {
        "0"@ + decimal(n)
    } else {
        decimal(n)
    }
}

/// A number with commas between its thousands.
pub open spec fn with_commas(n: nat) -> Seq<char>
    decreases n,
{
    if n < 1000 {
        decimal(n)
    } else {
        with_commas(n / 1000) + ","@ + three_digits(n % 1000)
    }
}

/// A number with commas between its thousands.
pub fn fmt_thousands(n: u64) -> (r: String)
    ensures
        r@ == with_commas(n as nat),
    decreases n,
{
    if n < 1000 {
        return decimal_of(n);
    }
    let rest: u64 = n % 1000;
    let mut out = fmt_thousands(n / 1000).concat(",");
    let ghost head = out@;
    if rest < 10 {
        out.append("00");
    } else if rest < 100 {
        out.append("0");
    }
    out.append(decimal_of(rest).as_str());
    assert(out@ =~= head + three_digits(rest as nat));
    out
}

// ---- Addresses --------------------------------------------------------------------------------

/// Whether a byte stands for itself in an address.
pub open spec fn is_unreserved(b: u8) -> bool {
    (48 <= b && b <= 57) || (65 <= b && b <= 90) || (97 <= b && b <= 122) || b == 45 || b == 46 || b
        == 95 || b == 126
}

/// A hexadecimal digit, in upper case.
pub open spec fn hex_digit(d: int) -> char {
    if d < 10 {
        (48 + d) as u8 as char
    } else {
        (55 + d) as u8 as char
    }
}

/// Bytes with all but letters, digits, `-`, `.`, `_` and `~` replaced by a percent sign and two
/// hexadecimal digits.
pub open spec fn percent_encoded(bytes: Seq<u8>) -> Seq<char>
    decreases bytes.len(),
{
    if bytes.len() == 0 {
        Seq::empty()
    } else {
        let b = bytes.last();
        percent_encoded(bytes.drop_last()) + if is_unreserved(b) {
            seq![b as char]
        } else {
            seq!['%', hex_digit(b as int / 16), hex_digit(b as int % 16)]
        }
    }
}

/// `urlencoding::encode`: every byte of the text's UTF-8 form is percent-encoded, save letters,
/// digits, `-`, `.`, `_` and `~`.
#[verifier::external_body]
fn url_encode(s: &str) -> (r: String)
    ensures
        r@ == percent_encoded(encode_utf8(s@)),
{
    urlencoding::encode(s).into_owned()
}

/// The page of an app in the store.
pub open spec fn store_page(app: Option<u32>) -> Option<Seq<char>> {
    match app {
        Some(id) => Some("https://store.steampowered.com/app/"@ + decimal(id as nat)),
        None => None,
    }
}

fn store_page_of(app: Option<u32>) -> (r: Option<String>)
    ensures
        opt_view(r) == store_page(app),
{
    match app {
        Some(id) => Some(
            String::from_str("https://store.steampowered.com/app/").concat(
                decimal_of(id as u64).as_str(),
            ),
        ),
        None => None,
    }
}

// ---- The foot ---------------------------------------------------------------------------------

/// What a preview shows.
#[derive(Debug, Clone, Copy, PartialEq, Eq, Structural)]
pub enum PreviewKind {
    NewestDelivered,
    DryRunPick,
}

impl PreviewKind {
    pub open spec fn text(self) -> Seq<char> {
        match self {
            PreviewKind::NewestDelivered => "newest delivered"@,
            PreviewKind::DryRunPick => "today's dry pick"@,
        }
    }

    pub fn label(self) -> (r: &'static str)
        ensures
            r@ == self.text(),
    {
        match self {
            PreviewKind::NewestDelivered => "newest delivered",
            PreviewKind::DryRunPick => "today's dry pick",
        }
    }
}

/// The foot of a card: whether it is a preview, the cycle and the slot, and what was cut.
pub open spec fn footer(
    cycle: u32,
    slot: Seq<char>,
    preview: Option<PreviewKind>,
    trimmed: bool,
    trailer_cut: bool,
) -> Seq<char> {
    (match preview {
        Some(k) => "🔍 preview — "@ + k.text() + " · "@,
        None => ""@,
    }) + "the attic whispers · cycle "@ + decimal(cycle as nat) + " · "@ + slot + (if trimmed {
        " · trimmed to fit"@
    } else {
        ""@
    }) + (if trailer_cut {
        " · trailer link cut"@
    } else {
        ""@
    })
}

/// The foot of a card.
pub fn footer_text(
    cycle: u32,
    slot: &str,
    preview: Option<PreviewKind>,
    trimmed: bool,
    trailer_cut: bool,
) -> (r: String)
    ensures
        r@ == footer(cycle, slot@, preview, trimmed, trailer_cut),
{
    let mut f = match preview {
        Some(k) => String::from_str("🔍 preview — ").concat(k.label()).concat(" · "),
        None => String::from_str(""),
    };
    f.append("the attic whispers · cycle ");
    f.append(decimal_of(cycle as u64).as_str());
    f.append(" · ");
    f.append(slot);
    f.append(
        if trimmed {
            " · trimmed to fit"
        } else {
            ""
        },
    );
    f.append(
        if trailer_cut {
            " · trailer link cut"
        } else {
            ""
        },
    );
    f
}

/// The foot is longest with everything said in it.
proof fn footer_is_longest_with_everything(
    cycle: u32,
    slot: Seq<char>,
    preview: Option<PreviewKind>,
    trimmed: bool,
    trailer_cut: bool,
)
    ensures
        footer(cycle, slot, preview, trimmed, trailer_cut).len() <= footer(
            cycle,
            slot,
            preview,
            true,
            true,
        ).len(),
{
    reveal_strlit("");
}

// ---- The fields -------------------------------------------------------------------------------

/// Who made a game: the developers, and the publishers if they are others.
pub open spec fn by_line(d: DetailView) -> Seq<char> {
    let devs = joined_by(d.developers, ", "@);
    let pubs = joined_by(d.publishers, ", "@);
    if pubs.len() == 0 || pubs == devs {
        devs
    } else {
        devs + " · "@ + pubs
    }
}

/// A field, if there is anything to say in it.
pub open spec fn field_if(name: Seq<char>, value: Seq<char>) -> Seq<(Seq<char>, Seq<char>)> {
    if value.len() == 0 {
        Seq::empty()
    } else {
        seq![(name, value)]
    }
}

/// What an app's page says of a game, as fields.
pub open spec fn detail_fields(d: DetailView) -> Seq<(Seq<char>, Seq<char>)> {
    let tags = if d.tags.len() == 0 {
        d.genres
    } else {
        d.tags
    };
    field_if("by"@, by_line(d)) + (match d.release_date {
        Some(r) => seq![("released"@, r)],
        None => Seq::empty(),
    }) + (if tags.len() == 0 {
        Seq::empty()
    } else {
        seq![("tags"@, joined_by(tags, " · "@))]
    })
}

/// What the latest reviews say.
pub open spec fn recent_line(r: RecentReviews) -> Seq<char> {
    decimal(r.percent_positive as nat) + "% of "@ + with_commas(r.count as nat) + " recent"@
}

/// What the reviews say. `percent` is the share of all reviews that are positive.
pub open spec fn review_line(
    overall: Option<ReviewSummary>,
    recent: Option<RecentReviews>,
    percent: u64,
) -> Option<Seq<char>> {
    match (overall, recent) {
        (Some(o), r) => Some(
            o.desc@ + " — "@ + decimal(percent as nat) + "% of "@ + with_commas(
                o.total_reviews as nat,
            ) + (match r {
                Some(r) => " ("@ + recent_line(r) + ")"@,
                None => Seq::empty(),
            }),
        ),
        (None, Some(r)) => Some(recent_line(r)),
        (None, None) => None,
    }
}

/// All fields of a card, before they are cut.
pub open spec fn card_fields(game: Game, steam: Option<CacheView>, percent: u64) -> Seq<(
    Seq<char>,
    Seq<char>,
)> {
    (match steam {
        Some(c) => match c.detail {
            Some(d) => detail_fields(d),
            None => Seq::empty(),
        },
        None => Seq::empty(),
    }) + (match steam {
        Some(c) => match review_line(c.overall, c.recent, percent) {
            Some(l) => seq![("reviews"@, l)],
            None => Seq::empty(),
        },
        None => Seq::empty(),
    }) + seq![("bundle"@, game.bundle@ + " ("@ + game.key_type@ + ")"@)]
}

/// A list of named lines, as texts.
pub open spec fn pair_views(s: Seq<(String, String)>) -> Seq<(Seq<char>, Seq<char>)> {
    Seq::new(s.len(), |i: int| (s[i].0@, s[i].1@))
}

fn add_field(fields: &mut Vec<(String, String)>, name: &str, value: String)
    ensures
        pair_views(final(fields)@) == pair_views(old(fields)@).push((name@, value@)),
{
    let one = (String::from_str(name), value);
    assert(pair_views(fields@.push(one)) =~= pair_views(fields@).push((name@, value@)));
    fields.push(one);
}

fn by_line_of(d: &SteamAppDetail) -> (r: String)
    ensures
        r@ == by_line(d@),
{
    let devs = join(&d.developers, ", ");
    let pubs = join(&d.publishers, ", ");
    if pubs.as_str().is_empty() || pubs == devs {
        devs
    } else {
        devs.concat(" · ").concat(pubs.as_str())
    }
}

fn recent_line_of(r: &RecentReviews) -> (l: String)
    ensures
        l@ == recent_line(*r),
{
    decimal_of(r.percent_positive as u64).concat("% of ").concat(
        fmt_thousands(r.count).as_str(),
    ).concat(" recent")
}

fn review_line_of(overall: &Option<ReviewSummary>, recent: &Option<RecentReviews>, percent: u64) -> (r:
    Option<String>)
    ensures
        opt_view(r) == review_line(*overall, *recent, percent),
{
    match overall {
        Some(o) => {
            let mut l = o.desc.clone();
            l.append(" — ");
            l.append(decimal_of(percent).as_str());
            l.append("% of ");
            l.append(fmt_thousands(o.total_reviews).as_str());
            let ghost head = l@;
            if let Some(r) = recent {
                l.append(" (");
                l.append(recent_line_of(r).as_str());
                l.append(")");
                assert(l@ =~= head + (" ("@ + recent_line(*r) + ")"@));
            } else {
                assert(l@ =~= head + Seq::<char>::empty());
            }
            Some(l)
        },
        None => match recent {
            Some(r) => Some(recent_line_of(r)),
            None => None,
        },
    }
}

fn add_detail_fields(fields: &mut Vec<(String, String)>, d: &SteamAppDetail)
    ensures
        pair_views(final(fields)@) == pair_views(old(fields)@) + detail_fields(d@),
{
    let ghost start = pair_views(fields@);
    let by = by_line_of(d);
    if !by.as_str().is_empty() {
        add_field(fields, "by", by);
    }
    let ghost one = pair_views(fields@);
    assert(one =~= start + field_if("by"@, by_line(d@)));
    if let Some(r) = &d.release_date {
        add_field(fields, "released", r.clone());
    }
    let ghost two = pair_views(fields@);
    assert(two =~= one + match d@.release_date {
        Some(r) => seq![("released"@, r)],
        None => Seq::empty(),
    });
    let tags = if d.tags.len() == 0 {
        &d.genres
    } else {
        &d.tags
    };
    if tags.len() > 0 {
        add_field(fields, "tags", join(tags, " · "));
    }
    assert(pair_views(fields@) =~= start + detail_fields(d@));
}

fn card_fields_of(game: &Game, steam: Option<&SteamAppCache>, percent: u64) -> (r: Vec<(
    String,
    String,
)>)
    ensures
        pair_views(r@) == card_fields(*game, steam_view(steam), percent),
{
    let mut fields: Vec<(String, String)> = Vec::new();
    assert(pair_views(fields@) =~= Seq::empty());
    if let Some(c) = steam {
        if let Some(d) = &c.detail {
            add_detail_fields(&mut fields, d);
        }
        if let Some(l) = review_line_of(&c.overall, &c.recent, percent) {
            add_field(&mut fields, "reviews", l);
        }
    }
    let bundle = game.bundle.clone().concat(" (").concat(game.key_type.as_str()).concat(")");
    add_field(&mut fields, "bundle", bundle);
    assert(pair_views(fields@) =~= card_fields(*game, steam_view(steam), percent));
    fields
}

/// What is known of a game's app.
pub open spec fn steam_view(steam: Option<&SteamAppCache>) -> Option<CacheView> {
    match steam {
        Some(c) => Some(c@),
        None => None,
    }
}

/// Whether any field is too long.
pub open spec fn any_long(fields: Seq<(Seq<char>, Seq<char>)>) -> bool {
    exists|i: int| 0 <= i < fields.len() && (#[trigger] fields[i]).1.len() > EMBED_FIELD_VALUE_MAX
}

/// How long a field's value is once it is cut.
pub open spec fn value_len(v: Seq<char>) -> int {
    if v.len() > EMBED_FIELD_VALUE_MAX {
        EMBED_FIELD_VALUE_MAX as int
    } else {
        v.len() as int
    }
}

/// How long all fields are together, once they are cut.
pub open spec fn fields_len(fields: Seq<(Seq<char>, Seq<char>)>) -> int
    decreases fields.len(),
{
    if fields.len() == 0 {
        0
    } else {
        fields_len(fields.drop_last()) + fields.last().0.len() + value_len(fields.last().1)
    }
}

/// How long everything but the description is, with the longest foot.
pub open spec fn fixed_len(
    game: Game,
    fields: Seq<(Seq<char>, Seq<char>)>,
    longest_footer: Seq<char>,
) -> int {
    cut(game.title@, EMBED_TITLE_MAX as nat).len() + longest_footer.len() + fields_len(fields)
}

/// The length of a title once it is cut.
pub fn title_len_after_trunc(t: &str) -> (r: usize)
    ensures
        r == cut(t@, EMBED_TITLE_MAX as nat).len(),
{
    trunc(t, EMBED_TITLE_MAX).as_str().unicode_len()
}

/// A number with an upper bound put on it, which nothing beyond matters to.
spec fn up_to(n: int) -> int {
    if n > usize::MAX {
        usize::MAX as int
    } else {
        n
    }
}

fn add_up(a: usize, b: usize) -> (r: usize)
    ensures
        r == up_to(a + b),
{
    if a > usize::MAX - b {
        usize::MAX
    } else {
        a + b
    }
}

fn fields_len_of(fields: &Vec<(String, String)>) -> (r: usize)
    ensures
        r == up_to(fields_len(pair_views(fields@))),
{
    let mut n: usize = 0;
    let ghost all = pair_views(fields@);
    for i in 0..fields.len()
        invariant
            all == pair_views(fields@),
            n == up_to(fields_len(all.take(i as int))),
    {
        let ghost part = all.take(i + 1);
        assert(part.drop_last() =~= all.take(i as int));
        assert(part.last() == (fields@[i as int].0@, fields@[i as int].1@));
        proof {
            fields_len_is_positive(all.take(i as int));
        }
        let v: usize = fields[i].1.as_str().unicode_len();
        let v: usize = if v > EMBED_FIELD_VALUE_MAX {
            EMBED_FIELD_VALUE_MAX
        } else {
            v
        };
        n = add_up(add_up(n, fields[i].0.as_str().unicode_len()), v);
    }
    assert(all.take(fields@.len() as int) =~= all);
    n
}

proof fn fields_len_is_positive(fields: Seq<(Seq<char>, Seq<char>)>)
    ensures
        fields_len(fields) >= 0,
    decreases fields.len(),
{
    if fields.len() > 0 {
        fields_len_is_positive(fields.drop_last());
    }
}

fn has_long(fields: &Vec<(String, String)>) -> (r: bool)
    ensures
        r == any_long(pair_views(fields@)),
{
    for i in 0..fields.len()
        invariant
            forall|j: int|
                0 <= j < i ==> (#[trigger] pair_views(fields@)[j]).1.len()
                    <= EMBED_FIELD_VALUE_MAX,
    {
        if fields[i].1.as_str().unicode_len() > EMBED_FIELD_VALUE_MAX {
            assert(pair_views(fields@)[i as int].1.len() > EMBED_FIELD_VALUE_MAX);
            return true;
        }
    }
    false
}

/// Whether `out` are the fields as they are sent.
pub open spec fn are_sent(out: Seq<EmbedField>, fields: Seq<(Seq<char>, Seq<char>)>) -> bool {
    &&& out.len() == fields.len()
    &&& forall|i: int|
        0 <= i < fields.len() ==> {
            &&& (#[trigger] out[i]).name@ == cut(fields[i].0, EMBED_TITLE_MAX as nat)
            &&& out[i].value@ == cut(fields[i].1, EMBED_FIELD_VALUE_MAX as nat)
            &&& out[i].inline
        }
}

fn send_fields(fields: &Vec<(String, String)>) -> (r: Vec<EmbedField>)
    ensures
        are_sent(r@, pair_views(fields@)),
{
    let mut out: Vec<EmbedField> = Vec::new();
    for i in 0..fields.len()
        invariant
            out@.len() == i,
            forall|j: int|
                0 <= j < i ==> {
                    &&& (#[trigger] out@[j]).name@ == cut(
                        pair_views(fields@)[j].0,
                        EMBED_TITLE_MAX as nat,
                    )
                    &&& out@[j].value@ == cut(
                        pair_views(fields@)[j].1,
                        EMBED_FIELD_VALUE_MAX as nat,
                    )
                    &&& out@[j].inline
                },
    {
        out.push(
            EmbedField {
                name: trunc(fields[i].0.as_str(), EMBED_TITLE_MAX),
                value: trunc(fields[i].1.as_str(), EMBED_FIELD_VALUE_MAX),
                inline: true,
            },
        );
    }
    out
}

// ---- The description --------------------------------------------------------------------------

/// The link to a trailer, where there is one to see.
pub open spec fn trailer_link(d: DetailView, page: Option<Seq<char>>) -> Seq<char> {
    match (d.video_hls_url, page) {
        (Some(_), Some(u)) => "\n\n[🎬 watch the trailer]("@ + u + ")"@,
        _ => Seq::empty(),
    }
}

/// A description, and what was cut from it.
pub struct Described {
    pub text: Seq<char>,
    pub trimmed: bool,
    pub trailer_cut: bool,
}

/// How long a description can be.
pub open spec fn desc_budget(fixed: int) -> int {
    let left = if fixed < EMBED_TOTAL_TEXT_MAX {
        EMBED_TOTAL_TEXT_MAX - fixed
    } else {
        0
    };
    if left < EMBED_DESC_MAX {
        left
    } else {
        EMBED_DESC_MAX as int
    }
}

/// The description: the text is cut before the link to the trailer is, and only where the link does
/// not fit at all is it left out.
pub open spec fn described(d: DetailView, page: Option<Seq<char>>, budget: int) -> Described {
    let link = trailer_link(d, page);
    let s = d.short_description;
    if link.len() <= budget {
        let body = cut(s, (budget - link.len()) as nat);
        Described { text: body + link, trimmed: body != s, trailer_cut: false }
    } else {
        let body = cut(s, budget as nat);
        Described { text: body, trimmed: link.len() > 0 || body != s, trailer_cut: link.len() > 0 }
    }
}

/// The description of a game, if its app's page is known.
pub open spec fn description(steam: Option<CacheView>, page: Option<Seq<char>>, budget: int) -> Described {
    match steam {
        Some(c) => match c.detail {
            Some(d) => described(d, page, budget),
            None => Described { text: Seq::empty(), trimmed: false, trailer_cut: false },
        },
        None => Described { text: Seq::empty(), trimmed: false, trailer_cut: false },
    }
}

fn describe(d: &SteamAppDetail, page: &Option<String>, budget: usize) -> (r: (String, bool, bool))
    ensures
        ({
            let want = described(d@, opt_view(*page), budget as int);
            &&& r.0@ == want.text
            &&& r.1 == want.trimmed
            &&& r.2 == want.trailer_cut
        }),
{
    let link = match (&d.video_hls_url, page) {
        (Some(_), Some(u)) => String::from_str("\n\n[🎬 watch the trailer](").concat(
            u.as_str(),
        ).concat(")"),
        _ => String::new(),
    };
    let n: usize = link.as_str().unicode_len();
    if n <= budget {
        let body = trunc(d.short_description.as_str(), budget - n);
        let trimmed: bool = body != d.short_description;
        (body.concat(link.as_str()), trimmed, false)
    } else {
        let body = trunc(d.short_description.as_str(), budget);
        let trimmed: bool = n > 0 || body != d.short_description;
        (body, trimmed, n > 0)
    }
}

// ---- Pictures ---------------------------------------------------------------------------------

/// The first of three addresses that is there.
pub open spec fn first_of(
    a: Option<Seq<char>>,
    b: Option<Seq<char>>,
    c: Option<Seq<char>>,
) -> Option<Seq<char>> {
    if a is Some {
        a
    } else if b is Some {
        b
    } else {
        c
    }
}

fn first_there(a: Option<String>, b: Option<String>, c: Option<String>) -> (r: Option<String>)
    ensures
        opt_view(r) == first_of(opt_view(a), opt_view(b), opt_view(c)),
{
    match a {
        Some(a) => Some(a),
        None => match b {
            Some(b) => Some(b),
            None => c,
        },
    }
}

/// The page of a game's app.
pub open spec fn detail_view(steam: Option<CacheView>) -> Option<DetailView> {
    match steam {
        Some(c) => c.detail,
        None => None,
    }
}

/// The screenshots of a game, small and full.
pub open spec fn shots(steam: Option<CacheView>) -> Seq<(Seq<char>, Seq<char>)> {
    match detail_view(steam) {
        Some(d) => d.screenshots,
        None => Seq::empty(),
    }
}

pub open spec fn header_of(steam: Option<CacheView>) -> Option<Seq<char>> {
    match detail_view(steam) {
        Some(d) => d.header_image,
        None => None,
    }
}

pub open spec fn video_still_of(steam: Option<CacheView>) -> Option<Seq<char>> {
    match detail_view(steam) {
        Some(d) => d.video_thumbnail,
        None => None,
    }
}

/// The picture of a card: the first screenshot, so that it takes no place from the others.
pub open spec fn card_image(game: Game, steam: Option<CacheView>) -> Option<Seq<char>> {
    first_of(
        if shots(steam).len() > 0 {
            Some(shots(steam)[0].1)
        } else {
            None
        },
        header_of(steam),
        opt_view(game.artwork_url),
    )
}

/// The small picture of a card, unless it is the same as the large one.
pub open spec fn card_thumbnail(game: Game, steam: Option<CacheView>) -> Option<Seq<char>> {
    let t = first_of(video_still_of(steam), header_of(steam), opt_view(game.artwork_url));
    if t == card_image(game, steam) {
        None
    } else {
        t
    }
}

/// The address that puts a screenshot into its gallery: the first few are in that of the card.
pub open spec fn gallery_url(page: Seq<char>, i: int) -> Seq<char> {
    if i / GALLERY_GROUP as int == 0 {
        page
    } else if i / GALLERY_GROUP as int == 1 {
        page + "#more"@
    } else {
        page + "#more2"@
    }
}

/// How many boxes a card has: one for the card, and one for each further screenshot that fits.
pub open spec fn box_count(page: Option<Seq<char>>, n: nat) -> nat {
    if page is None || n <= 1 {
        1
    } else if n > MAX_EMBEDS {
        MAX_EMBEDS as nat
    } else {
        n
    }
}

/// Whether `e` shows a screenshot and nothing else.
pub open spec fn is_shot_box(e: Embed, page: Seq<char>, i: int, full: Seq<char>) -> bool {
    &&& opt_view(e.url) == Some(gallery_url(page, i))
    &&& opt_view(e.image) == Some(full)
    &&& e.title is None
    &&& e.description is None
    &&& e.fields@.len() == 0
    &&& e.thumbnail is None
    &&& e.footer is None
}

// ---- The card ---------------------------------------------------------------------------------

/// All that a card is made of.
pub struct Made {
    pub fields: Seq<(Seq<char>, Seq<char>)>,
    pub desc: Described,
    pub trimmed: bool,
}

/// What a card is made of. `content_trimmed`: the text above it was cut.
pub open spec fn made_of(
    game: Game,
    steam: Option<CacheView>,
    percent: u64,
    cycle: u32,
    slot: Seq<char>,
    preview: Option<PreviewKind>,
    content_trimmed: bool,
) -> Made {
    let fields = card_fields(game, steam, percent);
    let longest = footer(cycle, slot, preview, true, true);
    let desc = description(
        steam,
        store_page(game.steam_app_id),
        desc_budget(fixed_len(game, fields, longest)),
    );
    Made {
        fields,
        desc,
        trimmed: content_trimmed || cut(game.title@, EMBED_TITLE_MAX as nat) != game.title@
            || any_long(fields) || desc.trimmed,
    }
}

/// Whether `e` is the card itself.
pub open spec fn is_card_box(
    e: Embed,
    game: Game,
    steam: Option<CacheView>,
    cycle: u32,
    slot: Seq<char>,
    preview: Option<PreviewKind>,
    made: Made,
) -> bool {
    &&& opt_view(e.title) == Some(cut(game.title@, EMBED_TITLE_MAX as nat))
    &&& opt_view(e.url) == store_page(game.steam_app_id)
    &&& opt_view(e.description) == if made.desc.text.len() == 0 {
        None
    } else {
        Some(made.desc.text)
    }
    &&& are_sent(e.fields@, made.fields)
    &&& opt_view(e.image) == card_image(game, steam)
    &&& opt_view(e.thumbnail) == card_thumbnail(game, steam)
    &&& opt_view(e.footer) == Some(
        footer(cycle, slot, preview, made.trimmed, made.desc.trailer_cut),
    )
}

/// Whether `boxes` are the boxes of a whisper.
pub open spec fn are_boxes(
    boxes: Seq<Embed>,
    game: Game,
    steam: Option<CacheView>,
    percent: u64,
    cycle: u32,
    slot: Seq<char>,
    preview: Option<PreviewKind>,
    content_trimmed: bool,
) -> bool {
    let page = store_page(game.steam_app_id);
    let made = made_of(game, steam, percent, cycle, slot, preview, content_trimmed);
    &&& boxes.len() == box_count(page, shots(steam).len())
    &&& is_card_box(boxes[0], game, steam, cycle, slot, preview, made)
    &&& forall|i: int|
        1 <= i < boxes.len() ==> is_shot_box(#[trigger] boxes[i], page->0, i, shots(steam)[i].1)
}

fn copy_of(o: &Option<String>) -> (r: Option<String>)
    ensures
        opt_view(r) == opt_view(*o),
{
    match o {
        Some(s) => Some(s.clone()),
        None => None,
    }
}

fn same_address(a: &Option<String>, b: &Option<String>) -> (r: bool)
    ensures
        r == (opt_view(*a) == opt_view(*b)),
{
    match (a, b) {
        (Some(x), Some(y)) => *x == *y,
        (None, None) => true,
        _ => false,
    }
}

fn image_of(game: &Game, steam: Option<&SteamAppCache>) -> (r: Option<String>)
    ensures
        opt_view(r) == card_image(*game, steam_view(steam)),
{
    if let Some(c) = steam {
        if let Some(d) = &c.detail {
            let first = if d.screenshots.len() > 0 {
                Some(d.screenshots[0].full.clone())
            } else {
                None
            };
            return first_there(first, copy_of(&d.header_image), copy_of(&game.artwork_url));
        }
    }
    copy_of(&game.artwork_url)
}

fn thumbnail_of(game: &Game, steam: Option<&SteamAppCache>, image: &Option<String>) -> (r: Option<
    String,
>)
    requires
        opt_view(*image) == card_image(*game, steam_view(steam)),
    ensures
        opt_view(r) == card_thumbnail(*game, steam_view(steam)),
{
    let mut thumb = copy_of(&game.artwork_url);
    if let Some(c) = steam {
        if let Some(d) = &c.detail {
            thumb =
            first_there(
                copy_of(&d.video_thumbnail),
                copy_of(&d.header_image),
                copy_of(&game.artwork_url),
            );
        }
    }
    if same_address(&thumb, image) {
        None
    } else {
        thumb
    }
}

fn shot_box(page: &str, i: usize, full: &String) -> (e: Embed)
    ensures
        is_shot_box(e, page@, i as int, full@),
{
    let group: usize = i / GALLERY_GROUP;
    let url = if group == 0 {
        String::from_str(page)
    } else if group == 1 {
        String::from_str(page).concat("#more")
    } else {
        String::from_str(page).concat("#more2")
    };
    Embed {
        title: None,
        url: Some(url),
        description: None,
        fields: Vec::new(),
        image: Some(full.clone()),
        thumbnail: None,
        footer: None,
    }
}

/// The boxes of a whisper: the card, and the screenshots after the first. `percent` is the share of
/// all reviews that are positive.
pub fn build_embeds(
    game: &Game,
    steam: Option<&SteamAppCache>,
    percent: u64,
    cycle: u32,
    slot: &str,
    preview: Option<PreviewKind>,
    content_trimmed: bool,
) -> (r: Vec<Embed>)
    ensures
        are_boxes(
            r@,
            *game,
            steam_view(steam),
            percent,
            cycle,
            slot@,
            preview,
            content_trimmed,
        ),
{
    let ghost made = made_of(
        *game,
        steam_view(steam),
        percent,
        cycle,
        slot@,
        preview,
        content_trimmed,
    );
    let page = store_page_of(game.steam_app_id);
    let title = trunc(game.title.as_str(), EMBED_TITLE_MAX);
    let title_cut: bool = title != game.title;
    let longest = footer_text(cycle, slot, preview, true, true);
    let fields = card_fields_of(game, steam, percent);
    let fixed: usize = add_up(
        add_up(
            title_len_after_trunc(game.title.as_str()),
            longest.as_str().unicode_len(),
        ),
        fields_len_of(&fields),
    );
    proof {
        fields_len_is_positive(pair_views(fields@));
        assert(fixed == up_to(fixed_len(*game, pair_views(fields@), longest@)));
    }
    let left: usize = if fixed < EMBED_TOTAL_TEXT_MAX {
        EMBED_TOTAL_TEXT_MAX - fixed
    } else {
        0
    };
    let budget: usize = if left < EMBED_DESC_MAX {
        left
    } else {
        EMBED_DESC_MAX
    };
    assert(budget == desc_budget(fixed_len(*game, pair_views(fields@), longest@)));
    let mut text = String::new();
    let mut desc_cut: bool = false;
    let mut trailer_cut: bool = false;
    if let Some(c) = steam {
        if let Some(d) = &c.detail {
            let (t, a, b) = describe(d, &page, budget);
            text = t;
            desc_cut = a;
            trailer_cut = b;
        }
    }
    assert(text@ =~= made.desc.text);
    let trimmed: bool = content_trimmed || title_cut || has_long(&fields) || desc_cut;
    let image = image_of(game, steam);
    let thumbnail = thumbnail_of(game, steam, &image);
    let card = Embed {
        title: Some(title),
        url: copy_of(&page),
        description: if text.as_str().is_empty() {
            None
        } else {
            Some(text)
        },
        fields: send_fields(&fields),
        image,
        thumbnail,
        footer: Some(footer_text(cycle, slot, preview, trimmed, trailer_cut)),
    };
    assert(is_card_box(card, *game, steam_view(steam), cycle, slot@, preview, made));
    let mut boxes: Vec<Embed> = Vec::new();
    boxes.push(card);
    if let Some(base) = &page {
        if let Some(c) = steam {
            if let Some(d) = &c.detail {
                let mut i: usize = 1;
                while i < d.screenshots.len() && boxes.len() < MAX_EMBEDS
                    invariant
                        page == Some(*base),
                        shots(steam_view(steam)) == shot_views(d.screenshots@),
                        boxes@.len() == i,
                        1 <= i <= MAX_EMBEDS,
                        i <= d.screenshots@.len() || i == 1,
                        boxes@[0] == card,
                        forall|k: int|
                            1 <= k < boxes@.len() ==> is_shot_box(
                                #[trigger] boxes@[k],
                                base@,
                                k,
                                shots(steam_view(steam))[k].1,
                            ),
                    decreases d.screenshots@.len() - i,
                {
                    boxes.push(shot_box(base.as_str(), i, &d.screenshots[i].full));
                    i += 1;
                }
            }
        }
    }
    boxes
}

/// What a whisper says above the card.
pub open spec fn whisper_text(game: Game, site: Seq<char>, preview: Option<PreviewKind>) -> Seq<char> {
    (match preview {
        Some(k) => "🔍 *preview — "@ + k.text() + ", not a new whisper*\n"@,
        None => ""@,
    }) + "🕯️ *from the attic…*\n**"@ + cut(game.title@, CONTENT_TITLE_MAX as nat)
        + "** has been sleeping in *"@ + cut(game.bundle@, CONTENT_BUNDLE_MAX as nat)
        + "*.\ncut a link for someone ♡ → "@ + site + "/admin/catalog?q="@ + percent_encoded(
        encode_utf8(first_chars(game.title@, CONTENT_QUERY_MAX as nat)),
    )
}

/// The post for a whisper: a line that leads to the game, and the card. `percent` is the share of all
/// reviews that are positive.
pub fn whisper_card(
    game: &Game,
    steam: Option<&SteamAppCache>,
    percent: u64,
    site_url: &str,
    cycle: u32,
    slot: &str,
    preview: Option<PreviewKind>,
) -> (r: Card)
    ensures
        ({
            let full = whisper_text(*game, site_url@, preview);
            let content = cut(full, CONTENT_MAX as nat);
            &&& r.content@ == content
            &&& are_boxes(
                r.embeds@,
                *game,
                steam_view(steam),
                percent,
                cycle,
                slot@,
                preview,
                content != full,
            )
        }),
        r.calls_nobody(),
{
    let q = url_encode(cap(game.title.as_str(), CONTENT_QUERY_MAX).as_str());
    let mut full = match preview {
        Some(k) => String::from_str("🔍 *preview — ").concat(k.label()).concat(
            ", not a new whisper*\n",
        ),
        None => String::from_str(""),
    };
    full.append("🕯️ *from the attic…*\n**");
    full.append(trunc(game.title.as_str(), CONTENT_TITLE_MAX).as_str());
    full.append("** has been sleeping in *");
    full.append(trunc(game.bundle.as_str(), CONTENT_BUNDLE_MAX).as_str());
    full.append("*.\ncut a link for someone ♡ → ");
    full.append(site_url);
    full.append("/admin/catalog?q=");
    full.append(q.as_str());
    assert(full@ == whisper_text(*game, site_url@, preview));
    let content = trunc(full.as_str(), CONTENT_MAX);
    let content_trimmed: bool = content != full;
    let embeds = build_embeds(game, steam, percent, cycle, slot, preview, content_trimmed);
    Card { content, embeds, allowed_mentions: no_mentions() }
}

// ---- What holds of every card -----------------------------------------------------------------

/// How much text a box holds.
pub open spec fn box_text(e: Embed) -> int {
    opt_len(e.title) + opt_len(e.description) + opt_len(e.footer) + sent_len(e.fields@)
}

pub open spec fn opt_len(o: Option<String>) -> int {
    match o {
        Some(s) => s@.len() as int,
        None => 0,
    }
}

pub open spec fn sent_len(fields: Seq<EmbedField>) -> int
    decreases fields.len(),
{
    if fields.len() == 0 {
        0
    } else {
        sent_len(fields.drop_last()) + fields.last().name@.len() + fields.last().value@.len()
    }
}

/// How much text all boxes hold.
pub open spec fn boxes_text(boxes: Seq<Embed>) -> int
    decreases boxes.len(),
{
    if boxes.len() == 0 {
        0
    } else {
        boxes_text(boxes.drop_last()) + box_text(boxes.last())
    }
}

proof fn sent_fields_fit(out: Seq<EmbedField>, fields: Seq<(Seq<char>, Seq<char>)>)
    requires
        are_sent(out, fields),
        forall|i: int| 0 <= i < fields.len() ==> (#[trigger] fields[i]).0.len() <= EMBED_TITLE_MAX,
    ensures
        sent_len(out) == fields_len(fields),
    decreases fields.len(),
{
    if fields.len() > 0 {
        let a = out.drop_last();
        let b = fields.drop_last();
        assert forall|i: int| 0 <= i < b.len() implies (#[trigger] b[i]).0.len()
            <= EMBED_TITLE_MAX by {
            assert(b[i] == fields[i]);
        }
        assert(are_sent(a, b)) by {
            assert forall|i: int| 0 <= i < b.len() implies {
                &&& (#[trigger] a[i]).name@ == cut(b[i].0, EMBED_TITLE_MAX as nat)
                &&& a[i].value@ == cut(b[i].1, EMBED_FIELD_VALUE_MAX as nat)
                &&& a[i].inline
            } by {
                assert(a[i] == out[i]);
            }
        }
        sent_fields_fit(a, b);
        assert(out.last() == out[out.len() - 1]);
        assert(fields.last() == fields[fields.len() - 1]);
    }
}

proof fn shot_boxes_hold_no_text(boxes: Seq<Embed>, page: Seq<char>, full: Seq<(Seq<char>, Seq<char>)>)
    requires
        boxes.len() >= 1,
        forall|i: int|
            1 <= i < boxes.len() ==> is_shot_box(#[trigger] boxes[i], page, i, full[i].1),
    ensures
        boxes_text(boxes) == box_text(boxes[0]),
    decreases boxes.len(),
{
    if boxes.len() == 1 {
        assert(boxes.drop_last() =~= Seq::empty());
        assert(boxes_text(boxes.drop_last()) == 0);
    } else {
        let front = boxes.drop_last();
        assert forall|i: int| 1 <= i < front.len() implies is_shot_box(
            #[trigger] front[i],
            page,
            i,
            full[i].1,
        ) by {
            assert(front[i] == boxes[i]);
        }
        shot_boxes_hold_no_text(front, page, full);
        let last = boxes[boxes.len() - 1];
        assert(is_shot_box(last, page, boxes.len() - 1, full[boxes.len() - 1].1));
    }
}

/// The names of a card's fields are short, and their values take at most 1024 characters each.
proof fn field_names_are_short(game: Game, steam: Option<CacheView>, percent: u64)
    ensures
        forall|i: int|
            0 <= i < card_fields(game, steam, percent).len() ==> (#[trigger] card_fields(
                game,
                steam,
                percent,
            )[i]).0.len() <= 8,
        card_fields(game, steam, percent).len() <= 5,
{
    reveal_strlit("by");
    reveal_strlit("released");
    reveal_strlit("tags");
    reveal_strlit("reviews");
    reveal_strlit("bundle");
}

/// A whisper's boxes number ten at most, and hold no more text than the channel takes, as long as
/// what cannot be cut fits: the title, the fields and the foot.
pub proof fn a_whisper_fits_the_channel(
    boxes: Seq<Embed>,
    game: Game,
    steam: Option<CacheView>,
    percent: u64,
    cycle: u32,
    slot: Seq<char>,
    preview: Option<PreviewKind>,
    content_trimmed: bool,
)
    requires
        are_boxes(boxes, game, steam, percent, cycle, slot, preview, content_trimmed),
        fixed_len(
            game,
            card_fields(game, steam, percent),
            footer(cycle, slot, preview, true, true),
        ) < EMBED_TOTAL_TEXT_MAX,
    ensures
        boxes.len() <= MAX_EMBEDS,
        boxes_text(boxes) <= EMBED_TOTAL_TEXT_MAX,
        opt_len(boxes[0].description) <= EMBED_DESC_MAX,
        opt_len(boxes[0].title) <= EMBED_TITLE_MAX,
{
    let page = store_page(game.steam_app_id);
    let made = made_of(game, steam, percent, cycle, slot, preview, content_trimmed);
    let longest = footer(cycle, slot, preview, true, true);
    field_names_are_short(game, steam, percent);
    sent_fields_fit(boxes[0].fields@, made.fields);
    shot_boxes_hold_no_text(boxes, page->0, shots(steam));
    footer_is_longest_with_everything(
        cycle,
        slot,
        preview,
        made.trimmed,
        made.desc.trailer_cut,
    );
    let budget = desc_budget(fixed_len(game, made.fields, longest));
    reveal_strlit(" · trailer link cut");
    reveal_strlit("");
    if let Some(d) = detail_view(steam) {
        a_description_fits(d, game.steam_app_id, budget);
    }
}

/// A description is no longer than there is room for. Where nothing but the link to the trailer fits,
/// the sign that the text was cut goes one beyond it; the foot, which then does not speak of the link,
/// makes up for that.
proof fn a_description_fits(d: DetailView, app: Option<u32>, budget: int)
    requires
        1 <= budget <= EMBED_DESC_MAX,
    ensures
        ({
            let r = described(d, store_page(app), budget);
            &&& r.text.len() <= budget + 1
            &&& r.trailer_cut ==> r.text.len() <= budget
            &&& r.text.len() <= EMBED_DESC_MAX
        }),
{
    if let Some(id) = app {
        decimal_of_u32_is_short(id as nat);
    }
    reveal_strlit("\n\n[🎬 watch the trailer](");
    reveal_strlit(")");
    reveal_strlit("https://store.steampowered.com/app/");
}

/// A number of 32 bits takes ten digits at most.
proof fn decimal_of_u32_is_short(n: nat)
    requires
        n <= u32::MAX,
    ensures
        decimal(n).len() <= 10,
{
    reveal_with_fuel(decimal, 10);
}

/// What cannot be cut takes at most 5416 characters and the foot.
pub proof fn what_cannot_be_cut_is_short(
    game: Game,
    steam: Option<CacheView>,
    percent: u64,
    longest_footer: Seq<char>,
)
    ensures
        fixed_len(game, card_fields(game, steam, percent), longest_footer) <= 5416
            + longest_footer.len(),
{
    field_names_are_short(game, steam, percent);
    short_fields_add_up(card_fields(game, steam, percent));
}

proof fn short_fields_add_up(fields: Seq<(Seq<char>, Seq<char>)>)
    requires
        forall|i: int| 0 <= i < fields.len() ==> (#[trigger] fields[i]).0.len() <= 8,
    ensures
        fields_len(fields) <= 1032 * fields.len(),
    decreases fields.len(),
{
    if fields.len() > 0 {
        let b = fields.drop_last();
        assert forall|i: int| 0 <= i < b.len() implies (#[trigger] b[i]).0.len() <= 8 by {
            assert(b[i] == fields[i]);
        }
        short_fields_add_up(b);
        assert(fields.last() == fields[fields.len() - 1]);
    }
}

/// Every screenshot is sent, where there are no more than ten and the game has a page in the store:
/// the first as the card's own picture, each other in a box of its own.
pub proof fn every_screenshot_is_sent(
    boxes: Seq<Embed>,
    game: Game,
    steam: Option<CacheView>,
    percent: u64,
    cycle: u32,
    slot: Seq<char>,
    preview: Option<PreviewKind>,
    content_trimmed: bool,
    i: int,
)
    requires
        are_boxes(boxes, game, steam, percent, cycle, slot, preview, content_trimmed),
        game.steam_app_id is Some,
        shots(steam).len() <= MAX_EMBEDS,
        0 <= i < shots(steam).len(),
    ensures
        i < boxes.len(),
        opt_view(boxes[i].image) == Some(shots(steam)[i].1),
{
    if i > 0 {
        assert(is_shot_box(
            boxes[i],
            store_page(game.steam_app_id)->0,
            i,
            shots(steam)[i].1,
        ));
    }
}

/// Nothing is cut in silence: where the title, a field, the description or the text above was cut,
/// the foot says so, and where the trailer's link was left out it says that too. A link that fits is
/// never cut.
pub proof fn no_cut_is_silent(
    boxes: Seq<Embed>,
    game: Game,
    steam: Option<CacheView>,
    percent: u64,
    cycle: u32,
    slot: Seq<char>,
    preview: Option<PreviewKind>,
    content_trimmed: bool,
)
    requires
        are_boxes(boxes, game, steam, percent, cycle, slot, preview, content_trimmed),
    ensures
        ({
            let page = store_page(game.steam_app_id);
            let made = made_of(game, steam, percent, cycle, slot, preview, content_trimmed);
            let foot = opt_view(boxes[0].footer)->0;
            &&& foot == footer(cycle, slot, preview, made.trimmed, made.desc.trailer_cut)
            &&& content_trimmed ==> made.trimmed
            &&& opt_view(boxes[0].title) != Some(game.title@) ==> made.trimmed
            &&& any_long(made.fields) ==> made.trimmed
            &&& detail_view(steam) matches Some(d) ==> {
                let budget = desc_budget(
                    fixed_len(game, made.fields, footer(cycle, slot, preview, true, true)),
                );
                &&& trailer_link(d, page).len() <= budget ==> !made.desc.trailer_cut
                    && made.desc.text.len() >= trailer_link(d, page).len()
                    && made.desc.text.subrange(
                    made.desc.text.len() - trailer_link(d, page).len(),
                    made.desc.text.len() as int,
                ) == trailer_link(d, page)
                &&& made.desc.trailer_cut ==> made.trimmed
                &&& !made.trimmed ==> made.desc.text == d.short_description + trailer_link(d, page)
            }
        }),
{
    let page = store_page(game.steam_app_id);
    let made = made_of(game, steam, percent, cycle, slot, preview, content_trimmed);
    if let Some(d) = detail_view(steam) {
        let budget = desc_budget(
            fixed_len(game, made.fields, footer(cycle, slot, preview, true, true)),
        );
        let link = trailer_link(d, page);
        let text = made.desc.text;
        if link.len() <= budget {
            assert(text.subrange(text.len() - link.len(), text.len() as int) =~= link);
        } else {
            assert(link.len() > 0);
        }
    }
}

} // verus!
