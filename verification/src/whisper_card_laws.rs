//! What a whisper's card shows, in the terms of the game and of what is known of its app.
use vstd::prelude::*;
use vstd::utf8::encode_utf8;
use crate::model::Game;
use crate::steam::{CacheView, DetailView, RecentReviews, ReviewSummary};
use crate::text::{decimal, decimal_is_nonempty, digit, opt_view};
use crate::card::Embed;
use crate::whisper_card::{
    are_boxes, box_count, by_line, card_fields, card_image, card_thumbnail, cut, desc_budget,
    described, detail_fields, footer, gallery_url, hex_digit, is_unreserved, joined_by,
    percent_encoded, recent_line, review_line, store_page, three_digits, trailer_link, whisper_text,
    with_commas, PreviewKind,
};

verus! {

// ---- Small texts ------------------------------------------------------------------------------

/// A text that is too long keeps its start, and ends with a mark of the cut.
pub proof fn a_cut_text_keeps_its_start(s: Seq<char>, max: nat, i: int)
    requires
        s.len() > max > 0,
    ensures
        cut(s, max).len() == max,
        cut(s, max).last() == '…',
        0 <= i < max - 1 ==> cut(s, max)[i] == s[i],
{
}

/// Texts stand one behind the other with the separator between them, and none at either end.
pub proof fn texts_are_joined_by_their_separator(
    parts: Seq<Seq<char>>,
    a: Seq<char>,
    sep: Seq<char>,
)
    ensures
        joined_by(Seq::<Seq<char>>::empty().push(a), sep) == a,
        parts.len() > 0 ==> joined_by(parts.push(a), sep) == joined_by(parts, sep) + sep + a,
{
    assert(parts.push(a).drop_last() =~= parts);
    assert(Seq::<Seq<char>>::empty().push(a)[0] == a);
}

/// A text without its commas.
pub open spec fn without_commas(s: Seq<char>) -> Seq<char>
    decreases s.len(),
{
    if s.len() == 0 {
        Seq::empty()
    } else if s.last() == ',' {
        without_commas(s.drop_last())
    } else {
        without_commas(s.drop_last()).push(s.last())
    }
}

proof fn commas_go_from_each(a: Seq<char>, b: Seq<char>)
    ensures
        without_commas(a + b) == without_commas(a) + without_commas(b),
    decreases b.len(),
{
    if b.len() == 0 {
        assert(a + b =~= a);
        assert(without_commas(a) + without_commas(b) =~= without_commas(a));
    } else {
        assert((a + b).drop_last() =~= a + b.drop_last());
        commas_go_from_each(a, b.drop_last());
        assert((a + b).last() == b.last());
        assert(without_commas(a + b) =~= without_commas(a) + without_commas(b));
    }
}

proof fn digits_have_no_commas(n: nat)
    ensures
        without_commas(decimal(n)) == decimal(n),
    decreases n,
{
    if n < 10 {
        assert(decimal(n).drop_last() =~= Seq::empty());
        assert(decimal(n).last() != ',');
        assert(without_commas(decimal(n).drop_last()) =~= Seq::empty());
        assert(without_commas(decimal(n)) =~= decimal(n));
    } else {
        digits_have_no_commas(n / 10);
        assert(decimal(n).drop_last() =~= decimal(n / 10));
    }
}

proof fn the_last_three_digits(n: nat)
    requires
        n >= 1000,
    ensures
        decimal(n) == decimal(n / 1000) + three_digits(n % 1000),
        three_digits(n % 1000).len() == 3,
        without_commas(three_digits(n % 1000)) == three_digits(n % 1000),
{
    let (a, b, c) = (n % 10, n / 10 % 10, n / 100 % 10);
    let r = n % 1000;
    assert(n / 10 / 10 == n / 100 && n / 100 / 10 == n / 1000);
    assert(r % 10 == a && r / 10 % 10 == b && r / 100 == c);
    assert(decimal(n) == decimal(n / 10).push(digit(a)));
    assert(decimal(n / 10) == decimal(n / 100).push(digit(b)));
    assert(decimal(n / 100) == decimal(n / 1000).push(digit(c)));
    reveal_strlit("00");
    reveal_strlit("0");
    assert(three_digits(r) =~= seq![digit(c), digit(b), digit(a)]) by {
        reveal_with_fuel(decimal, 4);
        if r < 10 {
            assert(decimal(r) =~= seq![digit(a)]);
        } else if r < 100 {
            assert(decimal(r) =~= seq![digit(b), digit(a)]);
        } else {
            assert(r / 10 / 10 == c);
            assert(decimal(r) =~= seq![digit(c), digit(b), digit(a)]);
        }
    }
    assert(decimal(n) =~= decimal(n / 1000) + three_digits(r));
    let t = three_digits(r);
    assert(t.drop_last() =~= seq![digit(c), digit(b)]);
    assert(t.drop_last().drop_last() =~= seq![digit(c)]);
    assert(t.drop_last().drop_last().drop_last() =~= Seq::empty());
    reveal_with_fuel(without_commas, 4);
    assert(without_commas(t) =~= t);
}

/// A number with commas is the number, with a comma before every third digit from the right.
pub proof fn commas_stand_before_every_third_digit(n: nat)
    ensures
        without_commas(with_commas(n)) == decimal(n),
        n < 1000 ==> with_commas(n) == decimal(n),
        n >= 1000 ==> {
            let s = with_commas(n);
            &&& s.len() >= 5
            &&& s[s.len() - 4] == ','
            &&& s.take(s.len() - 4) == with_commas(n / 1000)
        },
    decreases n,
{
    if n < 1000 {
        digits_have_no_commas(n);
    } else {
        commas_stand_before_every_third_digit(n / 1000);
        the_last_three_digits(n);
        decimal_is_nonempty(n / 1000);
        reveal_strlit(",");
        let head = with_commas(n / 1000);
        let tail = three_digits(n % 1000);
        commas_go_from_each(head + ","@, tail);
        commas_go_from_each(head, ","@);
        assert(","@.drop_last() =~= Seq::empty());
        assert(without_commas(","@) =~= Seq::empty()) by {
            reveal_with_fuel(without_commas, 2);
        }
        assert(without_commas(head) + without_commas(","@) =~= without_commas(head));
        let s = with_commas(n);
        assert(s.take(s.len() - 4) =~= head);
        if head.len() == 0 {
            assert(head =~= Seq::empty());
            assert(without_commas(head).len() == 0);
        }
    }
}

/// Whether a character stays as it is in an address.
pub open spec fn is_safe(c: char) -> bool {
    'a' <= c <= 'z' || 'A' <= c <= 'Z' || '0' <= c <= '9' || c == '-' || c == '.' || c == '_' || c == '~'
}

/// Letters, digits and four signs stay as they are in an address; any other byte is a percent sign and
/// two hexadecimal digits, the higher first.
pub proof fn an_address_has_safe_bytes_alone(bytes: Seq<u8>, b: u8)
    ensures
        is_safe(b as char) ==> percent_encoded(bytes.push(b)) == percent_encoded(
            bytes,
        ).push(b as char),
        !is_safe(b as char) ==> percent_encoded(bytes.push(b)) == percent_encoded(bytes)
            + "%"@ + seq![
            "0123456789ABCDEF"@[b as int / 16],
            "0123456789ABCDEF"@[b as int % 16],
        ],
        percent_encoded(Seq::empty()).len() == 0,
{
    assert(bytes.push(b).drop_last() =~= bytes);
    reveal_strlit("0123456789ABCDEF");
    reveal_strlit("%");
    let (x, y) = (b as int / 16, b as int % 16);
    the_digits_of_a_byte(x);
    the_digits_of_a_byte(y);
    if is_unreserved(b) {
        assert(percent_encoded(bytes) + seq![b as char] =~= percent_encoded(bytes).push(b as char));
    } else {
        assert(percent_encoded(bytes) + seq!['%', hex_digit(x), hex_digit(y)] =~= percent_encoded(bytes)
            + "%"@ + seq![hex_digit(x), hex_digit(y)]);
    }
}

proof fn the_digits_of_a_byte(d: int)
    requires
        0 <= d < 16,
    ensures
        hex_digit(d) == "0123456789ABCDEF"@[d],
{
    reveal_strlit("0123456789ABCDEF");
}

/// A game's page is that of its app, and there is one exactly if it has an app.
pub proof fn a_game_has_the_page_of_its_app(app: u32)
    ensures
        store_page(None) is None,
        store_page(Some(app)) == Some("https://store.steampowered.com/app/"@ + decimal(app as nat)),
{
}

// ---- The foot ---------------------------------------------------------------------------------

/// The foot names the cycle and the slot. It says what was cut, and nothing of what was not.
pub proof fn the_foot_says_what_was_cut(cycle: u32, slot: Seq<char>, kind: PreviewKind)
    ensures
        ({
            let plain = "the attic whispers · cycle "@ + decimal(cycle as nat) + " · "@ + slot;
            &&& footer(cycle, slot, None, false, false) == plain
            &&& footer(cycle, slot, None, true, false) == plain + " · trimmed to fit"@
            &&& footer(cycle, slot, None, false, true) == plain + " · trailer link cut"@
            &&& footer(cycle, slot, None, true, true) == plain + " · trimmed to fit"@
                + " · trailer link cut"@
            &&& footer(cycle, slot, Some(kind), false, false) == "🔍 preview — "@ + kind.text()
                + " · "@ + plain
        }),
{
    reveal_strlit("");
    let plain = "the attic whispers · cycle "@ + decimal(cycle as nat) + " · "@ + slot;
    assert(footer(cycle, slot, None, false, false) =~= plain);
    assert(footer(cycle, slot, None, true, false) =~= plain + " · trimmed to fit"@);
    assert(footer(cycle, slot, None, false, true) =~= plain + " · trailer link cut"@);
    assert(footer(cycle, slot, None, true, true) =~= plain + " · trimmed to fit"@
        + " · trailer link cut"@);
    assert(footer(cycle, slot, Some(kind), false, false) =~= "🔍 preview — "@ + kind.text() + " · "@
        + plain);
}

// ---- The fields -------------------------------------------------------------------------------

/// The publishers are named behind the developers, unless there are none or they are the same.
pub proof fn the_makers_are_named_once(d: DetailView)
    ensures
        ({
            let devs = joined_by(d.developers, ", "@);
            let pubs = joined_by(d.publishers, ", "@);
            &&& pubs.len() == 0 ==> by_line(d) == devs
            &&& pubs == devs ==> by_line(d) == devs
            &&& pubs.len() > 0 && pubs != devs ==> by_line(d) == devs + " · "@ + pubs
        }),
{
}

/// A page gives up to three fields: who made the game, when it was released, and its tags, or its genres
/// where it has none. What is not known is left out.
pub proof fn a_page_gives_what_it_knows(d: DetailView)
    ensures
        ({
            let f = detail_fields(d);
            let by = by_line(d).len() > 0;
            let n: int = if by {
                1
            } else {
                0
            };
            &&& by ==> f.len() > 0 && f[0] == ("by"@, by_line(d))
            &&& d.release_date matches Some(r) ==> f.len() > n && f[n] == ("released"@, r)
            &&& d.tags.len() > 0 ==> f.len() > 0 && f.last() == ("tags"@, joined_by(d.tags, " · "@))
            &&& d.tags.len() == 0 && d.genres.len() > 0 ==> f.len() > 0 && f.last() == (
                "tags"@,
                joined_by(d.genres, " · "@),
            )
            &&& f.len() == n + (if d.release_date is Some {
                1int
            } else {
                0
            }) + (if d.tags.len() > 0 || d.genres.len() > 0 {
                1int
            } else {
                0
            })
        }),
{
}

/// The reviews are told of by what is known: all of them first, with the latest in brackets; the latest
/// alone where only they are known.
pub proof fn the_reviews_are_told_of_as_they_are_known(
    o: ReviewSummary,
    r: RecentReviews,
    percent: u64,
)
    ensures
        review_line(None, None, percent) is None,
        recent_line(r) == decimal(r.percent_positive as nat) + "% of "@ + with_commas(r.count as nat)
            + " recent"@,
        review_line(None, Some(r), percent) == Some(recent_line(r)),
        review_line(Some(o), None, percent) == Some(
            o.desc@ + " — "@ + decimal(percent as nat) + "% of "@ + with_commas(
                o.total_reviews as nat,
            ),
        ),
        review_line(Some(o), Some(r), percent) == Some(
            o.desc@ + " — "@ + decimal(percent as nat) + "% of "@ + with_commas(
                o.total_reviews as nat,
            ) + " ("@ + recent_line(r) + ")"@,
        ),
{
    let head = o.desc@ + " — "@ + decimal(percent as nat) + "% of "@ + with_commas(
        o.total_reviews as nat,
    );
    assert(head + Seq::empty() =~= head);
    assert(head + (" ("@ + recent_line(r) + ")"@) =~= head + " ("@ + recent_line(r) + ")"@);
}

/// A card ends with the bundle that the game is from. What the app's page and its reviews say comes
/// before, where anything is known of the app.
pub proof fn a_card_ends_with_its_bundle(game: Game, c: CacheView, percent: u64)
    ensures
        card_fields(game, None, percent) == seq![
            ("bundle"@, game.bundle@ + " ("@ + game.key_type@ + ")"@),
        ],
        card_fields(game, Some(c), percent).last() == (
            "bundle"@,
            game.bundle@ + " ("@ + game.key_type@ + ")"@,
        ),
        review_line(c.overall, c.recent, percent) matches Some(l) ==> ({
            let f = card_fields(game, Some(c), percent);
            f.len() >= 2 && f[f.len() - 2] == ("reviews"@, l)
        }),
        c.detail matches Some(d) ==> ({
            let f = card_fields(game, Some(c), percent);
            f.len() > detail_fields(d).len() && f.take(detail_fields(d).len() as int)
                == detail_fields(d)
        }),
{
    assert(card_fields(game, None, percent) =~= seq![
        ("bundle"@, game.bundle@ + " ("@ + game.key_type@ + ")"@),
    ]);
    if let Some(d) = c.detail {
        let f = card_fields(game, Some(c), percent);
        assert(f.take(detail_fields(d).len() as int) =~= detail_fields(d));
    }
}

// ---- The description --------------------------------------------------------------------------

/// A description has all the room that the channel leaves it: 4096 characters, and 6000 with everything
/// else.
pub proof fn a_description_has_the_room_that_is_left(fixed: int)
    requires
        fixed >= 0,
    ensures
        0 <= desc_budget(fixed) <= 4096,
        fixed <= 6000 ==> fixed + desc_budget(fixed) <= 6000,
        fixed <= 1904 ==> desc_budget(fixed) == 4096,
        1904 <= fixed <= 6000 ==> fixed + desc_budget(fixed) == 6000,
        fixed > 6000 ==> desc_budget(fixed) == 0,
{
}

/// There is a link to the trailer exactly if there is a trailer and a page to see it on.
pub proof fn a_trailer_is_linked_where_it_can_be_seen(d: DetailView, page: Seq<char>)
    ensures
        d.video_hls_url is None ==> trailer_link(d, Some(page)).len() == 0,
        trailer_link(d, None).len() == 0,
        d.video_hls_url is Some ==> trailer_link(d, Some(page)) == "\n\n[🎬 watch the trailer]("@ + page
            + ")"@,
{
}

/// What fits is said whole. Otherwise the text gives way before the link does; only a link that would
/// not fit at all is left out, and that is noted.
pub proof fn the_text_gives_way_before_the_link(d: DetailView, page: Option<Seq<char>>, budget: int)
    requires
        budget >= 0,
    ensures
        ({
            let link = trailer_link(d, page);
            let s = d.short_description;
            let r = described(d, page, budget);
            &&& s.len() + link.len() <= budget ==> r.text == s + link && !r.trimmed && !r.trailer_cut
            &&& link.len() < budget && budget < s.len() + link.len() ==> r.trimmed && !r.trailer_cut
                && r.text.len() == budget && r.text.skip(budget - link.len()) == link && r.text[budget
                - link.len() - 1] == '…'
            &&& link.len() > budget ==> r.trimmed && r.trailer_cut && r.text == cut(s, budget as nat)
        }),
{
    let link = trailer_link(d, page);
    let s = d.short_description;
    let r = described(d, page, budget);
    if link.len() <= budget {
        let body = cut(s, (budget - link.len()) as nat);
        if link.len() < budget && budget < s.len() + link.len() {
            assert(body.len() == budget - link.len());
            assert(r.text.skip(budget - link.len()) =~= link);
            assert(r.text[budget - link.len() - 1] == body.last());
            assert(body.len() != s.len());
        }
    }
}

// ---- The pictures -----------------------------------------------------------------------------

/// The picture is the first screenshot in full, else the header of the page, else the artwork of the
/// order. The small one is the still of the trailer, else the header, else the artwork, and is left out
/// where it would show the same.
pub proof fn a_card_shows_the_best_picture(game: Game, c: CacheView, d: DetailView)
    requires
        c.detail == Some(d),
    ensures
        ({
            let art = opt_view(game.artwork_url);
            let image = card_image(game, Some(c));
            let small = card_thumbnail(game, Some(c));
            &&& d.screenshots.len() > 0 ==> image == Some(d.screenshots[0].1)
            &&& d.screenshots.len() == 0 && d.header_image is Some ==> image == d.header_image
            &&& d.screenshots.len() == 0 && d.header_image is None ==> image == art
            &&& d.video_thumbnail is Some && d.video_thumbnail != image ==> small
                == d.video_thumbnail
            &&& d.video_thumbnail is Some && d.video_thumbnail == image ==> small is None
            &&& d.video_thumbnail is None && d.header_image is Some && d.header_image != image
                ==> small == d.header_image
            &&& d.video_thumbnail is None && d.header_image is None && art != image ==> small == art
            &&& small is Some ==> small != image
        }),
{
}

/// Where nothing is known of the app, the picture is the artwork of the order, and there is no other.
pub proof fn without_a_page_the_artwork_is_shown(game: Game, c: CacheView)
    requires
        c.detail is None,
    ensures
        card_image(game, None) == opt_view(game.artwork_url),
        card_image(game, Some(c)) == opt_view(game.artwork_url),
        card_thumbnail(game, None) is None,
        card_thumbnail(game, Some(c)) is None,
{
}

/// Screenshots are shown in galleries of four, the first with the card, and in three of them at most:
/// there are ten boxes at most, and one where there is no page or no second screenshot.
pub proof fn screenshots_are_shown_by_fours(page: Seq<char>, i: int, n: nat)
    ensures
        0 <= i <= 3 ==> gallery_url(page, i) == page,
        4 <= i <= 7 ==> gallery_url(page, i) == page + "#more"@,
        8 <= i <= 9 ==> gallery_url(page, i) == page + "#more2"@,
        box_count(None, n) == 1,
        n <= 1 ==> box_count(Some(page), n) == 1,
        1 <= n <= 10 ==> box_count(Some(page), n) == n,
        n >= 10 ==> box_count(Some(page), n) == 10,
{
}

// ---- The line above ---------------------------------------------------------------------------

/// The line above the card names the game and its bundle, and leads to the catalog with the start of the
/// title looked for. A preview says so first.
pub proof fn the_line_leads_to_the_game(game: Game, site: Seq<char>, kind: PreviewKind)
    requires
        game.title@.len() <= 120,
        game.bundle@.len() <= 180,
    ensures
        ({
            let line = "🕯️ *from the attic…*\n**"@ + game.title@ + "** has been sleeping in *"@
                + game.bundle@ + "*.\ncut a link for someone ♡ → "@ + site + "/admin/catalog?q="@
                + percent_encoded(encode_utf8(game.title@));
            &&& whisper_text(game, site, None) == line
            &&& whisper_text(game, site, Some(kind)) == "🔍 *preview — "@ + kind.text()
                + ", not a new whisper*\n"@ + line
        }),
{
    reveal_strlit("");
    let line = "🕯️ *from the attic…*\n**"@ + game.title@ + "** has been sleeping in *"@ + game.bundle@
        + "*.\ncut a link for someone ♡ → "@ + site + "/admin/catalog?q="@ + percent_encoded(
        encode_utf8(game.title@),
    );
    assert(whisper_text(game, site, None) =~= line);
    assert(whisper_text(game, site, Some(kind)) =~= "🔍 *preview — "@ + kind.text()
        + ", not a new whisper*\n"@ + line);
}

/// A card shows the game's title, leads to its page, and has its fields in a row, each whole as long as
/// the channel takes it.
pub proof fn a_card_shows_its_game(
    boxes: Seq<Embed>,
    game: Game,
    steam: Option<CacheView>,
    percent: u64,
    cycle: u32,
    slot: Seq<char>,
    preview: Option<PreviewKind>,
    content_trimmed: bool,
    i: int,
)
    requires
        are_boxes(boxes, game, steam, percent, cycle, slot, preview, content_trimmed),
    ensures
        boxes.len() > 0,
        game.title@.len() <= 256 ==> opt_view(boxes[0].title) == Some(game.title@),
        opt_view(boxes[0].url) == store_page(game.steam_app_id),
        opt_view(boxes[0].image) == card_image(game, steam),
        opt_view(boxes[0].thumbnail) == card_thumbnail(game, steam),
        boxes[0].fields@.len() == card_fields(game, steam, percent).len(),
        0 <= i < boxes[0].fields@.len() ==> boxes[0].fields@[i].inline && (card_fields(
            game,
            steam,
            percent,
        )[i].1.len() <= 1024 ==> boxes[0].fields@[i].value@ == card_fields(
            game,
            steam,
            percent,
        )[i].1) && (card_fields(game, steam, percent)[i].0.len() <= 256
            ==> boxes[0].fields@[i].name@ == card_fields(game, steam, percent)[i].0),
{
}

} // verus!
