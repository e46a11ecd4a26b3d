//! What a look for games on offer comes to, in the terms of the months, their pages and the orders.
use vstd::prelude::*;
use crate::calendar::{date_at, day_at};
use crate::claim_flow::Tries;
use crate::discovery::{
    any_mark, is_offered_row, is_stray, is_unclaimed, listed_gamekey, month_at, month_gamekey,
    month_slug, search_follows, slug_product, unclaimed, Found, Month, MonthPage, OfferedGame,
    OrderIndex, Search, SearchAt, SearchReply, SearchRequest, SearchStep,
};
use crate::humble::HumbleError;
use crate::model::{Game, GameStatus};
use crate::reconcile::Mend;
use crate::session::Heal;
use crate::shelf::Write;
use crate::text::decimal;

verus! {

// ---- Months by name ---------------------------------------------------------------------------

/// The name of a month of the year, in lower case.
pub open spec fn name_of_month(m: int) -> Seq<char> {
    if m == 1 {
        "january"@
    } else if m == 2 {
        "february"@
    } else if m == 3 {
        "march"@
    } else if m == 4 {
        "april"@
    } else if m == 5 {
        "may"@
    } else if m == 6 {
        "june"@
    } else if m == 7 {
        "july"@
    } else if m == 8 {
        "august"@
    } else if m == 9 {
        "september"@
    } else if m == 10 {
        "october"@
    } else if m == 11 {
        "november"@
    } else {
        "december"@
    }
}

/// A month goes by its name and its year. The month before January is December of the year before, and
/// any other is in the same year.
pub proof fn a_month_goes_by_its_name_and_year(t: int, y: int, m: int, d: int)
    requires
        date_at(day_at(t)) == (y, m, d),
        1 <= m <= 12,
        y > 0,
    ensures
        month_slug(month_at(t)) == name_of_month(m) + "-"@ + decimal(y as nat),
        m > 1 ==> month_slug(month_at(t) - 1) == name_of_month(m - 1) + "-"@ + decimal(y as nat),
        m == 1 ==> month_slug(month_at(t) - 1) == "december"@ + "-"@ + decimal((y - 1) as nat),
{
    assert((y * 12 + m - 1) % 12 == m - 1 && (y * 12 + m - 1) / 12 == y);
    assert(m > 1 ==> (y * 12 + m - 2) % 12 == m - 2 && (y * 12 + m - 2) / 12 == y);
    assert(m == 1 ==> (y * 12 + m - 2) % 12 == 11 && (y * 12 + m - 2) / 12 == y - 1);
}

/// The product of a month is its name with underscores for hyphens, and an ending.
pub proof fn a_product_is_named_after_its_month(slug: Seq<char>, i: int)
    ensures
        slug_product(slug).len() == slug.len() + 7,
        slug_product(slug).skip(slug.len() as int) == "_choice"@,
        0 <= i < slug.len() && slug[i] == '-' ==> slug_product(slug)[i] == '_',
        0 <= i < slug.len() && slug[i] != '-' ==> slug_product(slug)[i] == slug[i],
{
    reveal_strlit("_choice");
    assert(slug_product(slug).skip(slug.len() as int) =~= "_choice"@);
}

// ---- Which order a month belongs to -----------------------------------------------------------

/// The order of a month is the one that its page names. Where it names none it is the one that the list
/// names for it, by the last entry that does; and where that names none either, the one whose product is
/// the month's.
pub proof fn the_page_comes_before_the_list_and_the_list_before_the_orders(
    page: MonthPage,
    months: Seq<Month>,
    index: OrderIndex,
    slug: Seq<char>,
    i: int,
)
    ensures
        page.gamekey matches Some(g) ==> month_gamekey(page, months, index, slug) == Some(g@),
        page.gamekey is None && 0 <= i < months.len() && months[i].slug@ == slug && (
        months[i].gamekey matches Some(g) && forall|k: int|
            i < k < months.len() ==> (#[trigger] months[k]).slug@ != slug || months[k].gamekey
                is None) ==> month_gamekey(page, months, index, slug) == Some(
            months[i].gamekey->0@,
        ),
        page.gamekey is None && (forall|k: int|
            0 <= k < months.len() ==> (#[trigger] months[k]).slug@ != slug || months[k].gamekey
                is None) ==> month_gamekey(page, months, index, slug) == (
        if index.orders().contains_key(slug_product(slug)) {
            Some(index.orders()[slug_product(slug)])
        } else {
            None
        }),
{
    the_last_entry_counts(months, slug, months.len(), i);
}

proof fn the_last_entry_counts(months: Seq<Month>, slug: Seq<char>, n: nat, i: int)
    requires
        n <= months.len(),
    ensures
        0 <= i < n && months[i].slug@ == slug && months[i].gamekey is Some && (forall|k: int|
            i < k < n ==> (#[trigger] months[k]).slug@ != slug || months[k].gamekey is None)
            ==> listed_gamekey(months, slug, n) == Some(months[i].gamekey->0@),
        (forall|k: int|
            0 <= k < n ==> (#[trigger] months[k]).slug@ != slug || months[k].gamekey is None)
            ==> listed_gamekey(months, slug, n) is None,
    decreases n,
{
    if n > 0 {
        the_last_entry_counts(months, slug, (n - 1) as nat, i);
    }
}

// ---- What a month still offers ----------------------------------------------------------------

/// A game is still on offer exactly if it was held against every key of the order, and none matches it.
pub proof fn a_game_is_on_offer_until_a_key_matches(
    marks: Seq<Vec<bool>>,
    tpks: nat,
    n: nat,
    i: int,
    t: int,
)
    requires
        0 <= i < n,
    ensures
        i < marks.len() && marks[i]@.len() >= tpks && (forall|k: int|
            0 <= k < tpks ==> !#[trigger] marks[i]@[k]) ==> unclaimed(marks, tpks, n).contains(i),
        i < marks.len() && 0 <= t < tpks && t < marks[i]@.len() && marks[i]@[t] ==> !unclaimed(
            marks,
            tpks,
            n,
        ).contains(i),
        i >= marks.len() || marks[i]@.len() < tpks ==> !unclaimed(marks, tpks, n).contains(i),
{
    unclaimed_holds(marks, tpks, n);
    let all = unclaimed(marks, tpks, n);
    if all.contains(i) {
        let k = choose|k: int| 0 <= k < all.len() && all[k] == i;
        assert(is_unclaimed(all[k], marks, tpks));
    }
    if i < marks.len() && marks[i]@.len() >= tpks && (forall|k: int|
        0 <= k < tpks ==> !#[trigger] marks[i]@[k]) {
        assert(is_unclaimed(i, marks, tpks));
    }
}

proof fn unclaimed_holds(marks: Seq<Vec<bool>>, tpks: nat, n: nat)
    ensures
        ({
            let all = unclaimed(marks, tpks, n);
            &&& forall|k: int|
                0 <= k < all.len() ==> 0 <= #[trigger] all[k] < n && is_unclaimed(
                    all[k],
                    marks,
                    tpks,
                )
            &&& forall|j: int, k: int|
                0 <= j < k < all.len() ==> #[trigger] all[j] < #[trigger] all[k]
            &&& forall|i: int|
                0 <= i < n && #[trigger] is_unclaimed(i, marks, tpks) ==> all.contains(i)
        }),
    decreases n,
{
    if n > 0 {
        let m = (n - 1) as nat;
        unclaimed_holds(marks, tpks, m);
        let head = unclaimed(marks, tpks, m);
        let all = unclaimed(marks, tpks, n);
        assert forall|i: int| 0 <= i < n && #[trigger] is_unclaimed(
            i,
            marks,
            tpks,
        ) implies all.contains(i) by {
            if i < m {
                let k = choose|k: int| 0 <= k < head.len() && head[k] == i;
                assert(all[k] == i);
            } else {
                assert(all[all.len() - 1] == i);
            }
        }
    }
}

/// A key strays exactly if it bears the name of a pick and matches no game on offer.
pub proof fn a_key_of_a_pick_strays_unless_a_game_matches(
    t: int,
    choice: Seq<bool>,
    marks: Seq<Vec<bool>>,
    n: nat,
    i: int,
)
    ensures
        !choice[t] ==> !is_stray(t, choice, marks, n),
        0 <= i < n && i < marks.len() && t < marks[i]@.len() && marks[i]@[t] ==> !is_stray(
            t,
            choice,
            marks,
            n,
        ),
        choice[t] && (forall|k: int|
            0 <= k < n && k < marks.len() ==> t >= (#[trigger] marks[k])@.len() || !marks[k]@[t])
            ==> is_stray(t, choice, marks, n),
{
}

/// A game on offer is put on the shelf under the month and its order, open to be picked, and with
/// nothing else known of it.
pub proof fn a_row_on_offer_is_open(g: Game, gamekey: Seq<char>, month: String, offered: OfferedGame)
    requires
        is_offered_row(g, gamekey, month, offered),
    ensures
        g.id@ == crate::model::game_id_text(gamekey, offered.machine_name@),
        g.title@ == offered.title@ && g.bundle@ == month@ && g.gamekey@ == gamekey && g.machine_name@
            == offered.machine_name@,
        g.key_type@ == "steam"@ && g.giftable && g.requires_choice && g.status
            == GameStatus::Available,
        !g.hidden && !g.owned_by_ben && g.claim_id is None && g.steam_app_id is None
            && g.appid_source is None && g.artwork_url is None && g.keyindex == 0,
{
}

// ---- The pass ---------------------------------------------------------------------------------

/// The pass takes up target `j` if there is one, and ends otherwise.
pub open spec fn takes_up(out: SearchStep, s: Search<'_>, j: int) -> bool {
    &&& !out.tell_dead
    &&& j < s.targets@.len() ==> out.request is CheckClock && out.at == (SearchAt::Timing {
        j: j as usize,
    })
    &&& j >= s.targets@.len() ==> out.request is Done && out.at is Over
}

/// The pass ends with a dead session, and the operator is told.
pub open spec fn ends_dead(out: SearchStep) -> bool {
    out.request is Done && out.at is Over && out.tell_dead && !out.mend.cookie_ok
}

/// With the list the pass starts at the first month. A dead session is healed once if there was no
/// login yet, and ends the pass otherwise; any other failure ends it without a word.
pub proof fn the_list_starts_the_pass(
    out: SearchStep,
    s: Search<'_>,
    tries: Tries,
    mend: Mend,
    found: Found,
    r: Result<Vec<Month>, HumbleError>,
)
    requires
        search_follows(out, s, SearchAt::Listing { tries }, mend, found, SearchReply::Listed(r)),
    ensures
        out.found == found,
        r is Ok ==> takes_up(out, s, 0) && out.mend == mend,
        r matches Err(e) ==> (e is Unauthorized && tries == (Tries::First { may_heal: true })
            ==> out.request is Login && out.at is ListHealing) && (e is Unauthorized && tries != (
        Tries::First { may_heal: true }) ==> ends_dead(out)) && (!(e is Unauthorized) ==> out.request
            is Done && out.at is Over && !out.tell_dead && out.mend == mend),
{
}

/// After a login the pass asks again for what it was denied; without one it ends. The cookie counts as
/// well exactly if later runs will have it.
pub proof fn a_login_repeats_what_was_denied(
    out: SearchStep,
    s: Search<'_>,
    at: SearchAt,
    mend: Mend,
    found: Found,
    h: Heal,
)
    requires
        search_follows(out, s, at, mend, found, SearchReply::LoggedIn(h)),
    ensures
        out.found == found,
        out.mend.healed,
        h == Heal::Failed ==> ends_dead(out),
        h != Heal::Failed ==> !out.tell_dead && out.mend.cookie_ok == (h == Heal::Persisted) && (
        at is ListHealing ==> out.request is ListMonths) && (at matches SearchAt::Healing { j } ==> (
        out.request matches SearchRequest::ReadMonth { slug } && slug@
            == s.targets@[j as int].slug@)),
{
}

/// A pass that has taken too long ends; otherwise the month is asked for, by the name it was listed or
/// guessed under. Only a month that was listed may be healed for, and only if there was no login yet.
pub proof fn each_month_is_asked_for_in_time(
    out: SearchStep,
    s: Search<'_>,
    j: usize,
    mend: Mend,
    found: Found,
    late: bool,
)
    requires
        search_follows(out, s, SearchAt::Timing { j }, mend, found, SearchReply::Late(late)),
    ensures
        out.found == found && out.mend == mend && !out.tell_dead,
        late ==> out.request is Done && out.at is Over,
        !late ==> (out.request matches SearchRequest::ReadMonth { slug } && slug@
            == s.targets@[j as int].slug@) && (out.at matches SearchAt::Reading { j: k, tries } && k
            == j && tries == (Tries::First {
            may_heal: !s.targets@[j as int].probe && !mend.healed,
        })),
{
}

/// A page that can be redeemed from, and whose order is known and was read, is held against the keys of
/// that order, and counts as processed; any other counts as skipped, and the next month is taken up.
pub proof fn a_month_is_looked_into_where_its_order_was_read(
    out: SearchStep,
    s: Search<'_>,
    j: usize,
    tries: Tries,
    mend: Mend,
    found: Found,
    page: MonthPage,
)
    requires
        search_follows(
            out,
            s,
            SearchAt::Reading { j, tries },
            mend,
            found,
            SearchReply::Month(Ok(page)),
        ),
        found.months_processed < u32::MAX,
        found.months_skipped < u32::MAX,
    ensures
        ({
            let key = month_gamekey(page, s.months@, *s.index, s.targets@[j as int].slug@);
            let usable = page.can_redeem_games && (key matches Some(k) && s.index.keys().contains_key(
                k,
            ));
            &&& out.mend == mend && out.found.written == found.written
            &&& usable ==> out.request is Match && (out.at matches SearchAt::Matching {
                j: j2,
                page: p2,
                gamekey,
            } && j2 == j && p2 == page && Some(gamekey@) == key) && out.found.months_processed
                == found.months_processed + 1 && out.found.months_skipped == found.months_skipped
            &&& !usable ==> takes_up(out, s, j + 1) && out.found.months_skipped
                == found.months_skipped + 1 && out.found.months_processed == found.months_processed
        }),
{
}

/// A month that cannot be read is passed over without a count. A dead session is healed for where that
/// may be; otherwise it ends the pass, unless the month was only guessed at.
pub proof fn a_month_that_cannot_be_read_is_passed_over(
    out: SearchStep,
    s: Search<'_>,
    j: usize,
    tries: Tries,
    mend: Mend,
    found: Found,
    e: HumbleError,
)
    requires
        search_follows(
            out,
            s,
            SearchAt::Reading { j, tries },
            mend,
            found,
            SearchReply::Month(Err(e)),
        ),
    ensures
        out.found == found,
        !(e is Unauthorized) ==> takes_up(out, s, j + 1) && out.mend == mend,
        e is Unauthorized && tries == (Tries::First { may_heal: true }) ==> out.request is Login
            && out.at == (SearchAt::Healing { j }) && out.mend == mend,
        e is Unauthorized && tries != (Tries::First { may_heal: true }) && s.targets@[j as int].probe
            ==> takes_up(out, s, j + 1) && out.mend == mend,
        e is Unauthorized && tries != (Tries::First { may_heal: true })
            && !s.targets@[j as int].probe ==> ends_dead(out),
{
}

/// The games to write are those on offer, in the order of the page; where there are none the next month
/// is taken up.
pub proof fn what_is_on_offer_is_written(
    out: SearchStep,
    s: Search<'_>,
    j: usize,
    page: MonthPage,
    gamekey: String,
    mend: Mend,
    found: Found,
    marks: Vec<Vec<bool>>,
    i: int,
)
    requires
        search_follows(
            out,
            s,
            SearchAt::Matching { j, page, gamekey },
            mend,
            found,
            SearchReply::Matched { marks },
        ),
        0 <= i < page.offered_games@.len(),
        i < marks@.len(),
        marks@[i]@.len() >= s.index.keys()[gamekey@].len(),
        forall|t: int| 0 <= t < s.index.keys()[gamekey@].len() ==> !#[trigger] marks@[i]@[t],
    ensures
        out.found == found && out.mend == mend,
        out.at matches SearchAt::Writing { open, k, gamekey: g, page: p, .. } && k == 0 && g@
            == gamekey@ && p == page && (exists|x: int| 0 <= x < open@.len() && #[trigger] open@[x]
            == i) && forall|x: int, y: int|
            0 <= x < y < open@.len() ==> #[trigger] open@[x] < #[trigger] open@[y],
        out.request matches SearchRequest::Write(row) && row.gamekey@ == gamekey@,
{
    let tpks = s.index.keys()[gamekey@].len();
    let n = page.offered_games@.len();
    let open = choose|open: Seq<usize>|
        open.map_values(|x: usize| x as int) == unclaimed(marks@, tpks, n) && #[trigger] out.writes(
            s,
            j as int,
            page,
            gamekey@,
            open,
            0,
            mend,
            found,
        );
    let all = open.map_values(|x: usize| x as int);
    a_game_is_on_offer_until_a_key_matches(marks@, tpks, n, i, 0);
    unclaimed_holds(marks@, tpks, n);
    let x = choose|x: int| 0 <= x < all.len() && all[x] == i;
    assert(open[x] == i);
    assert forall|x: int, y: int| 0 <= x < y < open.len() implies #[trigger] open[x]
        < #[trigger] open[y] by {
        assert(all[x] < all[y]);
    }
}

/// Where every game of a month was matched by a key nothing is written, and the next month is taken up.
pub proof fn a_month_with_nothing_on_offer_is_left(
    out: SearchStep,
    s: Search<'_>,
    j: usize,
    page: MonthPage,
    gamekey: String,
    mend: Mend,
    found: Found,
    marks: Vec<Vec<bool>>,
)
    requires
        search_follows(
            out,
            s,
            SearchAt::Matching { j, page, gamekey },
            mend,
            found,
            SearchReply::Matched { marks },
        ),
        forall|i: int|
            0 <= i < page.offered_games@.len() && i < marks@.len() ==> exists|t: int|
                0 <= t < s.index.keys()[gamekey@].len() && t < (#[trigger] marks@[i])@.len()
                    && #[trigger] marks@[i]@[t],
    ensures
        takes_up(out, s, j + 1),
        out.found == found && out.mend == mend,
{
    let tpks = s.index.keys()[gamekey@].len();
    let n = page.offered_games@.len();
    let open = choose|open: Seq<usize>|
        open.map_values(|x: usize| x as int) == unclaimed(marks@, tpks, n) && #[trigger] out.writes(
            s,
            j as int,
            page,
            gamekey@,
            open,
            0,
            mend,
            found,
        );
    unclaimed_holds(marks@, tpks, n);
    let all = unclaimed(marks@, tpks, n);
    assert(open.map_values(|x: usize| x as int).len() == open.len());
    if all.len() > 0 {
        let i = all[0];
        assert(is_unclaimed(i, marks@, tpks));
        assert(marks@[i]@.len() >= 0);
        let t = choose|t: int|
            0 <= t < tpks && t < marks@[i]@.len() && #[trigger] marks@[i]@[t];
        assert(any_mark(marks@[i]@, tpks));
    }
}

/// A game that was written counts, and one that was not does not. Either way the next game
/// follows, as it stands on the page, and after the last the next month.
pub proof fn one_game_follows_the_other(
    out: SearchStep,
    s: Search<'_>,
    j: usize,
    page: MonthPage,
    gamekey: String,
    open: Vec<usize>,
    k: usize,
    mend: Mend,
    found: Found,
    w: Write,
)
    requires
        search_follows(
            out,
            s,
            SearchAt::Writing { j, page, gamekey, open, k },
            mend,
            found,
            SearchReply::Wrote(w),
        ),
        found.written < u32::MAX,
    ensures
        out.mend == mend,
        w == Write::Written ==> out.found.written == found.written + 1,
        w != Write::Written ==> out.found.written == found.written,
        out.found.months_processed == found.months_processed && out.found.months_skipped
            == found.months_skipped,
        k + 1 < open@.len() ==> (out.request matches SearchRequest::Write(row) && row.machine_name
            == page.offered_games@[open@[k + 1] as int].machine_name && row.gamekey@ == gamekey@
            && row.bundle == page.title) && (out.at matches SearchAt::Writing { k: k2, .. } && k2 == k
            + 1),
        k + 1 >= open@.len() ==> takes_up(out, s, j + 1),
{
}

} // verus!
