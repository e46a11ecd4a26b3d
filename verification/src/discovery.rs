//! Games that a monthly pick can still be spent on.
//!
//! Such a game has no key yet, so no order shows it. A pass asks for the newest months by name, and
//! for those that the subscription lists, and puts on the shelf what they still offer. It only ever
//! adds rows.
use vstd::prelude::*;
use vstd::string::*;
use crate::calendar::{date_at, date_of, day_at, day_of};
use crate::claim_flow::{key_names, names, Tries};
use crate::humble::{HumbleError, KeyEntry, Order};
use crate::model::{game_id, game_id_text, is_instant, Game, GameStatus};
use crate::reconcile::Mend;
use crate::select::selected;
use crate::session::Heal;
use crate::shelf::{is_order_row, route_goes_on, Route, StatusTable, Write};
use crate::text::{chars_of, decimal, decimal_of, opt_view, same, views};

verus! {

/// How many of the newest months are asked for by name.
pub const CHOICE_DISCOVERY_RECENT_PROBE: usize = 4;

/// How many pages of the subscription's list are read at most.
pub const CHOICE_DISCOVERY_MAX_PAGES: usize = 40;

// ---- Months by name ---------------------------------------------------------------------------

/// The name of a month, counted from 0.
pub open spec fn month_name(m: int) -> Seq<char> {
    if m == 0 {
        "january"@
    } else if m == 1 {
        "february"@
    } else if m == 2 {
        "march"@
    } else if m == 3 {
        "april"@
    } else if m == 4 {
        "may"@
    } else if m == 5 {
        "june"@
    } else if m == 6 {
        "july"@
    } else if m == 7 {
        "august"@
    } else if m == 8 {
        "september"@
    } else if m == 9 {
        "october"@
    } else if m == 10 {
        "november"@
    } else {
        "december"@
    }
}

/// A number in decimal, with its sign if it is negative.
pub open spec fn signed(n: int) -> Seq<char> {
    if n < 0 {
        "-"@ + decimal((-n) as nat)
    } else {
        decimal(n as nat)
    }
}

/// The name under which a month is published, with months counted from the start of the year 0.
pub open spec fn month_slug(months: int) -> Seq<char> {
    month_name(months % 12) + "-"@ + signed(months / 12)
}

/// The month that a point in time falls in, counted from the start of the year 0.
pub open spec fn month_at(t: int) -> int {
    date_at(day_at(t)).0 * 12 + date_at(day_at(t)).1 - 1
}

/// The names of the month that a point in time falls in and of those before it, the newest first.
pub open spec fn recent_slugs(now: i128, count: nat) -> Seq<Seq<char>> {
    Seq::new(count, |i: int| month_slug(month_at(now as int) - i))
}

fn month_name_of(m: u8) -> (r: &'static str)
    ensures
        r@ == month_name(m as int),
{
    match m {
        0 => "january",
        1 => "february",
        2 => "march",
        3 => "april",
        4 => "may",
        5 => "june",
        6 => "july",
        7 => "august",
        8 => "september",
        9 => "october",
        10 => "november",
        _ => "december",
    }
}

/// A number in decimal, with its sign if it is negative.
pub fn signed_of(n: i64) -> (r: String)
    requires
        n > i64::MIN,
    ensures
        r@ == signed(n as int),
{
    if n < 0 {
        String::from_str("-").concat(decimal_of((-n) as u64).as_str())
    } else {
        decimal_of(n as u64)
    }
}

/// The names of the month that `now` falls in and of those before it, `count` in all, the newest
/// first.
pub fn recent_month_slugs(now: i128, count: usize) -> (r: Vec<String>)
    requires
        is_instant(now),
        count <= i32::MAX,
    ensures
        views(r@) == recent_slugs(now, count as nat),
{
    let (y, m, _) = date_of(day_of(now));
    let mut year: i64 = y as i64;
    let mut month: u8 = m - 1;
    let ghost months = month_at(now as int);
    let mut out: Vec<String> = Vec::new();
    for i in 0..count
        invariant
            count <= i32::MAX,
            -9999 <= y <= 9999,
            y - i <= year <= y,
            0 <= month < 12,
            year * 12 + month == months - i,
            out@.len() == i,
            forall|j: int| 0 <= j < i ==> (#[trigger] out@[j])@ == month_slug(months - j),
    {
        let slug = String::from_str(month_name_of(month)).concat("-").concat(
            signed_of(year).as_str(),
        );
        assert((months - i) % 12 == month && (months - i) / 12 == year);
        out.push(slug);
        if month == 0 {
            month = 11;
            year = year - 1;
        } else {
            month = month - 1;
        }
    }
    assert(views(out@) =~= recent_slugs(now, count as nat));
    out
}

// ---- What the orders have shown ---------------------------------------------------------------

/// The keys that each order holds, and the order behind each product. An order that could not be
/// read has left nothing here.
pub struct OrderIndex {
    tpks: Vec<(String, Vec<String>)>,
    products: Vec<(String, String)>,
}

/// The names of the keys of each order; the later of two entries counts.
pub open spec fn tpk_map(s: Seq<(String, Vec<String>)>) -> Map<Seq<char>, Seq<Seq<char>>>
    decreases s.len(),
{
    if s.len() == 0 {
        Map::empty()
    } else {
        tpk_map(s.drop_last()).insert(s.last().0@, views(s.last().1@))
    }
}

/// The order of each product; the later of two entries counts.
pub open spec fn product_map(s: Seq<(String, String)>) -> Map<Seq<char>, Seq<char>>
    decreases s.len(),
{
    if s.len() == 0 {
        Map::empty()
    } else {
        product_map(s.drop_last()).insert(s.last().0@, s.last().1@)
    }
}

impl OrderIndex {
    /// The names of the keys of each order that was read.
    pub closed spec fn keys(&self) -> Map<Seq<char>, Seq<Seq<char>>> {
        tpk_map(self.tpks@)
    }

    /// The order behind each product.
    pub closed spec fn orders(&self) -> Map<Seq<char>, Seq<char>> {
        product_map(self.products@)
    }

    pub fn new() -> (r: OrderIndex)
        ensures
            r.keys() == Map::<Seq<char>, Seq<Seq<char>>>::empty(),
            r.orders() == Map::<Seq<char>, Seq<char>>::empty(),
    {
        OrderIndex { tpks: Vec::new(), products: Vec::new() }
    }

    /// Notes an order that was read.
    pub fn record(&mut self, order: &Order)
        ensures
            final(self).keys() == old(self).keys().insert(order.gamekey@, names(order.keys@)),
            final(self).orders() == if order.product_machine_name@.len() == 0 {
                old(self).orders()
            } else {
                old(self).orders().insert(order.product_machine_name@, order.gamekey@)
            },
    {
        let ghost was = self.tpks@;
        self.tpks.push((order.gamekey.clone(), key_names(&order.keys)));
        assert(self.tpks@.drop_last() =~= was);
        if !order.product_machine_name.as_str().is_empty() {
            let ghost was = self.products@;
            self.products.push((order.product_machine_name.clone(), order.gamekey.clone()));
            assert(self.products@.drop_last() =~= was);
        }
    }

    /// The names of the keys of an order, if it was read.
    pub fn tpks_of(&self, gamekey: &str) -> (r: Option<&Vec<String>>)
        ensures
            match r {
                Some(v) => self.keys().contains_key(gamekey@) && self.keys()[gamekey@] == views(v@),
                None => !self.keys().contains_key(gamekey@),
            },
    {
        let mut i: usize = self.tpks.len();
        let ghost k = gamekey@;
        assert(self.tpks@.take(i as int) =~= self.tpks@);
        while i > 0
            invariant
                i <= self.tpks@.len(),
                k == gamekey@,
                tpk_map(self.tpks@).contains_key(k) <==> tpk_map(
                    self.tpks@.take(i as int),
                ).contains_key(k),
                tpk_map(self.tpks@).contains_key(k) ==> tpk_map(self.tpks@)[k] == tpk_map(
                    self.tpks@.take(i as int),
                )[k],
            decreases i,
        {
            assert(self.tpks@.take(i as int).drop_last() =~= self.tpks@.take(i - 1));
            i -= 1;
            if same(self.tpks[i].0.as_str(), gamekey) {
                return Some(&self.tpks[i].1);
            }
        }
        assert(self.tpks@.take(0) =~= Seq::empty());
        None
    }

    /// The order behind a product, if one was read.
    pub fn order_of(&self, product: &str) -> (r: Option<&String>)
        ensures
            match r {
                Some(v) => self.orders().contains_key(product@) && self.orders()[product@] == v@,
                None => !self.orders().contains_key(product@),
            },
    {
        let mut i: usize = self.products.len();
        let ghost k = product@;
        assert(self.products@.take(i as int) =~= self.products@);
        while i > 0
            invariant
                i <= self.products@.len(),
                k == product@,
                product_map(self.products@).contains_key(k) <==> product_map(
                    self.products@.take(i as int),
                ).contains_key(k),
                product_map(self.products@).contains_key(k) ==> product_map(self.products@)[k]
                    == product_map(self.products@.take(i as int))[k],
            decreases i,
        {
            assert(self.products@.take(i as int).drop_last() =~= self.products@.take(i - 1));
            i -= 1;
            if same(self.products[i].0.as_str(), product) {
                return Some(&self.products[i].1);
            }
        }
        assert(self.products@.take(0) =~= Seq::empty());
        None
    }
}

// ---- Which months are asked for ---------------------------------------------------------------

/// A month as the subscription lists it.
pub struct Month {
    pub slug: String,
    pub gamekey: Option<String>,
}

/// A game that a month offers.
pub struct OfferedGame {
    pub machine_name: String,
    pub title: String,
}

/// A month's own page.
pub struct MonthPage {
    pub title: String,
    pub gamekey: Option<String>,
    pub can_redeem_games: bool,
    pub offered_games: Vec<OfferedGame>,
}

/// A month to ask for. One that is asked for by name alone may not be there yet.
pub struct Target {
    pub slug: String,
    pub probe: bool,
}

/// The months to ask for: those by name, then the listed ones among the first `n` that are not there
/// yet. Each comes with whether it is asked for by name alone.
pub open spec fn targets_of(slugs: Seq<Seq<char>>, months: Seq<Month>, n: nat) -> Seq<(Seq<char>, bool)>
    decreases n,
{
    if n == 0 {
        Seq::new(slugs.len(), |i: int| (slugs[i], true))
    } else {
        let head = targets_of(slugs, months, (n - 1) as nat);
        let slug = months[n - 1].slug@;
        if exists|i: int| 0 <= i < head.len() && (#[trigger] head[i]).0 == slug {
            head
        } else {
            head.push((slug, false))
        }
    }
}

/// The targets, each by its name.
pub open spec fn target_views(targets: Seq<Target>) -> Seq<(Seq<char>, bool)> {
    Seq::new(targets.len(), |i: int| (targets[i].slug@, targets[i].probe))
}

/// The months to ask for.
pub fn choice_targets(slugs: &Vec<String>, months: &Vec<Month>) -> (r: Vec<Target>)
    ensures
        target_views(r@) == targets_of(views(slugs@), months@, months@.len()),
{
    let mut out: Vec<Target> = Vec::new();
    for i in 0..slugs.len()
        invariant
            target_views(out@) =~= targets_of(views(slugs@), months@, 0).take(i as int),
    {
        let t = Target { slug: slugs[i].clone(), probe: true };
        assert(target_views(out@.push(t)) =~= target_views(out@).push((t.slug@, true)));
        assert(targets_of(views(slugs@), months@, 0).take(i + 1) =~= targets_of(
            views(slugs@),
            months@,
            0,
        ).take(i as int).push((t.slug@, true)));
        out.push(t);
    }
    assert(target_views(out@) =~= targets_of(views(slugs@), months@, 0));
    for i in 0..months.len()
        invariant
            target_views(out@) == targets_of(views(slugs@), months@, i as nat),
    {
        let mut known: bool = false;
        for j in 0..out.len()
            invariant
                i < months@.len(),
                known <==> exists|k: int|
                    0 <= k < j && (#[trigger] target_views(out@)[k]).0 == months@[i as int].slug@,
        {
            if same(out[j].slug.as_str(), months[i].slug.as_str()) {
                assert(target_views(out@)[j as int].0 == months@[i as int].slug@);
                known = true;
            }
        }
        if !known {
            let t = Target { slug: months[i].slug.clone(), probe: false };
            assert(target_views(out@.push(t)) =~= target_views(out@).push((t.slug@, false)));
            out.push(t);
        }
    }
    out
}

/// Every listed month is asked for.
pub proof fn every_listed_month_is_asked_for(slugs: Seq<Seq<char>>, months: Seq<Month>, n: nat, i: int)
    requires
        0 <= i < n <= months.len(),
    ensures
        exists|k: int|
            0 <= k < targets_of(slugs, months, n).len() && (#[trigger] targets_of(
                slugs,
                months,
                n,
            )[k]).0 == months[i].slug@,
    decreases n,
{
    let head = targets_of(slugs, months, (n - 1) as nat);
    let all = targets_of(slugs, months, n);
    if i < n - 1 {
        every_listed_month_is_asked_for(slugs, months, (n - 1) as nat, i);
        let k = choose|k: int| 0 <= k < head.len() && (#[trigger] head[k]).0 == months[i].slug@;
        assert(all[k].0 == months[i].slug@);
    } else if exists|k: int| 0 <= k < head.len() && (#[trigger] head[k]).0 == months[n - 1].slug@ {
        let k = choose|k: int| 0 <= k < head.len() && (#[trigger] head[k]).0 == months[n - 1].slug@;
        assert(all[k].0 == months[i].slug@);
    } else {
        assert(all[all.len() - 1].0 == months[i].slug@);
    }
}

// ---- Which order a month belongs to -----------------------------------------------------------

/// What the order of a month calls its product.
pub open spec fn slug_product(slug: Seq<char>) -> Seq<char> {
    Seq::new(slug.len(), |i: int| if slug[i] == '-' { '_' } else { slug[i] }) + "_choice"@
}

fn slug_product_of(slug: &str) -> (r: String)
    ensures
        r@ == slug_product(slug@),
{
    let v = chars_of(slug);
    let mut out = String::new();
    for i in 0..v.len()
        invariant
            v@ == slug@,
            out@.len() == i,
            forall|j: int|
                0 <= j < i ==> out@[j] == if slug@[j] == '-' {
                    '_'
                } else {
                    slug@[j]
                },
    {
        out.push(
            if v[i] == '-' {
                '_'
            } else {
                v[i]
            },
        );
    }
    assert(out@ =~= Seq::new(slug@.len(), |i: int| if slug@[i] == '-' { '_' } else { slug@[i] }));
    out.append("_choice");
    out
}

/// The order that the list names for a month, among its first `n` entries; the later of two counts.
pub open spec fn listed_gamekey(months: Seq<Month>, slug: Seq<char>, n: nat) -> Option<Seq<char>>
    decreases n,
{
    if n == 0 {
        None
    } else if months[n - 1].slug@ == slug && months[n - 1].gamekey is Some {
        Some(months[n - 1].gamekey->0@)
    } else {
        listed_gamekey(months, slug, (n - 1) as nat)
    }
}

/// The order of a month: as its page has it, else as the list has it, else as the orders have it.
pub open spec fn month_gamekey(
    page: MonthPage,
    months: Seq<Month>,
    index: OrderIndex,
    slug: Seq<char>,
) -> Option<Seq<char>> {
    if page.gamekey is Some {
        opt_view(page.gamekey)
    } else if listed_gamekey(months, slug, months.len()) is Some {
        listed_gamekey(months, slug, months.len())
    } else if index.orders().contains_key(slug_product(slug)) {
        Some(index.orders()[slug_product(slug)])
    } else {
        None
    }
}

fn gamekey_of_month(page: &MonthPage, months: &Vec<Month>, index: &OrderIndex, slug: &str) -> (r:
    Option<String>)
    ensures
        opt_view(r) == month_gamekey(*page, months@, *index, slug@),
{
    if let Some(g) = &page.gamekey {
        return Some(g.clone());
    }
    let mut i: usize = months.len();
    while i > 0
        invariant
            i <= months@.len(),
            page.gamekey is None,
            listed_gamekey(months@, slug@, months@.len()) == listed_gamekey(
                months@,
                slug@,
                i as nat,
            ),
        decreases i,
    {
        i -= 1;
        if same(months[i].slug.as_str(), slug) {
            if let Some(g) = &months[i].gamekey {
                return Some(g.clone());
            }
        }
    }
    match index.order_of(slug_product_of(slug).as_str()) {
        Some(g) => Some(g.clone()),
        None => None,
    }
}

// ---- What a month still offers ----------------------------------------------------------------

/// Whether a row of marks says yes anywhere among its first `n`.
pub open spec fn any_mark(row: Seq<bool>, n: nat) -> bool {
    exists|t: int| 0 <= t < n && t < row.len() && #[trigger] row[t]
}

/// Whether no key matches the game at a position. A game that not every key was held against does not
/// count as one.
pub open spec fn is_unclaimed(i: int, marks: Seq<Vec<bool>>, tpks: nat) -> bool {
    i < marks.len() && marks[i]@.len() >= tpks && !any_mark(marks[i]@, tpks)
}

/// The positions, below `n`, of the games that no key of the order matches. `marks` says, for each
/// game on offer, which keys do.
pub open spec fn unclaimed(marks: Seq<Vec<bool>>, tpks: nat, n: nat) -> Seq<int> {
    selected(n, |i: int| is_unclaimed(i, marks, tpks))
}

fn has_mark(row: &Vec<bool>, n: usize) -> (r: bool)
    ensures
        r == any_mark(row@, n as nat),
{
    let mut t: usize = 0;
    while t < n && t < row.len()
        invariant
            t <= n,
            t <= row@.len(),
            forall|j: int| 0 <= j < t ==> !#[trigger] row@[j],
        decreases row@.len() - t,
    {
        if row[t] {
            assert(row@[t as int]);
            return true;
        }
        t += 1;
    }
    false
}

/// The positions of the games that are still on offer: those that no key of the order matches.
pub fn claimable(offered: usize, marks: &Vec<Vec<bool>>, tpks: usize) -> (r: Vec<usize>)
    ensures
        r@.len() == unclaimed(marks@, tpks as nat, offered as nat).len(),
        forall|k: int|
            0 <= k < r@.len() ==> r@[k] == unclaimed(marks@, tpks as nat, offered as nat)[k]
                && r@[k] < offered,
{
    let mut out: Vec<usize> = Vec::new();
    for i in 0..offered
        invariant
            out@.len() == unclaimed(marks@, tpks as nat, i as nat).len(),
            forall|k: int|
                0 <= k < out@.len() ==> out@[k] == unclaimed(marks@, tpks as nat, i as nat)[k]
                    && out@[k] < offered,
    {
        if i < marks.len() && marks[i].len() >= tpks && !has_mark(&marks[i], tpks) {
            out.push(i);
        }
    }
    out
}

/// Whether a key bears the name of a monthly pick, and yet matches none of the first `n` games on
/// offer. `choice` says which keys bear such a name.
pub open spec fn is_stray(t: int, choice: Seq<bool>, marks: Seq<Vec<bool>>, n: nat) -> bool {
    choice[t] && forall|i: int|
        0 <= i < n && i < marks.len() ==> !(t < (#[trigger] marks[i])@.len() && marks[i]@[t])
}

/// The positions, below `n`, of the keys that stray.
pub open spec fn strays_at(choice: Seq<bool>, marks: Seq<Vec<bool>>, offered: nat, n: nat) -> Seq<int> {
    selected(n, |t: int| is_stray(t, choice, marks, offered))
}

/// How many keys of an order bear the name of a monthly pick and match no game on offer: one pick may
/// yield several keys, or names may have changed.
pub fn strays(choice: &Vec<bool>, marks: &Vec<Vec<bool>>, offered: usize) -> (r: usize)
    ensures
        r == strays_at(choice@, marks@, offered as nat, choice@.len()).len(),
{
    let mut count: usize = 0;
    for t in 0..choice.len()
        invariant
            count <= t,
            count == strays_at(choice@, marks@, offered as nat, t as nat).len(),
    {
        if choice[t] {
            let mut matched: bool = false;
            let mut i: usize = 0;
            while i < offered && i < marks.len() && !matched
                invariant
                    t < choice@.len(),
                    choice@[t as int],
                    i <= marks@.len(),
                    matched ==> !is_stray(t as int, choice@, marks@, offered as nat),
                    !matched ==> forall|j: int|
                        0 <= j < i ==> !(t < (#[trigger] marks@[j])@.len() && marks@[j]@[t as int]),
                decreases marks@.len() - i,
            {
                if t < marks[i].len() && marks[i][t] {
                    matched = true;
                }
                i += 1;
            }
            if !matched {
                assert(is_stray(t as int, choice@, marks@, offered as nat));
                count += 1;
            }
        }
    }
    count
}

/// Whether `g` is the row of a game on offer.
pub open spec fn is_offered_row(g: Game, gamekey: Seq<char>, month: String, offered: OfferedGame) -> bool {
    &&& g.id@ == game_id_text(gamekey, offered.machine_name@)
    &&& g.title == offered.title
    &&& g.bundle == month
    &&& g.gamekey@ == gamekey
    &&& g.machine_name == offered.machine_name
    &&& g.key_type@ == "steam"@
    &&& g.giftable
    &&& !g.hidden
    &&& g.status == GameStatus::Available
    &&& g.claim_id is None
    &&& g.artwork_url is None
    &&& g.keyindex == 0
    &&& g.requires_choice
    &&& g.steam_app_id is None
    &&& g.appid_source is None
    &&& !g.owned_by_ben
}

/// The row of a game on offer. It has no key before a pick is spent on it.
pub fn offered_row(gamekey: &str, month: &String, offered: &OfferedGame) -> (g: Game)
    ensures
        is_offered_row(g, gamekey@, *month, *offered),
{
    Game {
        id: game_id(gamekey, offered.machine_name.as_str()),
        title: offered.title.clone(),
        bundle: month.clone(),
        gamekey: String::from_str(gamekey),
        machine_name: offered.machine_name.clone(),
        key_type: String::from_str("steam"),
        giftable: true,
        hidden: false,
        status: GameStatus::Available,
        claim_id: None,
        artwork_url: None,
        keyindex: 0,
        requires_choice: true,
        steam_app_id: None,
        appid_source: None,
        owned_by_ben: false,
    }
}

/// A pick that is spent lands on the row of the game it was spent on: where the key's name leads to
/// that of the game on offer, its row is the one that is looked for, and what is written there no
/// longer waits for a pick. Only a game on offer ever does.
pub proof fn a_spent_pick_lands_on_its_offered_row(
    offered_row: Game,
    month: String,
    offered: OfferedGame,
    order: Order,
    key: KeyEntry,
    table: StatusTable,
    artwork: Option<String>,
    cands: Seq<Seq<char>>,
    at: int,
    route: Route,
    written: Game,
)
    requires
        is_offered_row(offered_row, order.gamekey@, month, offered),
        0 <= at < cands.len(),
        cands[at] == offered.machine_name@,
        route_goes_on(route, order.gamekey@, key.machine_name@, cands, at),
        is_order_row(written, offered_row.id@, order, key, table, artwork),
    ensures
        offered_row.requires_choice,
        route matches Route::Look { id, .. } && id@ == offered_row.id@,
        written.id@ == offered_row.id@,
        !written.requires_choice,
{
}

// ---- A pass -----------------------------------------------------------------------------------

/// What a pass has counted.
#[derive(Debug, Clone, Copy, PartialEq, Eq, Structural)]
pub struct Found {
    pub written: u32,
    pub months_processed: u32,
    pub months_skipped: u32,
}

/// Where a pass stands: what it waits for, and for which target.
pub enum SearchAt {
    Listing { tries: Tries },
    ListHealing,
    Timing { j: usize },
    Reading { j: usize, tries: Tries },
    Healing { j: usize },
    Matching { j: usize, page: MonthPage, gamekey: String },
    /// Writing game `open[k]` of the page.
    Writing { j: usize, page: MonthPage, gamekey: String, open: Vec<usize>, k: usize },
    Over,
}

/// What a pass requests next.
pub enum SearchRequest {
    ListMonths,
    Login,
    /// Has the pass taken too long?
    CheckClock,
    ReadMonth { slug: String },
    /// Which keys of the order at hand match which games of the page at hand?
    Match,
    Write(Game),
    Done,
}

/// The reply to a request.
pub enum SearchReply {
    Listed(Result<Vec<Month>, HumbleError>),
    LoggedIn(Heal),
    Late(bool),
    Month(Result<MonthPage, HumbleError>),
    /// For each game on offer, which keys of the order match it.
    Matched { marks: Vec<Vec<bool>> },
    Wrote(Write),
}

/// One turn of a pass. `tell_dead`: the operator is told, before the request is made, that the
/// session is dead.
pub struct SearchStep {
    pub at: SearchAt,
    pub mend: Mend,
    pub found: Found,
    pub tell_dead: bool,
    pub request: SearchRequest,
}

/// The months that are listed, and those to ask for.
pub struct Walk {
    pub months: Vec<Month>,
    pub targets: Vec<Target>,
}

impl Walk {
    /// Nothing is listed yet.
    pub fn new() -> (r: Walk)
        ensures
            r.months@.len() == 0,
            r.targets@.len() == 0,
    {
        Walk { months: Vec::new(), targets: Vec::new() }
    }
}

/// Whether `walk` asks for the newest months by name, and then for all that are listed.
pub open spec fn is_walk_over(walk: Walk, months: Vec<Month>, now: i128) -> bool {
    &&& walk.months == months
    &&& target_views(walk.targets@) == targets_of(
        recent_slugs(now, CHOICE_DISCOVERY_RECENT_PROBE as nat),
        months@,
        months@.len(),
    )
}

proof fn targets_keep_order(slugs: Seq<Seq<char>>, months: Seq<Month>, n: nat)
    requires
        n <= months.len(),
    ensures
        targets_of(slugs, months, n).len() >= slugs.len(),
        forall|i: int|
            0 <= i < slugs.len() ==> #[trigger] targets_of(slugs, months, n)[i] == (slugs[i], true),
        forall|i: int|
            slugs.len() <= i < targets_of(slugs, months, n).len() ==> !(#[trigger] targets_of(
                slugs,
                months,
                n,
            )[i]).1,
        forall|i: int, j: int|
            0 <= i < j < targets_of(slugs, months, n).len() && slugs.len() <= j ==> (
            #[trigger] targets_of(slugs, months, n)[i]).0 != (#[trigger] targets_of(
                slugs,
                months,
                n,
            )[j]).0,
    decreases n,
{
    if n > 0 {
        targets_keep_order(slugs, months, (n - 1) as nat);
    }
}

/// A walk asks for the newest months by name, in their order, then for listed ones; for every listed
/// month, and for none that was asked for before.
pub proof fn a_walk_asks_for_every_month(walk: Walk, months: Vec<Month>, now: i128, i: int)
    requires
        is_walk_over(walk, months, now),
        0 <= i < months@.len(),
    ensures
        exists|k: int|
            0 <= k < walk.targets@.len() && (#[trigger] walk.targets@[k]).slug@
                == months@[i].slug@,
        walk.targets@.len() >= CHOICE_DISCOVERY_RECENT_PROBE,
        forall|k: int|
            0 <= k < walk.targets@.len() ==> (#[trigger] walk.targets@[k]).probe == (k
                < CHOICE_DISCOVERY_RECENT_PROBE),
        forall|k: int|
            0 <= k < CHOICE_DISCOVERY_RECENT_PROBE ==> (#[trigger] walk.targets@[k]).slug@
                == month_slug(month_at(now as int) - k),
        forall|j: int, k: int|
            0 <= j < k < walk.targets@.len() && CHOICE_DISCOVERY_RECENT_PROBE <= k ==> (
            #[trigger] walk.targets@[j]).slug@ != (#[trigger] walk.targets@[k]).slug@,
{
    let slugs = recent_slugs(now, CHOICE_DISCOVERY_RECENT_PROBE as nat);
    let all = targets_of(slugs, months@, months@.len());
    targets_keep_order(slugs, months@, months@.len());
    every_listed_month_is_asked_for(slugs, months@, months@.len(), i);
    assert forall|k: int| 0 <= k < walk.targets@.len() implies all[k] == (
        (#[trigger] walk.targets@[k]).slug@,
        walk.targets@[k].probe,
    ) by {
        assert(target_views(walk.targets@)[k] == all[k]);
    }
    let k = choose|k: int| 0 <= k < all.len() && (#[trigger] all[k]).0 == months@[i].slug@;
    assert(walk.targets@[k].slug@ == months@[i].slug@);
}

/// What follows a reply for the months to ask for: they are set once, when the list has come.
pub open spec fn walk_follows(out: Walk, walk: Walk, now: i128, reply: SearchReply) -> bool {
    match reply {
        SearchReply::Listed(Ok(months)) => is_walk_over(out, months, now),
        _ => out == walk,
    }
}

/// What a pass works from, at a glance.
pub open spec fn search_over_walk<'a>(walk: &'a Walk, index: &'a OrderIndex) -> Search<'a> {
    Search { months: &walk.months, targets: &walk.targets, index }
}

/// What a pass works from: the list, what to ask for, and what the orders have shown.
pub struct Search<'a> {
    pub months: &'a Vec<Month>,
    pub targets: &'a Vec<Target>,
    pub index: &'a OrderIndex,
}

impl SearchAt {
    /// Whether `reply` is a reply to what the pass waits for.
    pub open spec fn expects(self, reply: SearchReply) -> bool {
        match self {
            SearchAt::Listing { .. } => reply is Listed,
            SearchAt::ListHealing => reply is LoggedIn,
            SearchAt::Timing { .. } => reply is Late,
            SearchAt::Reading { .. } => reply is Month,
            SearchAt::Healing { .. } => reply is LoggedIn,
            SearchAt::Matching { .. } => reply is Matched,
            SearchAt::Writing { .. } => reply is Wrote,
            SearchAt::Over => false,
        }
    }

    /// The target and the game that the pass is at exist.
    pub open spec fn wf(self, s: Search<'_>) -> bool {
        match self {
            SearchAt::Timing { j } => j < s.targets@.len(),
            SearchAt::Reading { j, .. } => j < s.targets@.len(),
            SearchAt::Healing { j } => j < s.targets@.len(),
            SearchAt::Matching { j, gamekey, .. } => j < s.targets@.len()
                && s.index.keys().contains_key(gamekey@),
            SearchAt::Writing { j, page, open, k, .. } => {
                &&& j < s.targets@.len()
                &&& k < open@.len()
                &&& forall|i: int|
                    0 <= i < open@.len() ==> (#[trigger] open@[i]) < page.offered_games@.len()
            },
            _ => true,
        }
    }
}

impl SearchStep {
    pub open spec fn keeps(self, mend: Mend, found: Found) -> bool {
        self.mend == mend && self.found == found && !self.tell_dead
    }

    /// The pass ends.
    pub open spec fn ends(self) -> bool {
        self.at is Over && self.request is Done
    }

    /// The session is dead and stays so: the pass ends, and the operator is told.
    pub open spec fn gives_up(self, mend: Mend, found: Found) -> bool {
        &&& self.ends()
        &&& self.mend == (Mend { healed: mend.healed, cookie_ok: false })
        &&& self.found == found
        &&& self.tell_dead
    }

    /// The pass goes on with target `j`.
    pub open spec fn goes_on(self, s: Search<'_>, j: int, mend: Mend, found: Found) -> bool {
        &&& self.keeps(mend, found)
        &&& if j < s.targets@.len() {
            self.at == (SearchAt::Timing { j: j as usize }) && self.request is CheckClock
        } else {
            self.ends()
        }
    }

    /// The pass asks for the page of target `j`.
    pub open spec fn reads(self, s: Search<'_>, j: int, tries: Tries) -> bool {
        &&& self.at == (SearchAt::Reading { j: j as usize, tries })
        &&& self.request matches SearchRequest::ReadMonth { slug } && slug@ == s.targets@[j].slug@
    }

    /// The pass writes game number `k` of those that are still on offer, or goes on.
    pub open spec fn writes(
        self,
        s: Search<'_>,
        j: int,
        page: MonthPage,
        gamekey: Seq<char>,
        open: Seq<usize>,
        k: int,
        mend: Mend,
        found: Found,
    ) -> bool {
        if k < open.len() {
            &&& self.keeps(mend, found)
            &&& self.at matches SearchAt::Writing { j: j2, page: p2, gamekey: g2, open: o2, k: k2 }
                && j2 == j && p2 == page && g2@ == gamekey && o2@ == open && k2 == k
            &&& self.request matches SearchRequest::Write(g) && is_offered_row(
                g,
                gamekey,
                page.title,
                page.offered_games@[open[k] as int],
            )
        } else {
            self.goes_on(s, j + 1, mend, found)
        }
    }
}

/// A month's page has come. A month that can no longer be redeemed, that no order can be found for,
/// or whose order was not read, is passed over.
pub open spec fn page_read(
    out: SearchStep,
    s: Search<'_>,
    j: int,
    mend: Mend,
    found: Found,
    page: MonthPage,
) -> bool {
    let key = month_gamekey(page, s.months@, *s.index, s.targets@[j].slug@);
    let skip = Found { months_skipped: (found.months_skipped + 1) as u32, ..found };
    if !page.can_redeem_games || key is None || !s.index.keys().contains_key(key->0) {
        out.goes_on(s, j + 1, mend, skip)
    } else {
        &&& out.keeps(
            mend,
            Found { months_processed: (found.months_processed + 1) as u32, ..found },
        )
        &&& out.at matches SearchAt::Matching { j: j2, page: p2, gamekey: g2 } && j2 == j && p2
            == page && g2@ == key->0
        &&& out.request is Match
    }
}

/// A month has been asked for. For one that was asked for by name alone a dead session means nothing,
/// as the month may not be there yet. For any other it leads to one login where the run has had none,
/// and else it ends the pass. Any other failure passes the month over.
pub open spec fn month_read(
    out: SearchStep,
    s: Search<'_>,
    j: int,
    tries: Tries,
    mend: Mend,
    found: Found,
    r: Result<MonthPage, HumbleError>,
) -> bool {
    match r {
        Ok(page) => page_read(out, s, j, mend, found, page),
        Err(HumbleError::Unauthorized) => if tries == (Tries::First { may_heal: true }) {
            &&& out.keeps(mend, found)
            &&& out.at == (SearchAt::Healing { j: j as usize })
            &&& out.request is Login
        } else if s.targets@[j].probe {
            out.goes_on(s, j + 1, mend, found)
        } else {
            out.gives_up(mend, found)
        },
        Err(_) => out.goes_on(s, j + 1, mend, found),
    }
}

/// What follows a login: it was the run's only one.
pub open spec fn search_healed(out: SearchStep, s: Search<'_>, at: SearchAt, found: Found, h: Heal) -> bool {
    let mend = Mend { healed: true, cookie_ok: h.is_durable() };
    if !h.is_usable() {
        out.gives_up(mend, found)
    } else {
        &&& out.keeps(mend, found)
        &&& match at {
            SearchAt::Healing { j } => out.reads(s, j as int, Tries::Again(h)),
            _ => out.at == (SearchAt::Listing { tries: Tries::Again(h) }) && out.request
                is ListMonths,
        }
    }
}

/// Whether `out` is the turn that follows a reply.
pub open spec fn search_follows(
    out: SearchStep,
    s: Search<'_>,
    at: SearchAt,
    mend: Mend,
    found: Found,
    reply: SearchReply,
) -> bool {
    match (at, reply) {
        (SearchAt::Listing { tries }, SearchReply::Listed(r)) => match r {
            Ok(_) => out.goes_on(s, 0, mend, found),
            Err(HumbleError::Unauthorized) => if tries == (Tries::First { may_heal: true }) {
                out.keeps(mend, found) && out.at is ListHealing && out.request is Login
            } else {
                out.gives_up(mend, found)
            },
            Err(_) => out.keeps(mend, found) && out.ends(),
        },
        (SearchAt::ListHealing, SearchReply::LoggedIn(h)) => search_healed(out, s, at, found, h),
        (SearchAt::Timing { j }, SearchReply::Late(late)) => {
            &&& out.keeps(mend, found)
            &&& if late {
                out.ends()
            } else {
                out.reads(
                    s,
                    j as int,
                    Tries::First { may_heal: !s.targets@[j as int].probe && !mend.healed },
                )
            }
        },
        (SearchAt::Reading { j, tries }, SearchReply::Month(r)) => month_read(
            out,
            s,
            j as int,
            tries,
            mend,
            found,
            r,
        ),
        (SearchAt::Healing { .. }, SearchReply::LoggedIn(h)) => search_healed(out, s, at, found, h),
        (SearchAt::Matching { j, page, gamekey }, SearchReply::Matched { marks }) => exists|
            open: Seq<usize>,
        |
            open.map_values(|x: usize| x as int) == unclaimed(
                marks@,
                s.index.keys()[gamekey@].len(),
                page.offered_games@.len(),
            ) && #[trigger] out.writes(s, j as int, page, gamekey@, open, 0, mend, found),
        (SearchAt::Writing { j, page, gamekey, open, k }, SearchReply::Wrote(w)) => out.writes(
            s,
            j as int,
            page,
            gamekey@,
            open@,
            k + 1,
            mend,
            Found {
                written: if w == Write::Written {
                    (found.written + 1) as u32
                } else {
                    found.written
                },
                ..found
            },
        ),
        _ => false,
    }
}

fn search_on(s: &Search<'_>, j: usize, mend: Mend, found: Found) -> (out: SearchStep)
    requires
        j <= s.targets@.len(),
    ensures
        out.goes_on(*s, j as int, mend, found),
        out.at.wf(*s),
{
    if j < s.targets.len() {
        SearchStep {
            at: SearchAt::Timing { j },
            mend,
            found,
            tell_dead: false,
            request: SearchRequest::CheckClock,
        }
    } else {
        SearchStep {
            at: SearchAt::Over,
            mend,
            found,
            tell_dead: false,
            request: SearchRequest::Done,
        }
    }
}

fn search_over(mend: Mend, found: Found, tell_dead: bool) -> (out: SearchStep)
    ensures
        out.ends(),
        out.mend == mend,
        out.found == found,
        out.tell_dead == tell_dead,
{
    SearchStep { at: SearchAt::Over, mend, found, tell_dead, request: SearchRequest::Done }
}

fn read_month(s: &Search<'_>, j: usize, tries: Tries, mend: Mend, found: Found) -> (out: SearchStep)
    requires
        j < s.targets@.len(),
    ensures
        out.reads(*s, j as int, tries),
        out.keeps(mend, found),
        out.at.wf(*s),
{
    SearchStep {
        at: SearchAt::Reading { j, tries },
        mend,
        found,
        tell_dead: false,
        request: SearchRequest::ReadMonth { slug: s.targets[j].slug.clone() },
    }
}

fn write_offered(
    s: &Search<'_>,
    j: usize,
    page: MonthPage,
    gamekey: String,
    open: Vec<usize>,
    k: usize,
    mend: Mend,
    found: Found,
) -> (out: SearchStep)
    requires
        j < s.targets@.len(),
        forall|i: int| 0 <= i < open@.len() ==> (#[trigger] open@[i]) < page.offered_games@.len(),
    ensures
        out.writes(*s, j as int, page, gamekey@, open@, k as int, mend, found),
        out.at.wf(*s),
{
    if k < open.len() {
        let g = offered_row(gamekey.as_str(), &page.title, &page.offered_games[open[k]]);
        SearchStep {
            at: SearchAt::Writing { j, page, gamekey, open, k },
            mend,
            found,
            tell_dead: false,
            request: SearchRequest::Write(g),
        }
    } else {
        let n: usize = s.targets.len();
        assert(s.targets@.len() == n);
        search_on(s, j + 1, mend, found)
    }
}

/// The first turn of a pass.
pub fn start_search(mend: Mend) -> (out: SearchStep)
    ensures
        out.keeps(mend, Found { written: 0, months_processed: 0, months_skipped: 0 }),
        out.at == (SearchAt::Listing { tries: Tries::First { may_heal: !mend.healed } }),
        out.request is ListMonths,
{
    SearchStep {
        at: SearchAt::Listing { tries: Tries::First { may_heal: !mend.healed } },
        mend,
        found: Found { written: 0, months_processed: 0, months_skipped: 0 },
        tell_dead: false,
        request: SearchRequest::ListMonths,
    }
}

/// The turn that follows a reply, other than a list of months.
fn search_turn(
    s: &Search<'_>,
    at: SearchAt,
    mend: Mend,
    found: Found,
    reply: SearchReply,
) -> (out: SearchStep)
    requires
        at.wf(*s),
        at.expects(reply),
        !(reply matches SearchReply::Listed(Ok(_))),
        found.written < u32::MAX,
        found.months_processed < u32::MAX,
        found.months_skipped < u32::MAX,
    ensures
        search_follows(out, *s, at, mend, found, reply),
        out.at.wf(*s),
{
    let n: usize = s.targets.len();
    assert(s.targets@.len() == n);
    match (at, reply) {
        (SearchAt::Listing { tries }, SearchReply::Listed(r)) => match r {
            Ok(_) => search_on(s, 0, mend, found),
            Err(HumbleError::Unauthorized) => if matches!(tries, Tries::First { may_heal: true }) {
                SearchStep {
                    at: SearchAt::ListHealing,
                    mend,
                    found,
                    tell_dead: false,
                    request: SearchRequest::Login,
                }
            } else {
                search_over(Mend { healed: mend.healed, cookie_ok: false }, found, true)
            },
            Err(_) => search_over(mend, found, false),
        },
        (SearchAt::ListHealing, SearchReply::LoggedIn(h)) => {
            let mend = Mend { healed: true, cookie_ok: h.durable() };
            if h.usable() {
                SearchStep {
                    at: SearchAt::Listing { tries: Tries::Again(h) },
                    mend,
                    found,
                    tell_dead: false,
                    request: SearchRequest::ListMonths,
                }
            } else {
                search_over(Mend { healed: true, cookie_ok: false }, found, true)
            }
        },
        (SearchAt::Timing { j }, SearchReply::Late(late)) => if late {
            search_over(mend, found, false)
        } else {
            read_month(
                s,
                j,
                Tries::First { may_heal: !s.targets[j].probe && !mend.healed },
                mend,
                found,
            )
        },
        (SearchAt::Reading { j, tries }, SearchReply::Month(r)) => match r {
            Ok(page) => {
                let skip = Found { months_skipped: found.months_skipped + 1, ..found };
                if !page.can_redeem_games {
                    return search_on(s, j + 1, mend, skip);
                }
                match gamekey_of_month(&page, s.months, s.index, s.targets[j].slug.as_str()) {
                    Some(gamekey) => match s.index.tpks_of(gamekey.as_str()) {
                        Some(_) => SearchStep {
                            at: SearchAt::Matching { j, page, gamekey },
                            mend,
                            found: Found { months_processed: found.months_processed + 1, ..found },
                            tell_dead: false,
                            request: SearchRequest::Match,
                        },
                        None => search_on(s, j + 1, mend, skip),
                    },
                    None => search_on(s, j + 1, mend, skip),
                }
            },
            Err(HumbleError::Unauthorized) => if matches!(tries, Tries::First { may_heal: true }) {
                SearchStep {
                    at: SearchAt::Healing { j },
                    mend,
                    found,
                    tell_dead: false,
                    request: SearchRequest::Login,
                }
            } else if s.targets[j].probe {
                search_on(s, j + 1, mend, found)
            } else {
                search_over(Mend { healed: mend.healed, cookie_ok: false }, found, true)
            },
            Err(_) => search_on(s, j + 1, mend, found),
        },
        (SearchAt::Healing { j }, SearchReply::LoggedIn(h)) => if h.usable() {
            read_month(
                s,
                j,
                Tries::Again(h),
                Mend { healed: true, cookie_ok: h.durable() },
                found,
            )
        } else {
            search_over(Mend { healed: true, cookie_ok: false }, found, true)
        },
        (SearchAt::Matching { j, page, gamekey }, SearchReply::Matched { marks }) => {
            let tpks: usize = match s.index.tpks_of(gamekey.as_str()) {
                Some(v) => v.len(),
                None => 0,
            };
            let open = claimable(page.offered_games.len(), &marks, tpks);
            assert(open@.map_values(|x: usize| x as int) =~= unclaimed(
                marks@,
                s.index.keys()[gamekey@].len(),
                page.offered_games@.len(),
            ));
            write_offered(s, j, page, gamekey, open, 0, mend, found)
        },
        (SearchAt::Writing { j, page, gamekey, open, k }, SearchReply::Wrote(w)) => {
            let m: usize = open.len();
            assert(open@.len() == m);
            let written: u32 = if matches!(w, Write::Written) {
                found.written + 1
            } else {
                found.written
            };
            write_offered(
                s,
                j,
                page,
                gamekey,
                open,
                k + 1,
                mend,
                Found { written, ..found },
            )
        },
        _ => {
            assert(false);
            search_over(mend, found, false)
        },
    }
}

/// The turn of a pass that follows a reply, and the months to ask for from then on.
pub fn discover_choice_games(
    index: &OrderIndex,
    now: i128,
    walk: Walk,
    at: SearchAt,
    mend: Mend,
    found: Found,
    reply: SearchReply,
) -> (r: (Walk, SearchStep))
    requires
        is_instant(now),
        at.wf(search_over_walk(&walk, index)),
        at.expects(reply),
        found.written < u32::MAX,
        found.months_processed < u32::MAX,
        found.months_skipped < u32::MAX,
    ensures
        walk_follows(r.0, walk, now, reply),
        search_follows(r.1, search_over_walk(&r.0, index), at, mend, found, reply),
        r.1.at.wf(search_over_walk(&r.0, index)),
{
    match reply {
        SearchReply::Listed(Ok(months)) => {
            let slugs = recent_month_slugs(now, CHOICE_DISCOVERY_RECENT_PROBE);
            let targets = choice_targets(&slugs, &months);
            let walk = Walk { months, targets };
            let step = search_on(
                &Search { months: &walk.months, targets: &walk.targets, index },
                0,
                mend,
                found,
            );
            (walk, step)
        },
        reply => {
            let step = search_turn(
                &Search { months: &walk.months, targets: &walk.targets, index },
                at,
                mend,
                found,
                reply,
            );
            (walk, step)
        },
    }
}

/// A month that was asked for by name alone never leads to a login, and a dead session on one never
/// ends the pass or marks the cookie as dead.
pub proof fn a_probe_never_spends_the_login(
    out: SearchStep,
    s: Search<'_>,
    j: usize,
    mend: Mend,
    found: Found,
    tries: Tries,
)
    requires
        j < s.targets@.len(),
        s.targets@[j as int].probe,
        search_follows(
            out,
            s,
            SearchAt::Reading { j, tries },
            mend,
            found,
            SearchReply::Month(Err(HumbleError::Unauthorized)),
        ),
        tries == (Tries::First { may_heal: !s.targets@[j as int].probe && !mend.healed }),
    ensures
        out.goes_on(s, j + 1, mend, found),
        !(out.request is Login),
        out.mend == mend,
{
}

/// A call that may still lead to a login is made only by a run that has not tried to log in.
pub open spec fn search_logins_left(at: SearchAt, mend: Mend) -> bool {
    match at {
        SearchAt::Listing { tries } => tries == (Tries::First { may_heal: true }) ==> !mend.healed,
        SearchAt::Reading { tries, .. } => tries == (Tries::First { may_heal: true })
            ==> !mend.healed,
        _ => true,
    }
}

/// A search logs in only where its run has not tried to, and a login is remembered: there is at most
/// one.
pub proof fn a_search_logs_in_at_most_once(
    out: SearchStep,
    s: Search<'_>,
    at: SearchAt,
    mend: Mend,
    found: Found,
    reply: SearchReply,
)
    requires
        search_follows(out, s, at, mend, found, reply),
        search_logins_left(at, mend),
    ensures
        out.request is Login ==> !mend.healed && (out.at is ListHealing || out.at is Healing),
        (at is ListHealing || at is Healing) ==> out.mend.healed,
        mend.healed ==> out.mend.healed,
        search_logins_left(out.at, out.mend),
{
}

/// Only games that no key of their month's order matches are put on the shelf, and always as ones
/// that a pick has to be spent on.
pub proof fn only_unclaimed_games_are_offered(
    out: SearchStep,
    s: Search<'_>,
    at: SearchAt,
    mend: Mend,
    found: Found,
    reply: SearchReply,
)
    requires
        search_follows(out, s, at, mend, found, reply),
    ensures
        out.request matches SearchRequest::Write(g) ==> g.requires_choice && g.status
            == GameStatus::Available && (at is Matching || at is Writing),
        at matches SearchAt::Matching { page, gamekey, .. } ==> (out.at matches SearchAt::Writing {
            open,
            ..
        } ==> (forall|k: int|
            0 <= k < open@.len() ==> is_unclaimed(
                #[trigger] open@[k] as int,
                reply->Matched_marks@,
                s.index.keys()[gamekey@].len(),
            ))),
        (at matches SearchAt::Writing { open, .. } && out.at matches SearchAt::Writing {
            open: open2,
            ..
        }) ==> out.at->open@ == at->open@,
{
    if let SearchAt::Matching { j, page, gamekey } = at {
        let marks = reply->Matched_marks@;
        let tpks = s.index.keys()[gamekey@].len();
        let all = unclaimed(marks, tpks, page.offered_games@.len());
        let open = choose|open: Seq<usize>|
            open.map_values(|x: usize| x as int) == all && #[trigger] out.writes(
                s,
                j as int,
                page,
                gamekey@,
                open,
                0,
                mend,
                found,
            );
        unclaimed_is_exact(marks, tpks, page.offered_games@.len());
        if out.at is Writing {
            assert forall|k: int| 0 <= k < out.at->open@.len() implies is_unclaimed(
                #[trigger] out.at->open@[k] as int,
                marks,
                tpks,
            ) by {
                assert(open.map_values(|x: usize| x as int)[k] == open[k] as int);
                assert(all[k] == open[k] as int);
            }
        }
    }
}

proof fn unclaimed_is_exact(marks: Seq<Vec<bool>>, tpks: nat, n: nat)
    ensures
        forall|k: int|
            0 <= k < unclaimed(marks, tpks, n).len() ==> is_unclaimed(
                #[trigger] unclaimed(marks, tpks, n)[k],
                marks,
                tpks,
            ),
    decreases n,
{
    let all = unclaimed(marks, tpks, n);
    if n > 0 {
        let front = unclaimed(marks, tpks, (n - 1) as nat);
        unclaimed_is_exact(marks, tpks, (n - 1) as nat);
        assert forall|k: int| 0 <= k < all.len() implies is_unclaimed(
            #[trigger] all[k],
            marks,
            tpks,
        ) by {
            if k < front.len() {
                assert(all[k] == front[k]);
            }
        }
    }
}

} // verus!
