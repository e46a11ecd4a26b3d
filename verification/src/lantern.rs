//! The lantern: once a week, what has been left lying about.
//!
//! A week ends on Sunday at 21:00 UTC and goes by the date of that Sunday. What is spoken of is
//! sorted into weeks by its birthday, and judged by how it stands when the lantern is lit.
use vstd::prelude::*;
use vstd::string::*;
use crate::bell::{cap_content, capped_content, field, Markup};
use crate::calendar::{
    date_at, date_of, date_text, day_at, day_of, day_of_date, day_text, days_from_sunday, is_date,
    is_day, julian, midnight, months_start_in_range, DAY_NANOS, EPOCH_DAY, HOUR_NANOS, MAX_DAY, MIN_DAY,
};
use crate::card::{no_mentions, Card};
use crate::model::{is_instant, Claim, ClaimState, Game, Link, MAX_INSTANT, MIN_INSTANT};
use crate::order::{ints, is_ordered_by_number, order_by_number};
use crate::reconcile::RECONCILE_STUCK_ALERT_AGE;
use crate::select::selected;
use crate::text::{chars_of, decimal, decimal_of, same, text_of, trim_end, trim_end_len, views};

verus! {

/// How many lines a room shows.
pub const ROOM_CAP: usize = 5;

pub const LABEL_MAX: usize = 120;

pub const TITLE_MAX: usize = 240;

/// A claim that has been pending for longer is stuck.
pub const CHIMNEY_BAR: i128 = 86_400_000_000_000;

/// A claim is stuck for the lantern exactly if the daily look at pending claims reports it.
pub proof fn the_chimney_bar_is_that_of_the_sweep()
    ensures
        CHIMNEY_BAR == RECONCILE_STUCK_ALERT_AGE,
{
}

// ---- Weeks ------------------------------------------------------------------------------------

/// A week, by the day of the Sunday that it ends on.
#[derive(Debug, Clone, Copy, PartialEq, Eq, Structural)]
pub struct Slot {
    pub sunday: i32,
}

impl Slot {
    /// When the week ends: at 21:00 UTC.
    pub open spec fn ends(self) -> int {
        midnight(self.sunday as int) + 21 * HOUR_NANOS
    }

    /// When the week starts.
    pub open spec fn starts(self) -> int {
        self.ends() - 7 * DAY_NANOS
    }

    /// Whether a point in time falls in the week.
    pub open spec fn has(self, t: int) -> bool {
        self.starts() <= t < self.ends()
    }

    /// The week has a date, and so have its start and the week after it.
    pub open spec fn wf(self) -> bool {
        MIN_DAY + 7 <= self.sunday <= MAX_DAY - 7
    }

    /// The date of the Sunday.
    pub fn key(&self) -> (r: String)
        requires
            is_day(self.sunday as int),
        ensures
            r@ == date_text(date_at(self.sunday as int)),
    {
        day_text(self.sunday)
    }

    pub fn end(&self) -> (r: i128)
        requires
            is_day(self.sunday as int),
        ensures
            r == self.ends(),
    {
        (self.sunday as i128 - EPOCH_DAY as i128) * DAY_NANOS + 21 * HOUR_NANOS
    }

    pub fn start(&self) -> (r: i128)
        requires
            is_day(self.sunday as int),
        ensures
            r == self.starts(),
    {
        self.end() - 7 * DAY_NANOS
    }

    /// The week after this one.
    pub fn next(&self) -> (r: Slot)
        requires
            is_day(self.sunday + 7),
        ensures
            r.sunday == self.sunday + 7,
    {
        Slot { sunday: self.sunday + 7 }
    }

    pub fn contains(&self, t: i128) -> (r: bool)
        requires
            is_day(self.sunday as int),
        ensures
            r == self.has(t as int),
    {
        self.start() <= t && t < self.end()
    }
}

/// The week that is over last at `now`: its end is the latest Sunday, 21:00 UTC, that has come.
pub fn tick_slot(now: i128) -> (r: Slot)
    requires
        is_instant(now),
        is_day(day_at(now as int) - 7),
    ensures
        is_day(r.sunday as int),
        is_over_last(r, now as int),
{
    let today: i32 = day_of(now);
    let back: u8 = days_from_sunday(today);
    let sunday: i32 = today - back as i32;
    let since_midnight: i128 = now - (today as i128 - EPOCH_DAY as i128) * DAY_NANOS;
    if back == 0 && since_midnight < 21 * HOUR_NANOS {
        Slot { sunday: sunday - 7 }
    } else {
        Slot { sunday }
    }
}

/// Every point in time falls in a week, and in no other.
pub proof fn every_moment_falls_in_one_week(t: i128)
    requires
        is_instant(t),
    ensures
        exists|a: Slot| (a.sunday + 1) % 7 == 0 && #[trigger] a.has(t as int),
        forall|a: Slot, b: Slot|
            (a.sunday + 1) % 7 == 0 && (b.sunday + 1) % 7 == 0 && #[trigger] a.has(t as int)
                && #[trigger] b.has(t as int) ==> a == b,
{
    let d = day_at(t - 21 * HOUR_NANOS);
    let w = Slot { sunday: (d + 7 - (d + 1) % 7) as i32 };
    assert(w.has(t as int));
    assert forall|a: Slot, b: Slot|
        (a.sunday + 1) % 7 == 0 && (b.sunday + 1) % 7 == 0 && #[trigger] a.has(t as int)
            && #[trigger] b.has(t as int) implies a == b by {
        weeks_are_apart(a, b);
    }
}

/// The weeks follow each other without a gap.
pub proof fn the_weeks_follow_each_other(a: Slot, b: Slot)
    requires
        b.sunday == a.sunday + 7,
    ensures
        b.starts() == a.ends(),
{
}

proof fn weeks_are_apart(a: Slot, b: Slot)
    ensures
        a.ends() - b.ends() == (a.sunday - b.sunday) * DAY_NANOS,
{
    assert(a.ends() - b.ends() == (a.sunday - b.sunday) * DAY_NANOS) by (nonlinear_arith)
        requires
            a.ends() == (a.sunday - EPOCH_DAY) * DAY_NANOS + 21 * HOUR_NANOS,
            b.ends() == (b.sunday - EPOCH_DAY) * DAY_NANOS + 21 * HOUR_NANOS,
    ;
}

/// Whether `a` is the week that is over last at `t`.
pub open spec fn is_over_last(a: Slot, t: int) -> bool {
    (a.sunday + 1) % 7 == 0 && a.ends() <= t < a.ends() + 7 * DAY_NANOS
}

/// Two moments between the same two ends have the same lantern, and no other moment has it.
pub proof fn a_week_has_one_lantern(a: Slot, b: Slot, s: int, t: int)
    requires
        is_over_last(a, s),
        is_over_last(b, t),
    ensures
        a == b <==> a.ends() <= t < a.ends() + 7 * DAY_NANOS,
{
    weeks_are_apart(a, b);
}

/// A lantern that is lit on a Sunday from 21:00 UTC on closes the week of that Sunday; one that is lit
/// on a Wednesday belongs to the week that ended on the Sunday before.
pub proof fn a_sunday_closes_its_own_week(a: Slot, t: int)
    requires
        is_over_last(a, t),
    ensures
        (day_at(t) + 1) % 7 == 0 && t - midnight(day_at(t)) >= 21 * HOUR_NANOS ==> a.sunday
            == day_at(t),
        (day_at(t) + 1) % 7 == 3 ==> a.sunday == day_at(t) - 3,
{
    let d = day_at(t);
    assert(midnight(d) <= t < midnight(d + 1));
}

// ---- New York ---------------------------------------------------------------------------------

/// The first Sunday from a day on.
pub open spec fn sunday_from(day: int) -> int {
    day + 6 - day % 7
}

/// Whether daylight saving time is in force in New York: from the second Sunday of March, 07:00 UTC,
/// to the first Sunday of November, 06:00 UTC.
pub open spec fn is_daylight(t: int) -> bool {
    let y = date_at(day_at(t)).0;
    midnight(sunday_from(julian(y, 3, 1)) + 7) + 7 * HOUR_NANOS <= t < midnight(
        sunday_from(julian(y, 11, 1)),
    ) + 6 * HOUR_NANOS
}

/// The day that it is in New York.
pub open spec fn eastern_day(t: int) -> int {
    day_at(
        t - (if is_daylight(t) {
            4int
        } else {
            5int
        }) * HOUR_NANOS,
    )
}

/// A point in time that New York has a date for too.
pub open spec fn is_eastern_instant(t: i128) -> bool {
    MIN_INSTANT + 5 * HOUR_NANOS <= t <= MAX_INSTANT
}

fn sunday_from_of(day: i32) -> (r: i32)
    requires
        is_day(day as int),
    ensures
        r == sunday_from(day as int),
{
    day + (7 - days_from_sunday(day) as i32) % 7
}

/// The first Sunday of a month before December.
fn first_sunday(year: i32, month: u8) -> (r: i32)
    requires
        is_date(year as int, month as int, 1),
        month <= 11,
    ensures
        r == sunday_from(julian(year as int, month as int, 1)),
        is_day(r + 7),
{
    let first: i32 = day_of_date(year, month, 1);
    proof {
        months_start_in_range(year as int, month as int);
    }
    sunday_from_of(first)
}

/// How many hours New York is behind UTC.
pub fn eastern_offset(t: i128) -> (r: i128)
    requires
        is_instant(t),
    ensures
        r == if is_daylight(t as int) {
            4int
        } else {
            5int
        },
{
    let (y, _, _) = date_of(day_of(t));
    let starts: i32 = first_sunday(y, 3) + 7;
    let ends: i32 = first_sunday(y, 11);
    let from: i128 = (starts as i128 - EPOCH_DAY as i128) * DAY_NANOS + 7 * HOUR_NANOS;
    let to: i128 = (ends as i128 - EPOCH_DAY as i128) * DAY_NANOS + 6 * HOUR_NANOS;
    if from <= t && t < to {
        4
    } else {
        5
    }
}

fn eastern_day_of(t: i128) -> (r: i32)
    requires
        is_eastern_instant(t),
    ensures
        r == eastern_day(t as int),
        is_day(r as int),
{
    day_of(t - eastern_offset(t) * HOUR_NANOS)
}

/// The short name of a month.
pub open spec fn month3(m: int) -> Seq<char> {
    if m == 1 {
        "jan"@
    } else if m == 2 {
        "feb"@
    } else if m == 3 {
        "mar"@
    } else if m == 4 {
        "apr"@
    } else if m == 5 {
        "may"@
    } else if m == 6 {
        "jun"@
    } else if m == 7 {
        "jul"@
    } else if m == 8 {
        "aug"@
    } else if m == 9 {
        "sep"@
    } else if m == 10 {
        "oct"@
    } else if m == 11 {
        "nov"@
    } else {
        "dec"@
    }
}

fn month3_of(m: u8) -> (r: &'static str)
    ensures
        r@ == month3(m as int),
{
    match m {
        1 => "jan",
        2 => "feb",
        3 => "mar",
        4 => "apr",
        5 => "may",
        6 => "jun",
        7 => "jul",
        8 => "aug",
        9 => "sep",
        10 => "oct",
        11 => "nov",
        _ => "dec",
    }
}

/// The date in New York, as month and day.
pub open spec fn eastern_text(t: int) -> Seq<char> {
    let d = date_at(eastern_day(t));
    month3(d.1) + " "@ + decimal(d.2 as nat)
}

/// The date in New York, as month and day.
pub fn eastern_date(t: i128) -> (r: String)
    requires
        is_eastern_instant(t),
    ensures
        r@ == eastern_text(t as int),
{
    let (_, m, d) = date_of(eastern_day_of(t));
    String::from_str(month3_of(m)).concat(" ").concat(decimal_of(d as u64).as_str())
}

/// The name of a weekday, counted from Sunday as 0.
pub open spec fn weekday(d: int) -> Seq<char> {
    if d == 0 {
        "sunday"@
    } else if d == 1 {
        "monday"@
    } else if d == 2 {
        "tuesday"@
    } else if d == 3 {
        "wednesday"@
    } else if d == 4 {
        "thursday"@
    } else if d == 5 {
        "friday"@
    } else {
        "saturday"@
    }
}

/// The weekday that it is in New York.
pub fn weekday_name(t: i128) -> (r: &'static str)
    requires
        is_eastern_instant(t),
    ensures
        r@ == weekday((eastern_day(t as int) + 1) % 7),
{
    match days_from_sunday(eastern_day_of(t)) {
        0 => "sunday",
        1 => "monday",
        2 => "tuesday",
        3 => "wednesday",
        4 => "thursday",
        5 => "friday",
        _ => "saturday",
    }
}

// ---- Rooms ------------------------------------------------------------------------------------

/// One part of the lantern: a heading and its lines.
#[derive(Debug, PartialEq, Eq)]
pub struct Room {
    pub heading: String,
    pub lines: Vec<String>,
    /// How many lines are not shown.
    pub more: u32,
}

/// What the lantern says.
#[derive(Debug, PartialEq, Eq)]
pub struct Lantern {
    pub rooms: Vec<Room>,
    /// Doors, claims, gifts and closings, however many are shown.
    pub counts: [u32; 4],
}

/// A room by what it holds.
pub struct RoomView {
    pub heading: Seq<char>,
    pub lines: Seq<Seq<char>>,
    pub more: int,
}

impl View for Room {
    type V = RoomView;

    open spec fn view(&self) -> RoomView {
        RoomView { heading: self.heading@, lines: views(self.lines@), more: self.more as int }
    }
}

/// A room with so many lines that it shows the first few and counts the rest.
pub open spec fn room_of(heading: Seq<char>, lines: Seq<Seq<char>>) -> RoomView {
    if lines.len() <= ROOM_CAP {
        RoomView { heading, lines, more: 0 }
    } else {
        RoomView { heading, lines: lines.take(ROOM_CAP as int), more: lines.len() - ROOM_CAP }
    }
}

/// A room for the lines; none if there are no lines.
pub fn room(heading: &str, lines: Vec<String>) -> (r: Option<Room>)
    requires
        lines@.len() <= u32::MAX,
    ensures
        match r {
            Some(room) => lines@.len() > 0 && room@ == room_of(heading@, views(lines@)),
            None => lines@.len() == 0,
        },
{
    if lines.len() == 0 {
        return None;
    }
    let ghost all = views(lines@);
    let mut lines = lines;
    let n: usize = lines.len();
    let more: u32 = if n > ROOM_CAP {
        (n - ROOM_CAP) as u32
    } else {
        0
    };
    if n > ROOM_CAP {
        lines.truncate(ROOM_CAP);
        assert(views(lines@) =~= all.take(ROOM_CAP as int));
    }
    Some(Room { heading: String::from_str(heading), lines, more })
}

/// The rooms that have lines, in order.
pub open spec fn lit_rooms(rooms: Seq<(Seq<char>, Seq<Seq<char>>)>) -> Seq<RoomView>
    decreases rooms.len(),
{
    if rooms.len() == 0 {
        Seq::empty()
    } else {
        let head = lit_rooms(rooms.drop_last());
        let (heading, lines) = rooms.last();
        if lines.len() == 0 {
            head
        } else {
            head.push(room_of(heading, lines))
        }
    }
}

pub open spec fn room_views(rooms: Seq<Room>) -> Seq<RoomView> {
    Seq::new(rooms.len(), |i: int| rooms[i]@)
}

pub const DOORS_HEADING: &'static str = "🚪 doors nobody has walked through  ↗ {site}/admin/links";

pub const CHIMNEY_HEADING: &'static str = "🕯️ stuck in the chimney  ↗ {site}/admin/ops";

pub const WRAPPED_HEADING: &'static str = "🎁 wrapped, and past its day  ↗ {site}/admin/links";

pub const CLOSING_HEADING: &'static str = "⏳ doors closing soon  ↗ {site}/admin/links";

// ---- What the lantern is lit over -------------------------------------------------------------

/// A friend, by the id that links carry.
pub struct Friend {
    pub id: String,
    pub name: String,
}

/// What the lantern is lit over.
pub struct Input<'a> {
    pub links: &'a Vec<Link>,
    /// For each link, whether a claim can be made on it now.
    pub open: &'a Vec<bool>,
    pub pending: &'a Vec<Claim>,
    pub games: &'a Vec<Game>,
    pub friends: &'a Vec<Friend>,
    pub slot: Slot,
    pub now: i128,
    /// A lantern has been delivered before.
    pub any_delivered: bool,
}

/// All dates of a link are points in time.
pub open spec fn is_dated_link(l: Link) -> bool {
    &&& is_instant(l.created_at)
    &&& l.unlock_at matches Some(u) ==> is_instant(u)
    &&& l.expires_at matches Some(e) ==> is_instant(e)
}

/// What is reckoned from the dates of a link are points in time too, as far as it is reckoned, and
/// nobody has claimed more on a door that closes soon than it allows.
pub open spec fn is_reckonable(l: Link, open: bool, slot: Slot) -> bool {
    &&& open && l.claims_used == 0 ==> {
        &&& l.created_at + 60 * DAY_NANOS <= MAX_INSTANT
        &&& l.unlock_at matches Some(u) ==> u + 7 * DAY_NANOS <= MAX_INSTANT
    }
    &&& is_wrapped(l, open, slot) ==> is_eastern_instant(l.unlock_at->0)
    &&& is_closing(l, open, week_after(slot)) ==> is_eastern_instant(l.expires_at->0)
        && l.claims_used <= l.claims_allowed
}

impl<'a> Input<'a> {
    /// The lists belong together and can be counted, and the dates are dates.
    pub open spec fn wf(self) -> bool {
        &&& self.links@.len() == self.open@.len()
        &&& self.links@.len() < u32::MAX
        &&& self.pending@.len() <= u32::MAX
        &&& self.slot.wf()
        &&& is_instant(self.now)
        &&& forall|i: int|
            0 <= i < self.links@.len() ==> is_dated_link(#[trigger] self.links@[i])
                && is_reckonable(self.links@[i], self.open@[i], self.slot)
        &&& forall|i: int|
            0 <= i < self.pending@.len() ==> is_instant((#[trigger] self.pending@[i]).created_at)
                && (is_stuck(self.pending@[i], self.now) ==> is_eastern_instant(
                self.pending@[i].created_at,
            ))
    }
}

/// The name that a friend's id stands for, among the first `n`.
pub open spec fn friend_name(friends: Seq<Friend>, id: Seq<char>, n: nat) -> Option<Seq<char>>
    decreases n,
{
    if n == 0 {
        None
    } else {
        let head = friend_name(friends, id, (n - 1) as nat);
        if head is None && friends[n - 1].id@ == id {
            Some(friends[n - 1].name@)
        } else {
            head
        }
    }
}

/// Whom a link is for: the friend's name, or else the link's label.
pub open spec fn recipient_name(l: Link, friends: Seq<Friend>) -> Seq<char> {
    match l.friend_id {
        Some(id) => match friend_name(friends, id@, friends.len()) {
            Some(name) => name,
            None => l.label@,
        },
        None => l.label@,
    }
}

fn friend_name_of<'a>(friends: &'a Vec<Friend>, id: &String) -> (r: Option<&'a str>)
    ensures
        match r {
            Some(s) => friend_name(friends@, id@, friends@.len()) == Some(s@),
            None => friend_name(friends@, id@, friends@.len()) is None,
        },
{
    let mut found: Option<&'a str> = None;
    for i in 0..friends.len()
        invariant
            match found {
                Some(s) => friend_name(friends@, id@, i as nat) == Some(s@),
                None => friend_name(friends@, id@, i as nat) is None,
            },
    {
        if found.is_none() && friends[i].id == *id {
            found = Some(friends[i].name.as_str());
        }
    }
    found
}

/// Whom a link is for, fit for a post.
fn recipient<S: Fn(String) -> String, E: Fn(String) -> String>(
    markup: &Markup<S, E>,
    l: &Link,
    friends: &Vec<Friend>,
) -> (r: String)
    requires
        markup.is_total(),
    ensures
        markup.is_field(recipient_name(*l, friends@), LABEL_MAX as nat, r@),
{
    let raw = match &l.friend_id {
        Some(id) => match friend_name_of(friends, id) {
            Some(name) => name,
            None => l.label.as_str(),
        },
        None => l.label.as_str(),
    };
    field(markup, raw, LABEL_MAX)
}

/// The title that a game's id stands for, among the first `n`.
pub open spec fn game_title(games: Seq<Game>, id: Seq<char>, n: nat) -> Option<Seq<char>>
    decreases n,
{
    if n == 0 {
        None
    } else {
        let head = game_title(games, id, (n - 1) as nat);
        if head is None && games[n - 1].id@ == id {
            Some(games[n - 1].title@)
        } else {
            head
        }
    }
}

/// What a game is called: its title, or else its id.
pub open spec fn title_name(games: Seq<Game>, id: Seq<char>) -> Seq<char> {
    match game_title(games, id, games.len()) {
        Some(t) => t,
        None => id,
    }
}

fn title<S: Fn(String) -> String, E: Fn(String) -> String>(
    markup: &Markup<S, E>,
    id: &String,
    games: &Vec<Game>,
) -> (r: String)
    requires
        markup.is_total(),
    ensures
        markup.is_field(title_name(games@, id@), TITLE_MAX as nat, r@),
{
    let mut found: Option<&str> = None;
    for i in 0..games.len()
        invariant
            match found {
                Some(s) => game_title(games@, id@, i as nat) == Some(s@),
                None => game_title(games@, id@, i as nat) is None,
            },
    {
        if found.is_none() && games[i].id == *id {
            found = Some(games[i].title.as_str());
        }
    }
    match found {
        Some(t) => field(markup, t, TITLE_MAX),
        None => field(markup, id.as_str(), TITLE_MAX),
    }
}

// ---- Doors ------------------------------------------------------------------------------------

/// Whether a link is a shelf for many: no friend's, and nothing promised.
pub open spec fn shelf(l: Link) -> bool {
    l.claims_allowed > 1 && l.friend_id is None && l.curated_game_ids is None
}

fn is_shelf(l: &Link) -> (r: bool)
    ensures
        r == shelf(*l),
{
    l.claims_allowed > 1 && l.friend_id.is_none() && l.curated_game_ids.is_none()
}

/// How long a door has stood open.
#[derive(Debug, Clone, Copy, PartialEq, Eq, Structural)]
pub enum Age {
    /// Its second week, or its sixtieth day, does not fall in this week.
    Other,
    TwoWeeks,
    TwoMonths,
    /// Its sixtieth day lies further back, and no lantern has spoken of it.
    Backlog,
}

pub open spec fn door_age(l: Link, slot: Slot, any_delivered: bool) -> Age {
    if slot.has(l.created_at + 14 * DAY_NANOS) {
        Age::TwoWeeks
    } else if slot.has(l.created_at + 60 * DAY_NANOS) {
        Age::TwoMonths
    } else if !any_delivered && l.created_at + 60 * DAY_NANOS < slot.starts() {
        Age::Backlog
    } else {
        Age::Other
    }
}

/// A door has its second week in one week and its sixtieth day in one week, whatever the clocks do:
/// no week leaves them out, and no two weeks speak of either.
pub proof fn a_door_is_spoken_of_once(l: Link, a: Slot, b: Slot, before: bool, after: bool)
    requires
        is_instant(l.created_at),
        l.created_at + 60 * DAY_NANOS <= MAX_INSTANT,
        (a.sunday + 1) % 7 == 0,
        (b.sunday + 1) % 7 == 0,
    ensures
        exists|w: Slot|
            (w.sunday + 1) % 7 == 0 && #[trigger] door_age(l, w, before) == Age::TwoWeeks,
        exists|w: Slot|
            (w.sunday + 1) % 7 == 0 && #[trigger] door_age(l, w, before) == Age::TwoMonths,
        door_age(l, a, before) == Age::TwoWeeks && door_age(l, b, after) == Age::TwoWeeks ==> a == b,
        door_age(l, a, before) == Age::TwoMonths && door_age(l, b, after) == Age::TwoMonths ==> a
            == b,
{
    let fortnight = (l.created_at + 14 * DAY_NANOS) as i128;
    let sixty = (l.created_at + 60 * DAY_NANOS) as i128;
    every_moment_falls_in_one_week(fortnight);
    every_moment_falls_in_one_week(sixty);
    let w = choose|w: Slot| (w.sunday + 1) % 7 == 0 && #[trigger] w.has(fortnight as int);
    assert(door_age(l, w, before) == Age::TwoWeeks);
    let v = choose|v: Slot| (v.sunday + 1) % 7 == 0 && #[trigger] v.has(sixty as int);
    assert(door_age(l, v, before) == Age::TwoMonths);
}

fn door_age_of(l: &Link, slot: &Slot, any_delivered: bool) -> (r: Age)
    requires
        slot.wf(),
        is_dated_link(*l),
        l.created_at + 60 * DAY_NANOS <= MAX_INSTANT,
    ensures
        r == door_age(*l, *slot, any_delivered),
{
    if slot.contains(l.created_at + 14 * DAY_NANOS) {
        Age::TwoWeeks
    } else if slot.contains(l.created_at + 60 * DAY_NANOS) {
        Age::TwoMonths
    } else if !any_delivered && l.created_at + 60 * DAY_NANOS < slot.start() {
        Age::Backlog
    } else {
        Age::Other
    }
}

/// What is said of a door, or of a shelf, that has stood open for two weeks or two months.
pub open spec fn door_text(l: Link, age: Age, who: Seq<char>) -> Seq<char> {
    if shelf(l) {
        "· the shelf for "@ + who + " — "@ + decimal(l.claims_allowed as nat) + (if age
            == Age::TwoWeeks {
            " slots, nobody's taken one in two weeks"@
        } else {
            " slots, nobody's taken one in two months. shall it stay open?"@
        })
    } else if age == Age::TwoWeeks {
        "· the door for "@ + who + " — open two weeks, nobody's come through yet"@
    } else {
        "· the door for "@ + who + " — open two months, "@ + decimal(
            (l.claims_allowed - l.claims_used) as nat,
        ) + " still inside. shall it stay open?"@
    }
}

/// The positions, below `n`, of the doors that nobody has come through.
pub open spec fn unused_doors(links: Seq<Link>, open: Seq<bool>, n: nat) -> Seq<int> {
    selected(n, |i: int| open[i] && links[i].claims_used == 0)
}

/// Those of the first `n` positions whose doors are spoken of.
pub open spec fn spoken_of(links: Seq<Link>, at: Seq<int>, slot: Slot, any_delivered: bool, n: nat) -> Seq<
    int,
>
    decreases n,
{
    if n == 0 {
        Seq::empty()
    } else {
        let head = spoken_of(links, at, slot, any_delivered, (n - 1) as nat);
        let age = door_age(links[at[n - 1]], slot, any_delivered);
        if age == Age::TwoWeeks || age == Age::TwoMonths {
            head.push(at[n - 1])
        } else {
            head
        }
    }
}

/// How many of the first `n` positions have doors that were never spoken of.
pub open spec fn backlog_of(links: Seq<Link>, at: Seq<int>, slot: Slot, any_delivered: bool, n: nat) -> nat
    decreases n,
{
    if n == 0 {
        0
    } else {
        backlog_of(links, at, slot, any_delivered, (n - 1) as nat) + if door_age(
            links[at[n - 1]],
            slot,
            any_delivered,
        ) == Age::Backlog {
            1nat
        } else {
            0nat
        }
    }
}

pub open spec fn backlog_text(n: nat) -> Seq<char> {
    "· and "@ + decimal(n) + " doors older than two months nobody has walked through"@
}

/// When each link was made.
pub open spec fn created(links: Seq<Link>) -> Seq<i128> {
    Seq::new(links.len(), |i: int| links[i].created_at)
}

/// Whether `line` speaks of a door.
pub open spec fn is_door_line<S: Fn(String) -> String, E: Fn(String) -> String>(
    line: Seq<char>,
    markup: Markup<S, E>,
    l: Link,
    input: Input<'_>,
) -> bool {
    exists|who: Seq<char>| #[trigger]
        markup.is_field(recipient_name(l, input.friends@), LABEL_MAX as nat, who) && line
            == door_text(l, door_age(l, input.slot, input.any_delivered), who)
}

/// Whether `lines` are those about doors that nobody has come through, the oldest first, and `count`
/// is how many doors they speak of one by one. Those that were never spoken of are counted in a line
/// of their own, which comes first.
pub open spec fn are_door_lines<S: Fn(String) -> String, E: Fn(String) -> String>(
    lines: Seq<Seq<char>>,
    count: int,
    markup: Markup<S, E>,
    input: Input<'_>,
) -> bool {
    exists|at: Seq<int>| #[trigger]
        is_ordered_by_number(
            at,
            created(input.links@),
            unused_doors(input.links@, input.open@, input.links@.len()),
        ) && {
            let spoken = spoken_of(
                input.links@,
                at,
                input.slot,
                input.any_delivered,
                at.len(),
            );
            let backlog = backlog_of(
                input.links@,
                at,
                input.slot,
                input.any_delivered,
                at.len(),
            );
            let first = if backlog > 0 {
                1int
            } else {
                0int
            };
            &&& count == spoken.len()
            &&& lines.len() == spoken.len() + first
            &&& backlog > 0 ==> lines[0] == backlog_text(backlog)
            &&& forall|k: int|
                0 <= k < spoken.len() ==> is_door_line(
                    lines[k + first],
                    markup,
                    #[trigger] input.links@[spoken[k]],
                    input,
                )
        }
}

fn door_line<S: Fn(String) -> String, E: Fn(String) -> String>(
    markup: &Markup<S, E>,
    l: &Link,
    age: Age,
    input: &Input<'_>,
) -> (r: String)
    requires
        markup.is_total(),
        l.claims_used <= l.claims_allowed,
        age == door_age(*l, input.slot, input.any_delivered),
    ensures
        is_door_line(r@, *markup, *l, *input),
{
    let who = recipient(markup, l, input.friends);
    let mut out = String::from_str(
        if is_shelf(l) {
            "· the shelf for "
        } else {
            "· the door for "
        },
    );
    out.append(who.as_str());
    let soon: bool = matches!(age, Age::TwoWeeks);
    if is_shelf(l) {
        out.append(" — ");
        out.append(decimal_of(l.claims_allowed as u64).as_str());
        out.append(
            if soon {
                " slots, nobody's taken one in two weeks"
            } else {
                " slots, nobody's taken one in two months. shall it stay open?"
            },
        );
    } else if soon {
        out.append(" — open two weeks, nobody's come through yet");
    } else {
        out.append(" — open two months, ");
        out.append(decimal_of((l.claims_allowed - l.claims_used) as u64).as_str());
        out.append(" still inside. shall it stay open?");
    }
    assert(out@ == door_text(*l, age, who@));
    out
}

fn created_of(links: &Vec<Link>) -> (r: Vec<i128>)
    ensures
        r@ == created(links@),
{
    let mut out: Vec<i128> = Vec::new();
    for i in 0..links.len()
        invariant
            out@ =~= created(links@).take(i as int),
    {
        out.push(links[i].created_at);
    }
    assert(out@ =~= created(links@));
    out
}

/// The lines about doors that nobody has come through, and how many doors they speak of.
fn doors<S: Fn(String) -> String, E: Fn(String) -> String>(
    markup: &Markup<S, E>,
    input: &Input<'_>,
) -> (r: (Vec<String>, u32))
    requires
        markup.is_total(),
        input.wf(),
    ensures
        are_door_lines(views(r.0@), r.1 as int, *markup, *input),
        r.0@.len() <= u32::MAX,
{
    let mut chosen: Vec<usize> = Vec::new();
    for i in 0..input.links.len()
        invariant
            input.wf(),
            ints(chosen@) =~= unused_doors(input.links@, input.open@, i as nat),
            chosen@.len() <= i,
            forall|k: int| 0 <= k < chosen@.len() ==> (#[trigger] chosen@[k]) < i,
            forall|k: int, l: int|
                0 <= k < l < chosen@.len() ==> #[trigger] chosen@[k] < #[trigger] chosen@[l],
            forall|k: int|
                0 <= k < chosen@.len() ==> input.open@[(#[trigger] chosen@[k]) as int]
                    && input.links@[chosen@[k] as int].claims_used == 0,
    {
        if input.open[i] && input.links[i].claims_used == 0 {
            chosen.push(i);
        }
    }
    let keys = created_of(input.links);
    let order = order_by_number(&keys, &chosen);
    let ghost at = ints(order@);
    proof {
        assert(ints(chosen@) == unused_doors(input.links@, input.open@, input.links@.len()));
        assert forall|k: int| 0 <= k < order@.len() implies (#[trigger] order@[k])
            < input.links@.len() && input.open@[order@[k] as int]
            && input.links@[order@[k] as int].claims_used == 0 by {
            assert(ints(chosen@).contains(at[k]));
            let j = choose|j: int| 0 <= j < ints(chosen@).len() && ints(chosen@)[j] == at[k];
            assert(chosen@[j] == order@[k]);
        }
    }
    let mut lines: Vec<String> = Vec::new();
    let mut backlog: u32 = 0;
    for n in 0..order.len()
        invariant
            markup.is_total(),
            input.wf(),
            at == ints(order@),
            order@.len() <= input.links@.len(),
            forall|k: int|
                0 <= k < order@.len() ==> (#[trigger] order@[k]) < input.links@.len()
                    && input.open@[order@[k] as int]
                    && input.links@[order@[k] as int].claims_used == 0,
            lines@.len() <= n,
            backlog <= n,
            backlog == backlog_of(input.links@, at, input.slot, input.any_delivered, n as nat),
            lines@.len() == spoken_of(
                input.links@,
                at,
                input.slot,
                input.any_delivered,
                n as nat,
            ).len(),
            forall|k: int|
                0 <= k < lines@.len() ==> is_door_line(
                    (#[trigger] lines@[k])@,
                    *markup,
                    input.links@[spoken_of(
                        input.links@,
                        at,
                        input.slot,
                        input.any_delivered,
                        n as nat,
                    )[k]],
                    *input,
                ),
    {
        let l = &input.links[order[n]];
        assert(at[n as int] == order@[n as int]);
        let age = door_age_of(l, &input.slot, input.any_delivered);
        match age {
            Age::TwoWeeks | Age::TwoMonths => {
                lines.push(door_line(markup, l, age, input));
            },
            Age::Backlog => {
                backlog += 1;
            },
            Age::Other => {},
        }
    }
    let count: u32 = lines.len() as u32;
    let ghost spoken = spoken_of(input.links@, at, input.slot, input.any_delivered, at.len());
    let ghost was = lines@;
    if backlog > 0 {
        let mut first = String::from_str("· and ");
        first.append(decimal_of(backlog as u64).as_str());
        first.append(" doors older than two months nobody has walked through");
        lines.insert(0, first);
    }
    proof {
        let all = views(lines@);
        let shift = if backlog > 0 {
            1int
        } else {
            0int
        };
        assert forall|k: int| 0 <= k < spoken.len() implies is_door_line(
            all[k + shift],
            *markup,
            #[trigger] input.links@[spoken[k]],
            *input,
        ) by {
            assert(lines@[k + shift] == was[k]);
            assert(is_door_line(was[k]@, *markup, input.links@[spoken[k]], *input));
        }
        assert(is_ordered_by_number(
            at,
            created(input.links@),
            unused_doors(input.links@, input.open@, input.links@.len()),
        ));
    }
    (lines, count)
}

// ---- Claims in the chimney --------------------------------------------------------------------

/// Whether a claim has been pending for too long.
pub open spec fn is_stuck(c: Claim, now: i128) -> bool {
    c.state == ClaimState::Pending && now - c.created_at >= CHIMNEY_BAR
}

/// The positions, below `n`, of the claims that are stuck.
pub open spec fn stuck_at(pending: Seq<Claim>, now: i128, n: nat) -> Seq<int> {
    selected(n, |i: int| is_stuck(pending[i], now))
}

/// When each claim was made.
pub open spec fn claimed(pending: Seq<Claim>) -> Seq<i128> {
    Seq::new(pending.len(), |i: int| pending[i].created_at)
}

/// What is said of a claim that is stuck, and for how many weeks it has been.
pub open spec fn stuck_line_text(c: Claim, now: i128, title: Seq<char>) -> Seq<char> {
    "· "@ + title + " — a claim started "@ + eastern_text(c.created_at as int)
        + " never finished (week "@ + decimal(
        ((now - c.created_at) / (DAY_NANOS as int) / 7) as nat,
    )
        + "). it clears when the claim is compensated (slot returned, game re-listed) or fulfilled — no admin button for that yet, see #234"@
}

/// Whether `line` speaks of a claim that is stuck.
pub open spec fn is_stuck_line<S: Fn(String) -> String, E: Fn(String) -> String>(
    line: Seq<char>,
    markup: Markup<S, E>,
    c: Claim,
    input: Input<'_>,
) -> bool {
    exists|t: Seq<char>| #[trigger]
        markup.is_field(title_name(input.games@, c.game_id@), TITLE_MAX as nat, t) && line
            == stuck_line_text(c, input.now, t)
}

/// Whether `lines` are those about claims that are stuck, the oldest first.
pub open spec fn are_stuck_lines<S: Fn(String) -> String, E: Fn(String) -> String>(
    lines: Seq<Seq<char>>,
    markup: Markup<S, E>,
    input: Input<'_>,
) -> bool {
    exists|at: Seq<int>| #[trigger]
        is_ordered_by_number(
            at,
            claimed(input.pending@),
            stuck_at(input.pending@, input.now, input.pending@.len()),
        ) && lines.len() == at.len() && forall|k: int|
            0 <= k < at.len() ==> is_stuck_line(
                lines[k],
                markup,
                #[trigger] input.pending@[at[k]],
                input,
            )
}

fn claimed_of(pending: &Vec<Claim>) -> (r: Vec<i128>)
    ensures
        r@ == claimed(pending@),
{
    let mut out: Vec<i128> = Vec::new();
    for i in 0..pending.len()
        invariant
            out@ =~= claimed(pending@).take(i as int),
    {
        out.push(pending[i].created_at);
    }
    assert(out@ =~= claimed(pending@));
    out
}

fn stuck_line<S: Fn(String) -> String, E: Fn(String) -> String>(
    markup: &Markup<S, E>,
    c: &Claim,
    input: &Input<'_>,
) -> (r: String)
    requires
        markup.is_total(),
        is_instant(input.now),
        is_eastern_instant(c.created_at),
        input.now >= c.created_at,
    ensures
        is_stuck_line(r@, *markup, *c, *input),
{
    let t = title(markup, &c.game_id, input.games);
    let week: i128 = (input.now - c.created_at) / DAY_NANOS / 7;
    let mut out = String::from_str("· ");
    out.append(t.as_str());
    out.append(" — a claim started ");
    out.append(eastern_date(c.created_at).as_str());
    out.append(" never finished (week ");
    out.append(decimal_of(week as u64).as_str());
    out.append(
        "). it clears when the claim is compensated (slot returned, game re-listed) or fulfilled — no admin button for that yet, see #234",
    );
    assert(out@ == stuck_line_text(*c, input.now, t@));
    out
}

/// The lines about claims that are stuck.
fn chimney<S: Fn(String) -> String, E: Fn(String) -> String>(
    markup: &Markup<S, E>,
    input: &Input<'_>,
) -> (r: Vec<String>)
    requires
        markup.is_total(),
        input.wf(),
    ensures
        are_stuck_lines(views(r@), *markup, *input),
        r@.len() <= input.pending@.len(),
{
    let mut chosen: Vec<usize> = Vec::new();
    for i in 0..input.pending.len()
        invariant
            input.wf(),
            ints(chosen@) =~= stuck_at(input.pending@, input.now, i as nat),
            chosen@.len() <= i,
            forall|k: int| 0 <= k < chosen@.len() ==> (#[trigger] chosen@[k]) < i,
            forall|k: int, l: int|
                0 <= k < l < chosen@.len() ==> #[trigger] chosen@[k] < #[trigger] chosen@[l],
            forall|k: int|
                0 <= k < chosen@.len() ==> is_stuck(
                    input.pending@[(#[trigger] chosen@[k]) as int],
                    input.now,
                ),
    {
        let c = &input.pending[i];
        if matches!(c.state, ClaimState::Pending) && input.now - c.created_at >= CHIMNEY_BAR {
            chosen.push(i);
        }
    }
    let keys = claimed_of(input.pending);
    let order = order_by_number(&keys, &chosen);
    let ghost at = ints(order@);
    proof {
        assert forall|k: int| 0 <= k < order@.len() implies (#[trigger] order@[k])
            < input.pending@.len() && is_stuck(input.pending@[order@[k] as int], input.now) by {
            assert(ints(chosen@).contains(at[k]));
            let j = choose|j: int| 0 <= j < ints(chosen@).len() && ints(chosen@)[j] == at[k];
            assert(chosen@[j] == order@[k]);
        }
    }
    let mut lines: Vec<String> = Vec::new();
    for n in 0..order.len()
        invariant
            markup.is_total(),
            input.wf(),
            at == ints(order@),
            forall|k: int|
                0 <= k < order@.len() ==> (#[trigger] order@[k]) < input.pending@.len() && is_stuck(
                    input.pending@[order@[k] as int],
                    input.now,
                ),
            lines@.len() == n,
            forall|k: int|
                0 <= k < n ==> is_stuck_line(
                    (#[trigger] lines@[k])@,
                    *markup,
                    input.pending@[at[k]],
                    *input,
                ),
    {
        lines.push(stuck_line(markup, &input.pending[order[n]], input));
    }
    proof {
        assert forall|k: int| 0 <= k < at.len() implies is_stuck_line(
            views(lines@)[k],
            *markup,
            #[trigger] input.pending@[at[k]],
            *input,
        ) by {
            assert(is_stuck_line(lines@[k]@, *markup, input.pending@[at[k]], *input));
        }
        assert(is_ordered_by_number(
            at,
            claimed(input.pending@),
            stuck_at(input.pending@, input.now, input.pending@.len()),
        ));
    }
    lines
}

// ---- Gifts still wrapped ----------------------------------------------------------------------

/// Whether a gift could be opened, and was not, a week before this week's end.
pub open spec fn is_wrapped(l: Link, open: bool, slot: Slot) -> bool {
    l.claims_used == 0 && open && l.unlock_at is Some && slot.has(
        l.unlock_at->0 + 7 * DAY_NANOS,
    )
}

/// The positions, below `n`, of the gifts that are still wrapped.
pub open spec fn wrapped_at(links: Seq<Link>, open: Seq<bool>, slot: Slot, n: nat) -> Seq<int> {
    selected(n, |i: int| is_wrapped(links[i], open[i], slot))
}

pub open spec fn wrapped_text(l: Link, who: Seq<char>) -> Seq<char> {
    "· the gift for "@ + who + " — openable since "@ + eastern_text(l.unlock_at->0 as int)
        + ", still wrapped a week later"@
}

/// Whether `line` speaks of a gift that is still wrapped.
pub open spec fn is_wrapped_line<S: Fn(String) -> String, E: Fn(String) -> String>(
    line: Seq<char>,
    markup: Markup<S, E>,
    l: Link,
    input: Input<'_>,
) -> bool {
    exists|who: Seq<char>| #[trigger]
        markup.is_field(recipient_name(l, input.friends@), LABEL_MAX as nat, who) && line
            == wrapped_text(l, who)
}

/// Whether `lines` are those about gifts that are still wrapped, as the links come.
pub open spec fn are_wrapped_lines<S: Fn(String) -> String, E: Fn(String) -> String>(
    lines: Seq<Seq<char>>,
    markup: Markup<S, E>,
    input: Input<'_>,
) -> bool {
    let at = wrapped_at(input.links@, input.open@, input.slot, input.links@.len());
    lines.len() == at.len() && forall|k: int|
        0 <= k < at.len() ==> is_wrapped_line(
            lines[k],
            markup,
            #[trigger] input.links@[at[k]],
            input,
        )
}

/// The lines about gifts that are still wrapped.
fn wrapped<S: Fn(String) -> String, E: Fn(String) -> String>(
    markup: &Markup<S, E>,
    input: &Input<'_>,
) -> (r: Vec<String>)
    requires
        markup.is_total(),
        input.wf(),
    ensures
        are_wrapped_lines(views(r@), *markup, *input),
        r@.len() <= input.links@.len(),
{
    let mut lines: Vec<String> = Vec::new();
    for i in 0..input.links.len()
        invariant
            markup.is_total(),
            input.wf(),
            lines@.len() <= i,
            lines@.len() == wrapped_at(input.links@, input.open@, input.slot, i as nat).len(),
            forall|k: int|
                0 <= k < lines@.len() ==> is_wrapped_line(
                    (#[trigger] lines@[k])@,
                    *markup,
                    input.links@[wrapped_at(
                        input.links@,
                        input.open@,
                        input.slot,
                        i as nat,
                    )[k]],
                    *input,
                ),
    {
        let l = &input.links[i];
        assert(is_dated_link(*l));
        if l.claims_used == 0 && input.open[i] {
            if let Some(u) = l.unlock_at {
                if input.slot.contains(u + 7 * DAY_NANOS) {
                    let who = recipient(markup, l, input.friends);
                    let mut out = String::from_str("· the gift for ");
                    out.append(who.as_str());
                    out.append(" — openable since ");
                    out.append(eastern_date(u).as_str());
                    out.append(", still wrapped a week later");
                    assert(out@ == wrapped_text(*l, who@));
                    assert(is_wrapped_line(out@, *markup, *l, *input));
                    lines.push(out);
                }
            }
        }
    }
    proof {
        let at = wrapped_at(input.links@, input.open@, input.slot, input.links@.len());
        assert forall|k: int| 0 <= k < at.len() implies is_wrapped_line(
            views(lines@)[k],
            *markup,
            #[trigger] input.links@[at[k]],
            *input,
        ) by {
            assert(is_wrapped_line(lines@[k]@, *markup, input.links@[at[k]], *input));
        }
    }
    lines
}

// ---- Doors that close -------------------------------------------------------------------------

/// Whether a door closes in a week.
pub open spec fn is_closing(l: Link, open: bool, week: Slot) -> bool {
    open && l.expires_at is Some && week.has(l.expires_at->0 as int)
}

/// The positions, below `n`, of the doors that close in a week.
pub open spec fn closing_at(links: Seq<Link>, open: Seq<bool>, week: Slot, n: nat) -> Seq<int> {
    selected(n, |i: int| is_closing(links[i], open[i], week))
}

/// When each link expires; 0 for one that does not.
pub open spec fn expiries(links: Seq<Link>) -> Seq<i128> {
    Seq::new(
        links.len(),
        |i: int|
            match links[i].expires_at {
                Some(e) => e,
                None => 0i128,
            },
    )
}

pub open spec fn closing_text(l: Link, who: Seq<char>) -> Seq<char> {
    let left = l.claims_allowed - l.claims_used;
    "· the door for "@ + who + " closes "@ + weekday(
        (eastern_day(l.expires_at->0 as int) + 1) % 7,
    ) + " with "@ + decimal(left as nat) + " claim"@ + (if left == 1 {
        ""@
    } else {
        "s"@
    }) + " left"@
}

/// Whether `line` speaks of a door that closes.
pub open spec fn is_closing_line<S: Fn(String) -> String, E: Fn(String) -> String>(
    line: Seq<char>,
    markup: Markup<S, E>,
    l: Link,
    input: Input<'_>,
) -> bool {
    exists|who: Seq<char>| #[trigger]
        markup.is_field(recipient_name(l, input.friends@), LABEL_MAX as nat, who) && line
            == closing_text(l, who)
}

/// The week after the one that the lantern is lit for.
pub open spec fn week_after(slot: Slot) -> Slot {
    Slot { sunday: (slot.sunday + 7) as i32 }
}

/// Whether `lines` are those about doors that close in the week to come, the next to close first.
pub open spec fn are_closing_lines<S: Fn(String) -> String, E: Fn(String) -> String>(
    lines: Seq<Seq<char>>,
    markup: Markup<S, E>,
    input: Input<'_>,
) -> bool {
    exists|at: Seq<int>| #[trigger]
        is_ordered_by_number(
            at,
            expiries(input.links@),
            closing_at(
                input.links@,
                input.open@,
                week_after(input.slot),
                input.links@.len(),
            ),
        ) && lines.len() == at.len() && forall|k: int|
            0 <= k < at.len() ==> is_closing_line(
                lines[k],
                markup,
                #[trigger] input.links@[at[k]],
                input,
            )
}

fn expiries_of(links: &Vec<Link>) -> (r: Vec<i128>)
    ensures
        r@ == expiries(links@),
{
    let mut out: Vec<i128> = Vec::new();
    for i in 0..links.len()
        invariant
            out@ =~= expiries(links@).take(i as int),
    {
        out.push(
            match links[i].expires_at {
                Some(e) => e,
                None => 0,
            },
        );
    }
    assert(out@ =~= expiries(links@));
    out
}

fn closing_line<S: Fn(String) -> String, E: Fn(String) -> String>(
    markup: &Markup<S, E>,
    l: &Link,
    e: i128,
    input: &Input<'_>,
) -> (r: String)
    requires
        markup.is_total(),
        l.expires_at == Some(e),
        is_eastern_instant(e),
        l.claims_used <= l.claims_allowed,
    ensures
        is_closing_line(r@, *markup, *l, *input),
{
    let who = recipient(markup, l, input.friends);
    let left: u32 = l.claims_allowed - l.claims_used;
    let mut out = String::from_str("· the door for ");
    out.append(who.as_str());
    out.append(" closes ");
    out.append(weekday_name(e));
    out.append(" with ");
    out.append(decimal_of(left as u64).as_str());
    out.append(" claim");
    out.append(
        if left == 1 {
            ""
        } else {
            "s"
        },
    );
    out.append(" left");
    assert(out@ == closing_text(*l, who@));
    out
}

/// The lines about doors that close in the week to come.
fn closing<S: Fn(String) -> String, E: Fn(String) -> String>(
    markup: &Markup<S, E>,
    input: &Input<'_>,
) -> (r: Vec<String>)
    requires
        markup.is_total(),
        input.wf(),
    ensures
        are_closing_lines(views(r@), *markup, *input),
        r@.len() <= input.links@.len(),
{
    let week = input.slot.next();
    let mut chosen: Vec<usize> = Vec::new();
    for i in 0..input.links.len()
        invariant
            input.wf(),
            week == week_after(input.slot),
            is_day(week.sunday as int),
            ints(chosen@) =~= closing_at(input.links@, input.open@, week, i as nat),
            chosen@.len() <= i,
            forall|k: int| 0 <= k < chosen@.len() ==> (#[trigger] chosen@[k]) < i,
            forall|k: int, l: int|
                0 <= k < l < chosen@.len() ==> #[trigger] chosen@[k] < #[trigger] chosen@[l],
            forall|k: int|
                0 <= k < chosen@.len() ==> is_closing(
                    input.links@[(#[trigger] chosen@[k]) as int],
                    input.open@[chosen@[k] as int],
                    week,
                ),
    {
        let l = &input.links[i];
        if input.open[i] {
            if let Some(e) = l.expires_at {
                if week.contains(e) {
                    chosen.push(i);
                }
            }
        }
    }
    let keys = expiries_of(input.links);
    let order = order_by_number(&keys, &chosen);
    let ghost at = ints(order@);
    proof {
        assert forall|k: int| 0 <= k < order@.len() implies (#[trigger] order@[k])
            < input.links@.len() && is_closing(
            input.links@[order@[k] as int],
            input.open@[order@[k] as int],
            week,
        ) by {
            assert(ints(chosen@).contains(at[k]));
            let j = choose|j: int| 0 <= j < ints(chosen@).len() && ints(chosen@)[j] == at[k];
            assert(chosen@[j] == order@[k]);
        }
    }
    let mut lines: Vec<String> = Vec::new();
    for n in 0..order.len()
        invariant
            markup.is_total(),
            input.wf(),
            week == week_after(input.slot),
            at == ints(order@),
            forall|k: int|
                0 <= k < order@.len() ==> (#[trigger] order@[k]) < input.links@.len()
                    && is_closing(
                    input.links@[order@[k] as int],
                    input.open@[order@[k] as int],
                    week,
                ),
            lines@.len() == n,
            forall|k: int|
                0 <= k < n ==> is_closing_line(
                    (#[trigger] lines@[k])@,
                    *markup,
                    input.links@[at[k]],
                    *input,
                ),
    {
        let l = &input.links[order[n]];
        assert(is_dated_link(*l));
        if let Some(e) = l.expires_at {
            lines.push(closing_line(markup, l, e, input));
        }
    }
    proof {
        assert forall|k: int| 0 <= k < at.len() implies is_closing_line(
            views(lines@)[k],
            *markup,
            #[trigger] input.links@[at[k]],
            *input,
        ) by {
            assert(is_closing_line(lines@[k]@, *markup, input.links@[at[k]], *input));
        }
        assert(is_ordered_by_number(
            at,
            expiries(input.links@),
            closing_at(input.links@, input.open@, week_after(input.slot), input.links@.len()),
        ));
    }
    lines
}

// ---- All of it --------------------------------------------------------------------------------

/// The four rooms, lit or not.
pub open spec fn four_rooms(
    doors: Seq<Seq<char>>,
    chimney: Seq<Seq<char>>,
    wrapped: Seq<Seq<char>>,
    closing: Seq<Seq<char>>,
) -> Seq<(Seq<char>, Seq<Seq<char>>)> {
    seq![
        (DOORS_HEADING@, doors),
        (CHIMNEY_HEADING@, chimney),
        (WRAPPED_HEADING@, wrapped),
        (CLOSING_HEADING@, closing),
    ]
}

/// Whether `r` is what the lantern says, with the lines of its four rooms and the number of doors.
pub open spec fn is_lit(
    r: Option<Lantern>,
    doors: Seq<Seq<char>>,
    door_count: int,
    chimney: Seq<Seq<char>>,
    wrapped: Seq<Seq<char>>,
    closing: Seq<Seq<char>>,
) -> bool {
    let rooms = lit_rooms(four_rooms(doors, chimney, wrapped, closing));
    match r {
        None => rooms.len() == 0,
        Some(l) => {
            &&& rooms.len() > 0
            &&& room_views(l.rooms@) == rooms
            &&& l.counts@[0] == door_count
            &&& l.counts@[1] == chimney.len()
            &&& l.counts@[2] == wrapped.len()
            &&& l.counts@[3] == closing.len()
        },
    }
}

fn add_room(rooms: &mut Vec<Room>, heading: &'static str, lines: Vec<String>)
    requires
        lines@.len() <= u32::MAX,
    ensures
        room_views(final(rooms)@) == if lines@.len() == 0 {
            room_views(old(rooms)@)
        } else {
            room_views(old(rooms)@).push(room_of(heading@, views(lines@)))
        },
{
    if let Some(r) = room(heading, lines) {
        assert(room_views(rooms@.push(r)) =~= room_views(rooms@).push(r@));
        rooms.push(r);
    }
}

/// Lights the lantern; there is none if there is nothing to say.
pub fn compose<S: Fn(String) -> String, E: Fn(String) -> String>(
    markup: &Markup<S, E>,
    input: &Input<'_>,
) -> (r: Option<Lantern>)
    requires
        markup.is_total(),
        input.wf(),
    ensures
        exists|
            d: Seq<Seq<char>>,
            n: int,
            c: Seq<Seq<char>>,
            w: Seq<Seq<char>>,
            e: Seq<Seq<char>>,
        |
            are_door_lines(d, n, *markup, *input) && are_stuck_lines(c, *markup, *input)
                && are_wrapped_lines(w, *markup, *input) && are_closing_lines(e, *markup, *input)
                && #[trigger] is_lit(r, d, n, c, w, e),
{
    let (d, n) = doors(markup, input);
    let c = chimney(markup, input);
    let w = wrapped(markup, input);
    let e = closing(markup, input);
    let counts: [u32; 4] = [n, c.len() as u32, w.len() as u32, e.len() as u32];
    let ghost (vd, vc, vw, ve) = (views(d@), views(c@), views(w@), views(e@));
    let mut rooms: Vec<Room> = Vec::new();
    assert(room_views(rooms@) =~= Seq::empty());
    add_room(&mut rooms, DOORS_HEADING, d);
    add_room(&mut rooms, CHIMNEY_HEADING, c);
    add_room(&mut rooms, WRAPPED_HEADING, w);
    add_room(&mut rooms, CLOSING_HEADING, e);
    proof {
        let all = four_rooms(vd, vc, vw, ve);
        reveal_with_fuel(lit_rooms, 5);
        assert(all.drop_last().drop_last().drop_last().drop_last() =~= Seq::empty());
        assert(room_views(rooms@) == lit_rooms(all));
    }
    let r = if rooms.len() == 0 {
        None
    } else {
        Some(Lantern { rooms, counts })
    };
    assert(is_lit(r, vd, n as int, vc, vw, ve));
    r
}

// ---- The post ---------------------------------------------------------------------------------

/// Whether a text starts with another.
pub open spec fn starts_with(s: Seq<char>, p: Seq<char>) -> bool {
    s.len() >= p.len() && s.take(p.len() as int) == p
}

/// A text with every occurrence of `pat` replaced by `by`, from the left.
pub open spec fn replaced(s: Seq<char>, pat: Seq<char>, by: Seq<char>) -> Seq<char>
    decreases s.len(),
{
    if s.len() == 0 || pat.len() == 0 {
        s
    } else if starts_with(s, pat) {
        by + replaced(s.skip(pat.len() as int), pat, by)
    } else {
        seq![s[0]] + replaced(s.skip(1), pat, by)
    }
}

fn starts_at(v: &Vec<char>, i: usize, p: &Vec<char>) -> (r: bool)
    requires
        i <= v@.len(),
    ensures
        r == starts_with(v@.skip(i as int), p@),
{
    let n: usize = v.len();
    if n - i < p.len() {
        return false;
    }
    for k in 0..p.len()
        invariant
            n == v@.len(),
            i <= v@.len(),
            v@.len() - i >= p@.len(),
            forall|j: int| 0 <= j < k ==> v@[i + j] == p@[j],
    {
        if v[i + k] != p[k] {
            assert(v@.skip(i as int).take(p@.len() as int)[k as int] != p@[k as int]);
            return false;
        }
    }
    assert(v@.skip(i as int).take(p@.len() as int) =~= p@);
    true
}

/// Replaces every occurrence of `pat` in a text.
pub fn replace(s: &str, pat: &str, by: &str) -> (r: String)
    requires
        pat@.len() > 0,
    ensures
        r@ == replaced(s@, pat@, by@),
{
    let v = chars_of(s);
    let p = chars_of(pat);
    let mut out = String::new();
    let mut i: usize = 0;
    assert(v@.skip(0) =~= v@);
    assert(out@ + replaced(v@.skip(0), pat@, by@) =~= replaced(s@, pat@, by@));
    while i < v.len()
        invariant
            v@ == s@,
            p@ == pat@,
            pat@.len() > 0,
            i <= v@.len(),
            out@ + replaced(v@.skip(i as int), pat@, by@) == replaced(s@, pat@, by@),
        decreases v@.len() - i,
    {
        let ghost rest = v@.skip(i as int);
        let ghost was = out@;
        if starts_at(&v, i, &p) {
            out.append(by);
            assert(rest.skip(pat@.len() as int) =~= v@.skip(i + pat@.len()));
            assert(was + (by@ + replaced(rest.skip(pat@.len() as int), pat@, by@)) =~= out@
                + replaced(v@.skip(i + pat@.len()), pat@, by@));
            i += p.len();
        } else {
            out.push(v[i]);
            assert(rest.skip(1) =~= v@.skip(i + 1));
            assert(was + (seq![rest[0]] + replaced(rest.skip(1), pat@, by@)) =~= out@ + replaced(
                v@.skip(i + 1),
                pat@,
                by@,
            ));
            i += 1;
        }
    }
    assert(v@.skip(i as int) =~= Seq::empty());
    assert(out@ + Seq::<char>::empty() =~= out@);
    out
}

/// The lines of a room, one below the other.
pub open spec fn lines_text(lines: Seq<Seq<char>>) -> Seq<char>
    decreases lines.len(),
{
    if lines.len() == 0 {
        Seq::empty()
    } else {
        lines_text(lines.drop_last()) + lines.last() + "\n"@
    }
}

/// A room as it is posted.
pub open spec fn room_text(r: RoomView, site: Seq<char>) -> Seq<char> {
    "\n"@ + replaced(r.heading, "{site}"@, site) + "\n"@ + lines_text(r.lines) + (if r.more > 0 {
        "· and "@ + decimal(r.more as nat) + " more\n"@
    } else {
        Seq::empty()
    })
}

/// The rooms as they are posted.
pub open spec fn rooms_text(rooms: Seq<RoomView>, site: Seq<char>) -> Seq<char>
    decreases rooms.len(),
{
    if rooms.len() == 0 {
        Seq::empty()
    } else {
        rooms_text(rooms.drop_last(), site) + room_text(rooms.last(), site)
    }
}

/// The lantern as it is posted.
pub open spec fn lantern_text(rooms: Seq<RoomView>, slot: Slot, site: Seq<char>, preview: bool) -> Seq<
    char,
> {
    "🏮 the lantern · week of "@ + eastern_text(slot.starts()) + (if preview {
        " (preview — nothing recorded)"@
    } else {
        ""@
    }) + "\n"@ + rooms_text(rooms, site)
}

fn room_text_of(r: &Room, site: &str) -> (t: String)
    ensures
        t@ == room_text(r@, site@),
{
    proof {
        reveal_strlit("{site}");
    }
    let mut out = String::from_str("\n");
    out.append(replace(r.heading.as_str(), "{site}", site).as_str());
    out.append("\n");
    let ghost head = out@;
    let ghost all = views(r.lines@);
    assert(head =~= head + lines_text(all.take(0)));
    for i in 0..r.lines.len()
        invariant
            all == views(r.lines@),
            out@ == head + lines_text(all.take(i as int)),
    {
        let ghost part = all.take(i + 1);
        assert(part.drop_last() =~= all.take(i as int));
        assert(part.last() == r.lines@[i as int]@);
        out.append(r.lines[i].as_str());
        out.append("\n");
        assert(out@ =~= head + lines_text(part));
    }
    assert(all.take(r.lines@.len() as int) =~= all);
    if r.more > 0 {
        let ghost so_far = out@;
        out.append("· and ");
        out.append(decimal_of(r.more as u64).as_str());
        out.append(" more\n");
        assert(out@ =~= so_far + ("· and "@ + decimal(r.more as nat) + " more\n"@));
    }
    assert(out@ =~= room_text(r@, site@));
    out
}

/// The post for a lantern: text alone, without white space at its end, cut to what the channel takes.
pub fn render(l: &Lantern, slot: &Slot, site_url: &str, preview: bool) -> (r: Card)
    requires
        slot.wf(),
    ensures
        r.content@ == capped_content(
            trim_end(lantern_text(room_views(l.rooms@), *slot, site_url@, preview)),
        ),
        r.embeds@.len() == 0,
        r.calls_nobody(),
{
    let mut out = String::from_str("🏮 the lantern · week of ");
    out.append(eastern_date(slot.start()).as_str());
    out.append(
        if preview {
            " (preview — nothing recorded)"
        } else {
            ""
        },
    );
    out.append("\n");
    let ghost head = out@;
    let ghost all = room_views(l.rooms@);
    assert(head =~= head + rooms_text(all.take(0), site_url@));
    for i in 0..l.rooms.len()
        invariant
            all == room_views(l.rooms@),
            out@ == head + rooms_text(all.take(i as int), site_url@),
    {
        let ghost part = all.take(i + 1);
        assert(part.drop_last() =~= all.take(i as int));
        assert(part.last() == l.rooms@[i as int]@);
        out.append(room_text_of(&l.rooms[i], site_url).as_str());
        assert(out@ =~= head + rooms_text(part, site_url@));
    }
    assert(all.take(l.rooms@.len() as int) =~= all);
    let v = chars_of(out.as_str());
    let n: usize = trim_end_len(&v);
    let t = text_of(&v, 0, n);
    assert(t@ =~= trim_end(v@));
    Card {
        content: cap_content(t.as_str()),
        embeds: Vec::new(),
        allowed_mentions: no_mentions(),
    }
}

} // verus!
