//! What the lantern says, in the terms of the links and claims that it is lit over.
use vstd::prelude::*;
use crate::bell::Markup;
use crate::calendar::{date_at, day_at, julian, midnight};
use crate::lantern::{
    are_closing_lines, are_door_lines, are_stuck_lines, are_wrapped_lines, backlog_of, backlog_text,
    claimed, closing_at, closing_text, created, door_age, door_text, eastern_day, eastern_text,
    expiries, friend_name, game_title, is_closing, is_closing_line, is_daylight, is_door_line,
    is_lit, is_stuck, is_stuck_line, is_wrapped, lines_text, recipient_name, replaced, room_of,
    room_text, rooms_text, shelf, spoken_of, starts_with, stuck_at, stuck_line_text, sunday_from,
    title_name, unused_doors, week_after, weekday, wrapped_at, wrapped_text, Age, Friend, Input,
    Lantern, RoomView, Slot,
};
use crate::model::{Claim, ClaimState, Game, Link};
use crate::order::is_ordered_by_number;
use crate::select::selected_is_exact;
use crate::text::{decimal, decimal_is_injective};

verus! {

// ---- Doors that close -------------------------------------------------------------------------

/// The line about a door that closes names how many claims are left: together with those that were
/// used, they are those that are allowed.
pub proof fn a_closing_door_names_what_is_left(l: Link, who: Seq<char>, left: nat)
    requires
        l.claims_used + left == l.claims_allowed,
    ensures
        ({
            let head = "· the door for "@ + who + " closes "@ + weekday(
                (eastern_day(l.expires_at->0 as int) + 1) % 7,
            ) + " with "@ + decimal(left);
            closing_text(l, who) == if left == 1 {
                head + " claim left"@
            } else {
                head + " claims left"@
            }
        }),
{
    reveal_strlit(" claim left");
    reveal_strlit(" claims left");
    reveal_strlit(" claim");
    reveal_strlit("");
    reveal_strlit("s");
    reveal_strlit(" left");
    assert(" claim"@ + ""@ + " left"@ =~= " claim left"@);
    assert(" claim"@ + "s"@ + " left"@ =~= " claims left"@);
    let head = "· the door for "@ + who + " closes "@ + weekday(
        (eastern_day(l.expires_at->0 as int) + 1) % 7,
    ) + " with "@ + decimal(left);
    assert(l.claims_allowed - l.claims_used == left);
    assert(closing_text(l, who) =~= head + (" claim"@ + (if left == 1 {
        ""@
    } else {
        "s"@
    }) + " left"@));
}

/// Two doors for the same one that close on the same day, and differ in what is left, have different
/// lines.
pub proof fn what_is_left_tells_closing_doors_apart(a: Link, b: Link, who: Seq<char>)
    requires
        a.expires_at == b.expires_at,
        a.claims_used <= a.claims_allowed,
        b.claims_used <= b.claims_allowed,
        a.claims_allowed - a.claims_used != b.claims_allowed - b.claims_used,
    ensures
        closing_text(a, who) != closing_text(b, who),
{
    let x = (a.claims_allowed - a.claims_used) as nat;
    let y = (b.claims_allowed - b.claims_used) as nat;
    let head = "· the door for "@ + who + " closes "@ + weekday(
        (eastern_day(a.expires_at->0 as int) + 1) % 7,
    ) + " with "@;
    a_closing_door_names_what_is_left(a, who, x);
    a_closing_door_names_what_is_left(b, who, y);
    reveal_strlit(" claim left");
    reveal_strlit(" claims left");
    let ta = if x == 1 {
        " claim left"@
    } else {
        " claims left"@
    };
    let tb = if y == 1 {
        " claim left"@
    } else {
        " claims left"@
    };
    let (p, q) = (closing_text(a, who), closing_text(b, who));
    assert(p == head + decimal(x) + ta);
    assert(q == head + decimal(y) + tb);
    if p == q {
        assert(p[p.len() - 6] == ta[ta.len() - 6]);
        assert(q[q.len() - 6] == tb[tb.len() - 6]);
        assert(ta == tb);
        assert(decimal(x) =~= p.subrange(head.len() as int, p.len() - ta.len()));
        assert(decimal(y) =~= q.subrange(head.len() as int, q.len() - tb.len()));
        decimal_is_injective(x, y);
    }
}

/// A door closes soon if a claim can be made on it, and it expires within seven days of the end of the
/// week that the lantern is lit for.
pub proof fn a_door_closes_within_the_next_week(l: Link, open: bool, slot: Slot)
    requires
        slot.wf(),
    ensures
        is_closing(l, open, week_after(slot)) <==> open && (l.expires_at matches Some(e)
            && slot.ends() <= e < slot.ends() + 604_800_000_000_000),
{
}

/// All doors that close soon have a line, and no others.
pub proof fn every_closing_door_is_told_of(links: Seq<Link>, open: Seq<bool>, week: Slot, i: int)
    requires
        0 <= i < links.len(),
    ensures
        closing_at(links, open, week, links.len()).contains(i) <==> is_closing(
            links[i],
            open[i],
            week,
        ),
{
    let p = |i: int| is_closing(links[i], open[i], week);
    selected_is_exact(links.len(), p);
    let at = closing_at(links, open, week, links.len());
    if at.contains(i) {
        let k = choose|k: int| 0 <= k < at.len() && at[k] == i;
        assert(p(at[k]));
    }
    if is_closing(links[i], open[i], week) {
        assert(p(i));
    }
}

/// Every door that closes in the week to come has a line, which names who it is for, when it closes,
/// and what is left on it.
pub proof fn a_closing_door_has_its_line<S: Fn(String) -> String, E: Fn(String) -> String>(
    lines: Seq<Seq<char>>,
    markup: Markup<S, E>,
    input: Input<'_>,
    i: int,
    left: nat,
)
    requires
        are_closing_lines(lines, markup, input),
        input.slot.wf(),
        0 <= i < input.links@.len(),
        input.open@[i],
        input.links@[i].expires_at matches Some(e) && input.slot.ends() <= e < input.slot.ends()
            + 604_800_000_000_000,
        input.links@[i].claims_used + left == input.links@[i].claims_allowed,
    ensures
        exists|k: int, who: Seq<char>|
            0 <= k < lines.len() && #[trigger] markup.is_field(
                recipient_name(input.links@[i], input.friends@),
                120,
                who,
            ) && #[trigger] lines[k] == "· the door for "@ + who + " closes "@ + weekday(
                (eastern_day(input.links@[i].expires_at->0 as int) + 1) % 7,
            ) + " with "@ + decimal(left) + (if left == 1 {
                " claim left"@
            } else {
                " claims left"@
            }),
{
    let l = input.links@[i];
    let week = week_after(input.slot);
    let chosen = closing_at(input.links@, input.open@, week, input.links@.len());
    every_closing_door_is_told_of(input.links@, input.open@, week, i);
    let at = choose|at: Seq<int>| #[trigger]
        is_ordered_by_number(at, expiries(input.links@), chosen) && lines.len() == at.len()
            && forall|k: int|
            0 <= k < at.len() ==> is_closing_line(
                lines[k],
                markup,
                #[trigger] input.links@[at[k]],
                input,
            );
    let j = choose|j: int| 0 <= j < chosen.len() && chosen[j] == i;
    assert(at.contains(chosen[j]));
    let k = choose|k: int| 0 <= k < at.len() && at[k] == i;
    assert(input.links@[at[k]] == l);
    let who = choose|who: Seq<char>| #[trigger]
        markup.is_field(recipient_name(l, input.friends@), 120, who) && lines[k] == closing_text(
            l,
            who,
        );
    a_closing_door_names_what_is_left(l, who, left);
    assert(lines[k] == closing_text(l, who));
}

// ---- Doors that nobody used -------------------------------------------------------------------

/// A shelf for everyone names its slots, a door for someone names who, and after two months what is
/// still inside: all that is allowed and was not used.
pub proof fn a_door_line_names_what_it_holds(l: Link, who: Seq<char>, left: nat)
    requires
        l.claims_used + left == l.claims_allowed,
    ensures
        ({
            let for_all = l.claims_allowed >= 2 && l.friend_id is None && l.curated_game_ids is None;
            let shelf_head = "· the shelf for "@ + who + " — "@ + decimal(l.claims_allowed as nat);
            let door_head = "· the door for "@ + who;
            &&& door_text(l, Age::TwoWeeks, who) == if for_all {
                shelf_head + " slots, nobody's taken one in two weeks"@
            } else {
                door_head + " — open two weeks, nobody's come through yet"@
            }
            &&& door_text(l, Age::TwoMonths, who) == if for_all {
                shelf_head + " slots, nobody's taken one in two months. shall it stay open?"@
            } else {
                door_head + " — open two months, "@ + decimal(left)
                    + " still inside. shall it stay open?"@
            }
        }),
{
    assert(l.claims_allowed - l.claims_used == left);
}

/// A door is spoken of in the week in which it has stood open for 14 days, and in that in which it has
/// stood open for 60. One that has stood open for longer is counted in the backlog as long as no
/// lantern was delivered.
pub proof fn a_door_is_spoken_of_by_its_age(l: Link, slot: Slot, any_delivered: bool)
    ensures
        ({
            let fortnight = l.created_at + 1_209_600_000_000_000int;
            let sixty = l.created_at + 5_184_000_000_000_000int;
            let from = slot.ends() - 604_800_000_000_000;
            let age = door_age(l, slot, any_delivered);
            &&& age == Age::TwoWeeks <==> from <= fortnight < slot.ends()
            &&& age == Age::TwoMonths <==> from <= sixty < slot.ends()
            &&& age == Age::Backlog <==> !any_delivered && sixty < from
        }),
{
}

/// The doors in question are those that a claim can be made on and nobody has used.
pub proof fn only_open_and_unused_doors_count(links: Seq<Link>, open: Seq<bool>, i: int)
    requires
        0 <= i < links.len(),
    ensures
        unused_doors(links, open, links.len()).contains(i) <==> open[i] && links[i].claims_used == 0,
{
    let p = |i: int| open[i] && links[i].claims_used == 0;
    selected_is_exact(links.len(), p);
    let at = unused_doors(links, open, links.len());
    if at.contains(i) {
        let k = choose|k: int| 0 <= k < at.len() && at[k] == i;
        assert(p(at[k]));
    }
    if open[i] && links[i].claims_used == 0 {
        assert(p(i));
    }
}

/// Every door in question is spoken of, counted in the backlog, or of no interest this week, and none
/// is counted twice.
pub proof fn doors_are_told_of_or_counted(
    links: Seq<Link>,
    at: Seq<int>,
    slot: Slot,
    any_delivered: bool,
    n: nat,
)
    requires
        n <= at.len(),
    ensures
        spoken_of(links, at, slot, any_delivered, n).len() + backlog_of(
            links,
            at,
            slot,
            any_delivered,
            n,
        ) <= n,
        any_delivered ==> backlog_of(links, at, slot, any_delivered, n) == 0,
        forall|k: int|
            0 <= k < n && (door_age(links[#[trigger] at[k]], slot, any_delivered) == Age::TwoWeeks
                || door_age(links[at[k]], slot, any_delivered) == Age::TwoMonths) ==> spoken_of(
                links,
                at,
                slot,
                any_delivered,
                n,
            ).contains(at[k]),
        (forall|k: int|
            0 <= k < n ==> door_age(links[#[trigger] at[k]], slot, any_delivered) == Age::Backlog)
            ==> backlog_of(links, at, slot, any_delivered, n) == n,
    decreases n,
{
    if n > 0 {
        let m = (n - 1) as nat;
        doors_are_told_of_or_counted(links, at, slot, any_delivered, m);
        let head = spoken_of(links, at, slot, any_delivered, m);
        let all = spoken_of(links, at, slot, any_delivered, n);
        assert(door_age(links[at[m as int]], slot, any_delivered) == Age::Backlog
            ==> !any_delivered);
        assert forall|k: int|
            0 <= k < n && (door_age(links[#[trigger] at[k]], slot, any_delivered) == Age::TwoWeeks
                || door_age(links[at[k]], slot, any_delivered)
                == Age::TwoMonths) implies all.contains(at[k]) by {
            if k < m {
                let j = choose|j: int| 0 <= j < head.len() && head[j] == at[k];
                assert(all[j] == at[k]);
            } else {
                assert(all[all.len() - 1] == at[k]);
            }
        }
    }
}

/// Every door that nobody used, and that is two weeks or two months old this week, has a line. Doors that
/// were never spoken of are counted in the first line, and the doors that have a line are counted apart.
pub proof fn an_unused_door_has_its_line<S: Fn(String) -> String, E: Fn(String) -> String>(
    lines: Seq<Seq<char>>,
    count: int,
    markup: Markup<S, E>,
    input: Input<'_>,
    i: int,
)
    requires
        are_door_lines(lines, count, markup, input),
        0 <= i < input.links@.len(),
        input.open@[i],
        input.links@[i].claims_used == 0,
        door_age(input.links@[i], input.slot, input.any_delivered) == Age::TwoWeeks || door_age(
            input.links@[i],
            input.slot,
            input.any_delivered,
        ) == Age::TwoMonths,
    ensures
        0 < count <= lines.len() <= count + 1,
        input.any_delivered ==> lines.len() == count,
        lines.len() == count + 1 ==> exists|n: nat|
            n > 0 && lines[0] == "· and "@ + #[trigger] decimal(n)
                + " doors older than two months nobody has walked through"@,
        exists|k: int, who: Seq<char>|
            0 <= k < lines.len() && #[trigger] markup.is_field(
                recipient_name(input.links@[i], input.friends@),
                120,
                who,
            ) && #[trigger] lines[k] == door_text(
                input.links@[i],
                door_age(input.links@[i], input.slot, input.any_delivered),
                who,
            ),
{
    let links = input.links@;
    let chosen = unused_doors(links, input.open@, links.len());
    only_open_and_unused_doors_count(links, input.open@, i);
    let at = choose|at: Seq<int>| #[trigger]
        is_ordered_by_number(at, created(links), chosen) && {
            let spoken = spoken_of(links, at, input.slot, input.any_delivered, at.len());
            let backlog = backlog_of(links, at, input.slot, input.any_delivered, at.len());
            let first = if backlog > 0 {
                1int
            } else {
                0int
            };
            &&& count == spoken.len()
            &&& lines.len() == spoken.len() + first
            &&& backlog > 0 ==> lines[0] == backlog_text(backlog)
            &&& forall|k: int|
                0 <= k < spoken.len() ==> is_door_line(
                    lines[k + first],
                    markup,
                    #[trigger] links[spoken[k]],
                    input,
                )
        };
    let spoken = spoken_of(links, at, input.slot, input.any_delivered, at.len());
    let backlog = backlog_of(links, at, input.slot, input.any_delivered, at.len());
    let first = if backlog > 0 {
        1int
    } else {
        0int
    };
    doors_are_told_of_or_counted(links, at, input.slot, input.any_delivered, at.len());
    let j = choose|j: int| 0 <= j < chosen.len() && chosen[j] == i;
    assert(at.contains(chosen[j]));
    let x = choose|x: int| 0 <= x < at.len() && at[x] == i;
    assert(spoken.contains(at[x]));
    let k = choose|k: int| 0 <= k < spoken.len() && spoken[k] == i;
    assert(links[spoken[k]] == links[i]);
    assert(is_door_line(lines[k + first], markup, links[i], input));
    let age = door_age(links[i], input.slot, input.any_delivered);
    let who = choose|who: Seq<char>| #[trigger]
        markup.is_field(recipient_name(links[i], input.friends@), 120, who) && lines[k + first]
            == door_text(links[i], age, who);
    assert(lines[k + first] == door_text(links[i], age, who));
    if backlog > 0 {
        assert(lines[0] == "· and "@ + decimal(backlog as nat)
            + " doors older than two months nobody has walked through"@);
    }
}

// ---- Claims and gifts -------------------------------------------------------------------------

/// A claim is stuck if it is pending and a day old. Its line names the whole weeks that it has been.
pub proof fn a_stuck_claim_names_its_weeks(c: Claim, now: i128, title: Seq<char>, weeks: nat)
    requires
        weeks * 604_800_000_000_000 <= now - c.created_at < (weeks + 1) * 604_800_000_000_000,
    ensures
        is_stuck(c, now) <==> c.state == ClaimState::Pending && now - c.created_at
            >= 86_400_000_000_000,
        stuck_line_text(c, now, title) == "· "@ + title + " — a claim started "@ + eastern_text(
            c.created_at as int,
        ) + " never finished (week "@ + decimal(weeks)
            + "). it clears when the claim is compensated (slot returned, game re-listed) or fulfilled — no admin button for that yet, see #234"@,
{
    let a = now - c.created_at;
    assert(a / 86_400_000_000_000 / 7 == weeks) by (nonlinear_arith)
        requires
            weeks * 604_800_000_000_000 <= a < (weeks + 1) * 604_800_000_000_000,
    ;
}

/// All claims that are stuck have a line, and no others.
pub proof fn every_stuck_claim_is_told_of(pending: Seq<Claim>, now: i128, i: int)
    requires
        0 <= i < pending.len(),
    ensures
        stuck_at(pending, now, pending.len()).contains(i) <==> is_stuck(pending[i], now),
{
    let p = |i: int| is_stuck(pending[i], now);
    selected_is_exact(pending.len(), p);
    let at = stuck_at(pending, now, pending.len());
    if at.contains(i) {
        let k = choose|k: int| 0 <= k < at.len() && at[k] == i;
        assert(p(at[k]));
    }
    if is_stuck(pending[i], now) {
        assert(p(i));
    }
}

/// Every claim that has been pending for a day has a line.
pub proof fn a_stuck_claim_has_its_line<S: Fn(String) -> String, E: Fn(String) -> String>(
    lines: Seq<Seq<char>>,
    markup: Markup<S, E>,
    input: Input<'_>,
    i: int,
)
    requires
        are_stuck_lines(lines, markup, input),
        0 <= i < input.pending@.len(),
        input.pending@[i].state == ClaimState::Pending,
        input.now - input.pending@[i].created_at >= 86_400_000_000_000,
    ensures
        exists|k: int, title: Seq<char>|
            0 <= k < lines.len() && #[trigger] markup.is_field(
                title_name(input.games@, input.pending@[i].game_id@),
                240,
                title,
            ) && #[trigger] lines[k] == stuck_line_text(input.pending@[i], input.now, title),
{
    let c = input.pending@[i];
    let chosen = stuck_at(input.pending@, input.now, input.pending@.len());
    every_stuck_claim_is_told_of(input.pending@, input.now, i);
    assert(is_stuck(c, input.now));
    let at = choose|at: Seq<int>| #[trigger]
        is_ordered_by_number(at, claimed(input.pending@), chosen) && lines.len() == at.len()
            && forall|k: int|
            0 <= k < at.len() ==> is_stuck_line(
                lines[k],
                markup,
                #[trigger] input.pending@[at[k]],
                input,
            );
    let j = choose|j: int| 0 <= j < chosen.len() && chosen[j] == i;
    assert(at.contains(chosen[j]));
    let k = choose|k: int| 0 <= k < at.len() && at[k] == i;
    assert(input.pending@[at[k]] == c);
    let title = choose|title: Seq<char>| #[trigger]
        markup.is_field(title_name(input.games@, c.game_id@), 240, title) && lines[k]
            == stuck_line_text(c, input.now, title);
    assert(lines[k] == stuck_line_text(c, input.now, title));
}

/// Every gift that is still wrapped has a line.
pub proof fn a_wrapped_gift_has_its_line<S: Fn(String) -> String, E: Fn(String) -> String>(
    lines: Seq<Seq<char>>,
    markup: Markup<S, E>,
    input: Input<'_>,
    i: int,
)
    requires
        are_wrapped_lines(lines, markup, input),
        0 <= i < input.links@.len(),
        input.open@[i],
        input.links@[i].claims_used == 0,
        input.links@[i].unlock_at matches Some(u) && input.slot.ends() - 604_800_000_000_000 <= u
            + 604_800_000_000_000 < input.slot.ends(),
    ensures
        exists|k: int, who: Seq<char>|
            0 <= k < lines.len() && #[trigger] markup.is_field(
                recipient_name(input.links@[i], input.friends@),
                120,
                who,
            ) && #[trigger] lines[k] == wrapped_text(input.links@[i], who),
{
    let l = input.links@[i];
    let at = wrapped_at(input.links@, input.open@, input.slot, input.links@.len());
    every_wrapped_gift_is_told_of(input.links@, input.open@, input.slot, i);
    assert(is_wrapped(l, input.open@[i], input.slot));
    let k = choose|k: int| 0 <= k < at.len() && at[k] == i;
    assert(input.links@[at[k]] == l);
    let who = choose|who: Seq<char>| #[trigger]
        markup.is_field(recipient_name(l, input.friends@), 120, who) && lines[k] == wrapped_text(
            l,
            who,
        );
    assert(lines[k] == wrapped_text(l, who));
}

/// A gift is still wrapped if a claim can be made on it, nobody has made one, and it could be opened
/// for a week at some time in the week that the lantern is lit for. Its line names since when.
pub proof fn a_wrapped_gift_has_waited_a_week(l: Link, open: bool, slot: Slot, who: Seq<char>)
    ensures
        is_wrapped(l, open, slot) <==> open && l.claims_used == 0 && (l.unlock_at matches Some(u)
            && slot.ends() - 604_800_000_000_000 <= u + 604_800_000_000_000 < slot.ends()),
        wrapped_text(l, who) == "· the gift for "@ + who + " — openable since "@ + eastern_text(
            l.unlock_at->0 as int,
        ) + ", still wrapped a week later"@,
{
}

/// All gifts that are still wrapped have a line, and no others.
pub proof fn every_wrapped_gift_is_told_of(links: Seq<Link>, open: Seq<bool>, slot: Slot, i: int)
    requires
        0 <= i < links.len(),
    ensures
        wrapped_at(links, open, slot, links.len()).contains(i) <==> is_wrapped(
            links[i],
            open[i],
            slot,
        ),
{
    let p = |i: int| is_wrapped(links[i], open[i], slot);
    selected_is_exact(links.len(), p);
    let at = wrapped_at(links, open, slot, links.len());
    if at.contains(i) {
        let k = choose|k: int| 0 <= k < at.len() && at[k] == i;
        assert(p(at[k]));
    }
    if is_wrapped(links[i], open[i], slot) {
        assert(p(i));
    }
}

// ---- Order ------------------------------------------------------------------------------------

/// What is told in the order of a number starts with the least, and tells all of it, each once.
pub proof fn the_least_comes_first(
    at: Seq<int>,
    keys: Seq<i128>,
    chosen: Seq<int>,
    i: int,
    j: int,
)
    requires
        is_ordered_by_number(at, keys, chosen),
        0 <= i < j < at.len(),
    ensures
        keys[at[i]] <= keys[at[j]],
        keys[at[i]] == keys[at[j]] ==> at[i] < at[j],
        at.len() == chosen.len(),
        forall|x: int| at.contains(x) <==> chosen.contains(x),
{
    assert forall|x: int| at.contains(x) <==> chosen.contains(x) by {
        if at.contains(x) {
            let k = choose|k: int| 0 <= k < at.len() && at[k] == x;
            assert(chosen.contains(at[k]));
        }
        if chosen.contains(x) {
            let k = choose|k: int| 0 <= k < chosen.len() && chosen[k] == x;
            assert(at.contains(chosen[k]));
        }
    }
}

/// Claims and doors are told of by when they were made, doors that close by when they do.
pub proof fn lines_go_by_their_dates(links: Seq<Link>, pending: Seq<Claim>, i: int, j: int)
    requires
        0 <= i < links.len(),
        0 <= j < pending.len(),
    ensures
        created(links)[i] == links[i].created_at,
        claimed(pending)[j] == pending[j].created_at,
        links[i].expires_at matches Some(e) ==> expiries(links)[i] == e,
{
}

// ---- Names ------------------------------------------------------------------------------------

/// A link is for the friend whose id it carries, by the first name under that id; where it carries
/// none, or none is known, it goes by its label.
pub proof fn a_link_goes_by_its_friend_or_its_label(l: Link, friends: Seq<Friend>, i: int)
    ensures
        l.friend_id is None ==> recipient_name(l, friends) == l.label@,
        (l.friend_id matches Some(id) && forall|j: int|
            0 <= j < friends.len() ==> (#[trigger] friends[j]).id@ != id@) ==> recipient_name(
            l,
            friends,
        ) == l.label@,
        (l.friend_id matches Some(id) && 0 <= i < friends.len() && friends[i].id@ == id@
            && forall|j: int| 0 <= j < i ==> (#[trigger] friends[j]).id@ != id@) ==> recipient_name(
            l,
            friends,
        ) == friends[i].name@,
{
    if let Some(id) = l.friend_id {
        friends_are_found(friends, id@, friends.len(), i);
    }
}

proof fn friends_are_found(friends: Seq<Friend>, id: Seq<char>, n: nat, i: int)
    requires
        n <= friends.len(),
    ensures
        (forall|j: int| 0 <= j < n ==> (#[trigger] friends[j]).id@ != id) ==> friend_name(
            friends,
            id,
            n,
        ) is None,
        0 <= i < n && friends[i].id@ == id && (forall|j: int|
            0 <= j < i ==> (#[trigger] friends[j]).id@ != id) ==> friend_name(friends, id, n)
            == Some(friends[i].name@),
    decreases n,
{
    if n > 0 {
        friends_are_found(friends, id, (n - 1) as nat, i);
        if i == n - 1 {
            assert(friend_name(friends, id, (n - 1) as nat) is None || !(forall|j: int|
                0 <= j < n - 1 ==> (#[trigger] friends[j]).id@ != id));
        }
    }
}

/// A game goes by the first title under its id; where none is known, by the id.
pub proof fn a_game_goes_by_its_title_or_its_id(games: Seq<Game>, id: Seq<char>, i: int)
    ensures
        (forall|j: int| 0 <= j < games.len() ==> (#[trigger] games[j]).id@ != id) ==> title_name(
            games,
            id,
        ) == id,
        0 <= i < games.len() && games[i].id@ == id && (forall|j: int|
            0 <= j < i ==> (#[trigger] games[j]).id@ != id) ==> title_name(games, id)
            == games[i].title@,
{
    titles_are_found(games, id, games.len(), i);
}

proof fn titles_are_found(games: Seq<Game>, id: Seq<char>, n: nat, i: int)
    requires
        n <= games.len(),
    ensures
        (forall|j: int| 0 <= j < n ==> (#[trigger] games[j]).id@ != id) ==> game_title(
            games,
            id,
            n,
        ) is None,
        0 <= i < n && games[i].id@ == id && (forall|j: int|
            0 <= j < i ==> (#[trigger] games[j]).id@ != id) ==> game_title(games, id, n) == Some(
            games[i].title@,
        ),
    decreases n,
{
    if n > 0 {
        titles_are_found(games, id, (n - 1) as nat, i);
    }
}

// ---- Rooms ------------------------------------------------------------------------------------

/// A room shows its first five lines, in their order, and counts the rest: shown and counted make up
/// all of them.
pub proof fn a_room_shows_five_lines(heading: Seq<char>, lines: Seq<Seq<char>>, i: int)
    ensures
        ({
            let r = room_of(heading, lines);
            &&& r.heading == heading
            &&& r.lines.len() <= 5
            &&& r.lines.len() + r.more == lines.len()
            &&& r.more > 0 ==> r.lines.len() == 5
            &&& 0 <= i < r.lines.len() ==> r.lines[i] == lines[i]
        }),
{
}

/// The lantern has a room for each of the four things there is something to say about, in their order,
/// and none at all where there is nothing. It counts them all, however many are shown.
pub proof fn a_lantern_has_a_room_for_each(
    r: Option<Lantern>,
    d: Seq<Seq<char>>,
    n: int,
    c: Seq<Seq<char>>,
    w: Seq<Seq<char>>,
    e: Seq<Seq<char>>,
)
    requires
        is_lit(r, d, n, c, w, e),
    ensures
        r is None <==> d.len() == 0 && c.len() == 0 && w.len() == 0 && e.len() == 0,
        r matches Some(l) ==> {
            let rooms = crate::lantern::room_views(l.rooms@);
            &&& l.counts@[0] == n
            &&& l.counts@[1] == c.len()
            &&& l.counts@[2] == w.len()
            &&& l.counts@[3] == e.len()
            &&& d.len() > 0 && c.len() > 0 && w.len() > 0 && e.len() > 0 ==> rooms == seq![
                room_of("🚪 doors nobody has walked through  ↗ {site}/admin/links"@, d),
                room_of("🕯️ stuck in the chimney  ↗ {site}/admin/ops"@, c),
                room_of("🎁 wrapped, and past its day  ↗ {site}/admin/links"@, w),
                room_of("⏳ doors closing soon  ↗ {site}/admin/links"@, e),
            ]
            &&& d.len() == 0 && c.len() == 0 && w.len() == 0 && e.len() > 0 ==> rooms == seq![
                room_of("⏳ doors closing soon  ↗ {site}/admin/links"@, e),
            ]
            &&& d.len() == 0 && c.len() == 0 && w.len() > 0 && e.len() == 0 ==> rooms == seq![
                room_of("🎁 wrapped, and past its day  ↗ {site}/admin/links"@, w),
            ]
            &&& d.len() == 0 && c.len() > 0 && w.len() == 0 && e.len() == 0 ==> rooms == seq![
                room_of("🕯️ stuck in the chimney  ↗ {site}/admin/ops"@, c),
            ]
            &&& d.len() > 0 && c.len() == 0 && w.len() == 0 && e.len() == 0 ==> rooms == seq![
                room_of("🚪 doors nobody has walked through  ↗ {site}/admin/links"@, d),
            ]
        },
{
    let all = crate::lantern::four_rooms(d, c, w, e);
    reveal_with_fuel(crate::lantern::lit_rooms, 5);
    assert(all.drop_last().drop_last().drop_last().drop_last() =~= Seq::empty());
    let rooms = crate::lantern::lit_rooms(all);
    if d.len() > 0 && c.len() > 0 && w.len() > 0 && e.len() > 0 {
        assert(rooms =~= seq![
            room_of(crate::lantern::DOORS_HEADING@, d),
            room_of(crate::lantern::CHIMNEY_HEADING@, c),
            room_of(crate::lantern::WRAPPED_HEADING@, w),
            room_of(crate::lantern::CLOSING_HEADING@, e),
        ]);
    }
    if d.len() == 0 && c.len() == 0 && w.len() == 0 && e.len() > 0 {
        assert(rooms =~= seq![room_of(crate::lantern::CLOSING_HEADING@, e)]);
    }
    if d.len() == 0 && c.len() == 0 && w.len() > 0 && e.len() == 0 {
        assert(rooms =~= seq![room_of(crate::lantern::WRAPPED_HEADING@, w)]);
    }
    if d.len() == 0 && c.len() > 0 && w.len() == 0 && e.len() == 0 {
        assert(rooms =~= seq![room_of(crate::lantern::CHIMNEY_HEADING@, c)]);
    }
    if d.len() > 0 && c.len() == 0 && w.len() == 0 && e.len() == 0 {
        assert(rooms =~= seq![room_of(crate::lantern::DOORS_HEADING@, d)]);
    }
}

/// What a room holds is posted: each line on a line of its own, and the number of those not shown.
pub proof fn a_room_is_posted_whole(r: RoomView, site: Seq<char>, line: Seq<char>)
    ensures
        lines_text(r.lines.push(line)) == lines_text(r.lines) + line + "\n"@,
        lines_text(Seq::empty()) == Seq::<char>::empty(),
        r.more > 0 ==> room_text(r, site) == room_text(RoomView { more: 0, ..r }, site) + ("· and "@
            + decimal(r.more as nat) + " more\n"@),
        room_text(RoomView { lines: r.lines.push(line), more: 0, ..r }, site) == room_text(
            RoomView { more: 0, ..r },
            site,
        ) + line + "\n"@,
        rooms_text(Seq::<RoomView>::empty().push(r), site) == room_text(r, site),
{
    assert(r.lines.push(line).drop_last() =~= r.lines);
    let none = Seq::<char>::empty();
    assert(room_text(RoomView { more: 0, ..r }, site) + ("· and "@ + decimal(r.more as nat)
        + " more\n"@) =~= "\n"@ + replaced(r.heading, "{site}"@, site) + "\n"@
        + lines_text(r.lines) + ("· and "@ + decimal(r.more as nat) + " more\n"@));
    assert(room_text(RoomView { lines: r.lines.push(line), more: 0, ..r }, site) =~= room_text(
        RoomView { more: 0, ..r },
        site,
    ) + line + "\n"@);
    let one = Seq::<RoomView>::empty().push(r);
    assert(one.drop_last() =~= Seq::empty());
    assert(rooms_text(one.drop_last(), site) == none);
    assert(none + room_text(r, site) =~= room_text(r, site));
}

/// A placeholder is replaced wherever it stands, and what stands around it stays.
pub proof fn a_placeholder_is_replaced(a: Seq<char>, b: Seq<char>, pat: Seq<char>, by: Seq<char>)
    requires
        pat.len() > 0,
        forall|i: int| 0 <= i < a.len() ==> #[trigger] a[i] != pat[0],
    ensures
        replaced(a, pat, by) == a,
        replaced(a + pat + b, pat, by) == a + by + replaced(b, pat, by),
    decreases a.len(),
{
    let all = a + pat + b;
    if a.len() == 0 {
        assert(all.take(pat.len() as int) =~= pat);
        assert(all.skip(pat.len() as int) =~= b);
        assert(a + by + replaced(b, pat, by) =~= by + replaced(b, pat, by));
    } else {
        let rest = a.skip(1);
        assert(a[0] != pat[0]);
        assert forall|i: int| 0 <= i < rest.len() implies #[trigger] rest[i] != pat[0] by {
            assert(rest[i] == a[i + 1]);
        }
        a_placeholder_is_replaced(rest, b, pat, by);
        assert(!starts_with(all, pat)) by {
            if all.len() >= pat.len() {
                assert(all.take(pat.len() as int)[0] == a[0]);
            }
        }
        assert(!starts_with(a, pat)) by {
            if a.len() >= pat.len() {
                assert(a.take(pat.len() as int)[0] == a[0]);
            }
        }
        assert(all.skip(1) =~= rest + pat + b);
        assert(seq![a[0]] + rest =~= a);
        assert(seq![a[0]] + (rest + by + replaced(b, pat, by)) =~= a + by + replaced(b, pat, by));
    }
}

// ---- The clock in New York --------------------------------------------------------------------

/// The week ends on its Sunday at nine in the evening, UTC, and has seven days.
pub proof fn a_week_ends_on_sunday_evening(slot: Slot)
    ensures
        day_at(slot.ends()) == slot.sunday,
        slot.ends() - midnight(slot.sunday as int) == 75_600_000_000_000,
        slot.ends() - slot.starts() == 604_800_000_000_000,
{
}

proof fn the_sunday_of_a_week(day: int, sunday: int)
    requires
        day <= sunday < day + 7,
        (sunday + 1) % 7 == 0,
    ensures
        sunday_from(day) == sunday,
{
}

/// New York is four hours behind UTC from seven in the morning, UTC, of the second Sunday of March to
/// six in the morning of the first Sunday of November, and five hours otherwise.
pub proof fn new_york_keeps_daylight_saving(t: int, march: int, november: int)
    requires
        ({
            let y = date_at(day_at(t)).0;
            &&& julian(y, 3, 8) <= march < julian(y, 3, 15)
            &&& (march + 1) % 7 == 0
            &&& julian(y, 11, 1) <= november < julian(y, 11, 8)
            &&& (november + 1) % 7 == 0
        }),
    ensures
        is_daylight(t) <==> midnight(march) + 25_200_000_000_000 <= t < midnight(november)
            + 21_600_000_000_000,
        eastern_day(t) == if is_daylight(t) {
            day_at(t - 14_400_000_000_000)
        } else {
            day_at(t - 18_000_000_000_000)
        },
{
    let y = date_at(day_at(t)).0;
    let first = julian(y, 3, 1);
    let fall = julian(y, 11, 1);
    assert(julian(y, 3, 8) == first + 7 && julian(y, 3, 15) == first + 14);
    assert(julian(y, 11, 8) == fall + 7);
    the_sunday_of_a_week(first, march - 7);
    the_sunday_of_a_week(fall, november);
}

/// A date in New York is written as the month's first three letters and the day.
pub proof fn a_date_is_a_month_and_a_day(t: int, y: int, m: int, d: int)
    requires
        date_at(eastern_day(t)) == (y, m, d),
        1 <= m <= 12,
    ensures
        eastern_text(t) == (if m == 1 {
            "jan"@
        } else if m == 2 {
            "feb"@
        } else if m == 3 {
            "mar"@
        } else if m == 4 {
            "apr"@
        } else if m == 5 {
            "may"@
        } else if m == 6 {
            "jun"@
        } else if m == 7 {
            "jul"@
        } else if m == 8 {
            "aug"@
        } else if m == 9 {
            "sep"@
        } else if m == 10 {
            "oct"@
        } else if m == 11 {
            "nov"@
        } else {
            "dec"@
        }) + " "@ + decimal(d as nat),
{
}

} // verus!
