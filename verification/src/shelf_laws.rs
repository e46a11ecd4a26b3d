//! What is put on the shelf and what is taken off it, in the terms of the orders' keys.
use vstd::prelude::*;
use crate::humble::{KeyEntry, Order};
use crate::model::{game_id_text, AppidSource, Game};
use crate::operator_message::fmt_text;
use crate::shelf::{
    audit_texts, candidates, is_audited, is_corrected, is_order_row, needs_correction,
    pulled_titles, route_follows, route_goes_on, with_write, Audit, KeyInfo, Lookup, Pulled, Route,
    Row, StatusTable, StoreAt, StoreRequest, StoreStep, Stored, Write,
};
use crate::text::decimal;
use crate::wording;

verus! {

/// A row on offer is corrected exactly if this pass has seen its key to be revealed or to have expired:
/// either is enough, and a key that is neither leaves the row alone.
pub proof fn a_spent_key_comes_off_the_shelf(
    row: Row,
    truth: Map<(Seq<char>, Seq<char>), KeyEntry>,
    key: KeyEntry,
)
    requires
        truth.contains_key((row.game.gamekey@, row.game.machine_name@)),
        truth[(row.game.gamekey@, row.game.machine_name@)] == key,
    ensures
        row.listable && key.redeemed ==> needs_correction(row, truth),
        row.listable && key.expired ==> needs_correction(row, truth),
        !key.redeemed && !key.expired ==> !needs_correction(row, truth),
        !row.listable ==> !needs_correction(row, truth),
{
}

/// The status of a key goes by whether it was revealed and whether it has expired, and by nothing else.
pub proof fn a_status_goes_by_two_flags(table: StatusTable, key: KeyEntry)
    ensures
        !key.redeemed && !key.expired ==> table.status(key) == table.fresh,
        key.redeemed && !key.expired ==> table.status(key) == table.redeemed,
        !key.redeemed && key.expired ==> table.status(key) == table.expired,
        key.redeemed && key.expired ==> table.status(key) == table.redeemed_and_expired,
{
}

/// A correction takes from the key what the key decides, and keeps everything else of the row.
pub proof fn a_correction_keeps_the_row(r: Game, g: Game, key: KeyEntry, table: StatusTable)
    requires
        is_corrected(r, g, key, table),
    ensures
        r.status == table.status(key),
        r.giftable == key.giftable,
        r.keyindex == key.keyindex,
        r.key_type@ == key.key_type@,
        key.steam_app_id is Some ==> r.steam_app_id == key.steam_app_id && r.appid_source == Some(
            AppidSource::Humble,
        ),
        key.steam_app_id is None ==> r.steam_app_id == g.steam_app_id && r.appid_source
            == g.appid_source,
        (Game {
            status: g.status,
            giftable: g.giftable,
            keyindex: g.keyindex,
            key_type: g.key_type,
            steam_app_id: g.steam_app_id,
            appid_source: g.appid_source,
            ..r
        }) == g,
{
}

/// The row of a key says what the key and its order say, and is neither hidden, claimed, marked as
/// owned, nor in need of a pick.
pub proof fn a_row_is_made_from_its_key(
    g: Game,
    id: Seq<char>,
    order: Order,
    key: KeyEntry,
    table: StatusTable,
    artwork: Option<String>,
)
    requires
        is_order_row(g, id, order, key, table, artwork),
    ensures
        g.id@ == id,
        g.title@ == key.human_name@,
        g.bundle@ == order.bundle_name@,
        g.gamekey@ == order.gamekey@,
        g.machine_name@ == key.machine_name@,
        g.key_type@ == key.key_type@,
        g.giftable == key.giftable,
        g.keyindex == key.keyindex,
        g.status == table.status(key),
        g.artwork_url == artwork,
        g.steam_app_id == key.steam_app_id,
        key.steam_app_id is Some <==> g.appid_source == Some(AppidSource::Humble),
        key.steam_app_id is None <==> g.appid_source is None,
        !g.hidden && !g.requires_choice && !g.owned_by_ben && g.claim_id is None,
{
}

/// The id of a game is that of its order, a colon, and the name of its key.
pub proof fn an_id_joins_order_and_key(gamekey: Seq<char>, name: Seq<char>)
    ensures
        game_id_text(gamekey, name) == gamekey + seq![':'] + name,
{
    reveal_strlit(":");
    assert(":"@ =~= seq![':']);
}

/// A key of a pick is looked for under the name it was offered by as it stands, then under that name
/// without its region, if it has one; and where none is on the shelf it gets a row of its own. A key of
/// nothing else is not looked for.
pub proof fn a_key_is_looked_for_by_what_it_was_offered_as(
    r: Route,
    gamekey: Seq<char>,
    name: Seq<char>,
    exact: String,
    stripped: String,
)
    ensures
        route_goes_on(r, gamekey, name, candidates(None), 0) ==> (r matches Route::Write { id } && id@
            == game_id_text(gamekey, name)),
        route_goes_on(r, gamekey, name, candidates(Some((exact, None))), 0) ==> (
        r matches Route::Look { at, id } && at == 0 && id@ == game_id_text(gamekey, exact@)),
        route_goes_on(r, gamekey, name, candidates(Some((exact, None))), 1) ==> (
        r matches Route::Write { id } && id@ == game_id_text(gamekey, name)),
        route_goes_on(r, gamekey, name, candidates(Some((exact, Some(stripped)))), 0) ==> (
        r matches Route::Look { at, id } && at == 0 && id@ == game_id_text(gamekey, exact@)),
        route_goes_on(r, gamekey, name, candidates(Some((exact, Some(stripped)))), 1) ==> (
        r matches Route::Look { at, id } && at == 1 && id@ == game_id_text(gamekey, stripped@)),
        route_goes_on(r, gamekey, name, candidates(Some((exact, Some(stripped)))), 2) ==> (
        r matches Route::Write { id } && id@ == game_id_text(gamekey, name)),
{
}

/// A candidate that is on the shelf takes the key; one that is missing leads on to the next, and the last
/// to a row of the key's own, which is also where a key goes whose look failed.
pub proof fn the_first_row_on_the_shelf_takes_the_key(
    r: Route,
    gamekey: Seq<char>,
    name: Seq<char>,
    cands: Seq<Seq<char>>,
    at: int,
    found: Lookup,
)
    requires
        route_follows(r, gamekey, name, cands, at, found),
        0 <= at < cands.len(),
    ensures
        found is Found ==> (r matches Route::Write { id } && id@ == game_id_text(gamekey, cands[at])),
        found is Failed ==> (r matches Route::Write { id } && id@ == game_id_text(gamekey, name)),
        found is Missing && at + 1 < cands.len() ==> (r matches Route::Look { at: a, id } && a == at + 1
            && id@ == game_id_text(gamekey, cands[at + 1])),
        found is Missing && at + 1 == cands.len() ==> (r matches Route::Write { id } && id@
            == game_id_text(gamekey, name)),
{
}

/// The same of the writing of an order: a key lands on the row that was found, or on its own.
pub proof fn a_key_lands_on_the_row_that_was_found(
    out: StoreStep,
    order: Order,
    infos: Seq<KeyInfo>,
    table: StatusTable,
    k: int,
    at: int,
    found: Lookup,
)
    requires
        out.looks_on(order, infos, table, k, at, found),
        0 <= at < candidates(infos[k].bases).len(),
        0 <= k < order.keys@.len() <= usize::MAX,
    ensures
        ({
            let cands = candidates(infos[k].bases);
            let own = game_id_text(order.gamekey@, order.keys@[k].machine_name@);
            &&& found is Found ==> (out.request matches StoreRequest::Write(g) && g.id@
                == game_id_text(order.gamekey@, cands[at]))
            &&& found is Failed ==> (out.request matches StoreRequest::Write(g) && g.id@ == own)
            &&& found is Missing && at + 1 < cands.len() ==> (
            out.request matches StoreRequest::Look { id } && id@ == game_id_text(
                order.gamekey@,
                cands[at + 1],
            )) && (out.at matches StoreAt::Looking { k: k2, at: a2 } && k2 == k && a2 == at + 1)
            &&& found is Missing && at + 1 == cands.len() ==> (
            out.request matches StoreRequest::Write(g) && g.id@ == own)
            &&& out.request matches StoreRequest::Write(g) ==> g.machine_name@
                == order.keys@[k].machine_name@ && g.status == table.status(order.keys@[k])
        }),
{
}

/// A key counts as written only if its row was written; that one could not be is not forgotten.
pub proof fn only_what_was_written_counts(stored: Stored, write: Write)
    requires
        stored.written < u32::MAX,
    ensures
        write is Written ==> with_write(stored, write).written == stored.written + 1,
        !(write is Written) ==> with_write(stored, write).written == stored.written,
        write is Failed ==> with_write(stored, write).failed,
        !(write is Failed) ==> with_write(stored, write).failed == stored.failed,
{
}

/// A row counts as pulled exactly if its correction was written, and as failed exactly if it could not
/// be; why it was pulled goes by its key.
pub proof fn only_a_row_that_was_written_is_pulled(
    a: Audit,
    was: Audit,
    game: Game,
    key: KeyEntry,
    write: Write,
)
    requires
        is_audited(a, was, game, key, write),
    ensures
        write is Written ==> a.pulled@.len() == was.pulled@.len() + 1 && a.pulled@.last().title@
            == game.title@ && a.pulled@.last().id@ == game.id@ && a.pulled@.last().expired
            == key.expired && (a.pulled@.last().gift <==> key.is_gift == Some(true))
            && a.pulled@.drop_last() == was.pulled@,
        !(write is Written) ==> a.pulled@ == was.pulled@,
        write is Failed ==> a.rows_failed == was.rows_failed + 1,
        !(write is Failed) ==> a.rows_failed == was.rows_failed,
{
    if write is Written {
        assert(a.pulled@.drop_last() =~= was.pulled@);
    }
}

/// No key of an order is left out: the writing goes on with each in turn, looks for its row or writes
/// it, and is over only past the last one.
pub proof fn every_key_is_taken_up(
    out: StoreStep,
    order: Order,
    infos: Seq<KeyInfo>,
    table: StatusTable,
    k: int,
    stored: Stored,
)
    requires
        out.goes_on(order, infos, table, k, stored),
        0 <= k <= order.keys@.len() <= usize::MAX,
    ensures
        out.stored == stored,
        k == order.keys@.len() <==> out.at is Over,
        out.at is Over ==> out.request is Done,
        k < order.keys@.len() && infos[k].bases is None ==> out.at == (StoreAt::Writing {
            k: k as usize,
        }) && (out.request matches StoreRequest::Write(g) && is_order_row(
            g,
            game_id_text(order.gamekey@, order.keys@[k].machine_name@),
            order,
            order.keys@[k],
            table,
            infos[k].artwork,
        )),
        k < order.keys@.len() && infos[k].bases is Some ==> out.at == (StoreAt::Looking {
            k: k as usize,
            at: 0,
        }) && (out.request matches StoreRequest::Look { id } && id@ == game_id_text(
            order.gamekey@,
            (infos[k].bases->0).0@,
        )),
{
    if k < order.keys@.len() {
        let r = choose|r: Route|
            route_goes_on(
                r,
                order.gamekey@,
                order.keys@[k].machine_name@,
                candidates(infos[k].bases),
                0,
            ) && #[trigger] out.routes(order, infos, table, k, r);
        assert(out.routes(order, infos, table, k, r));
    }
}

/// Up to three rows that were pulled are told of one by one, each by its title, its id, why, and
/// whether it was a gift.
pub proof fn few_rows_are_told_of_one_by_one(pulled: Seq<Pulled>, i: int)
    requires
        pulled.len() <= 3,
        0 <= i < pulled.len(),
    ensures
        audit_texts(pulled).len() == pulled.len(),
        audit_texts(pulled)[i] == fmt_text(
            wording::AUDIT_PULLED@,
            seq![
                pulled[i].title@,
                pulled[i].id@,
                if pulled[i].expired {
                    "expired"@
                } else {
                    "revealed outside the app"@
                },
                if pulled[i].gift {
                    " (humble marks it a gift)"@
                } else {
                    ""@
                },
            ],
        ),
{
}

/// More are told of in one message, with their number and with every title in it.
pub proof fn many_rows_are_told_of_at_once(pulled: Seq<Pulled>, i: int)
    requires
        pulled.len() > 3,
        0 <= i < pulled.len(),
    ensures
        audit_texts(pulled).len() == 1,
        exists|titles: Seq<char>, a: Seq<char>, z: Seq<char>|
            audit_texts(pulled)[0] == fmt_text(
                wording::AUDIT_SUMMARY@,
                #[trigger] two(decimal(pulled.len()), titles),
            ) && titles == #[trigger] around(a, pulled[i].title@, z),
{
    titles_name_every_row(pulled, i);
    let (a, z) = choose|a: Seq<char>, z: Seq<char>|
        pulled_titles(pulled) == #[trigger] around(a, pulled[i].title@, z);
    assert(two(decimal(pulled.len()), pulled_titles(pulled)) =~= seq![
        decimal(pulled.len()),
        pulled_titles(pulled),
    ]);
    assert(pulled_titles(pulled) == around(a, pulled[i].title@, z));
}

/// Two texts, one after the other in a list.
pub open spec fn two(a: Seq<char>, b: Seq<char>) -> Seq<Seq<char>> {
    seq![a, b]
}

/// A text with something before it and something after it.
pub open spec fn around(a: Seq<char>, text: Seq<char>, z: Seq<char>) -> Seq<char> {
    a + text + z
}

proof fn titles_name_every_row(pulled: Seq<Pulled>, i: int)
    requires
        0 <= i < pulled.len(),
    ensures
        exists|a: Seq<char>, z: Seq<char>|
            pulled_titles(pulled) == #[trigger] around(a, pulled[i].title@, z),
    decreases pulled.len(),
{
    let p = pulled.last();
    let one = if p.gift {
        p.title@ + " (gift)"@
    } else {
        p.title@
    };
    let tail = if p.gift {
        " (gift)"@
    } else {
        Seq::empty()
    };
    assert(one =~= p.title@ + tail);
    if i == pulled.len() - 1 {
        let head = if pulled.len() == 1 {
            Seq::empty()
        } else {
            pulled_titles(pulled.drop_last()) + ", "@
        };
        assert(pulled_titles(pulled) =~= around(head, pulled[i].title@, tail));
    } else {
        titles_name_every_row(pulled.drop_last(), i);
        let (a, z) = choose|a: Seq<char>, z: Seq<char>|
            pulled_titles(pulled.drop_last()) == #[trigger] around(
                a,
                pulled.drop_last()[i].title@,
                z,
            );
        assert(pulled_titles(pulled) =~= around(a, pulled[i].title@, z + ", "@ + one));
    }
}

} // verus!
