//! Games that are on the shelf twice: once as a month offered them, and once under the name of the
//! key that a pick has yielded. Which of the second kind may go.
use vstd::prelude::*;
use vstd::string::*;
use crate::humble::KeyEntry;
use crate::model::{game_id, game_id_text, AppidSource, Game, GameStatus};
use crate::shelf::{candidates, copy_text};

verus! {

impl GameStatus {
    /// The name of the status.
    pub open spec fn text(self) -> Seq<char> {
        match self {
            GameStatus::Available => "Available"@,
            GameStatus::Pending => "Pending"@,
            GameStatus::Gifted => "Gifted"@,
            GameStatus::BenRedeemed => "BenRedeemed"@,
            GameStatus::Expired => "Expired"@,
        }
    }

    /// The name of the status.
    pub fn name(self) -> (r: &'static str)
        ensures
            r@ == self.text(),
    {
        match self {
            GameStatus::Available => "Available",
            GameStatus::Pending => "Pending",
            GameStatus::Gifted => "Gifted",
            GameStatus::BenRedeemed => "BenRedeemed",
            GameStatus::Expired => "Expired",
        }
    }
}

impl Game {
    /// A copy of the game.
    pub fn copy(&self) -> (r: Game)
        ensures
            r == *self,
    {
        Game {
            id: self.id.clone(),
            title: self.title.clone(),
            bundle: self.bundle.clone(),
            gamekey: self.gamekey.clone(),
            machine_name: self.machine_name.clone(),
            key_type: self.key_type.clone(),
            giftable: self.giftable,
            hidden: self.hidden,
            status: self.status,
            claim_id: copy_text(&self.claim_id),
            artwork_url: copy_text(&self.artwork_url),
            keyindex: self.keyindex,
            requires_choice: self.requires_choice,
            steam_app_id: self.steam_app_id,
            appid_source: self.appid_source,
            owned_by_ben: self.owned_by_ben,
        }
    }
}

/// What is decided of one row.
#[derive(Debug, PartialEq, Eq)]
pub enum Verdict {
    /// The row may go.
    Heal,
    /// The row stays, for the reason given.
    Skip(String),
}

/// Whether the order has the row's own key, and the key is redeemed.
pub open spec fn confirms_redeemed(keys: Seq<KeyEntry>, name: Seq<char>) -> bool {
    exists|i: int|
        0 <= i < keys.len() && (#[trigger] keys[i]).machine_name@ == name && keys[i].redeemed
}

/// Whether the order has the row's own key, and the key has expired.
pub open spec fn confirms_expired(keys: Seq<KeyEntry>, name: Seq<char>) -> bool {
    exists|i: int|
        0 <= i < keys.len() && (#[trigger] keys[i]).machine_name@ == name && keys[i].expired
}

/// Whether any key of the order is one that a pick of the offered game yields; `marks` says which
/// are.
pub open spec fn corroborates(keys: Seq<KeyEntry>, marks: Seq<bool>) -> bool {
    exists|i: int| 0 <= i < keys.len() && i < marks.len() && #[trigger] marks[i]
}

/// Why a row stays; `None` if it may go. It must carry nothing that the app or a person has put
/// there, and both the shelf and the order must speak for it. A row whose key is spent may still go
/// where the order says so of that very key.
pub open spec fn objection(
    sibling: Game,
    offered: Option<Game>,
    keys: Seq<KeyEntry>,
    marks: Seq<bool>,
) -> Option<Seq<char>> {
    let name = sibling.machine_name@;
    if sibling.status == GameStatus::BenRedeemed && !confirms_redeemed(keys, name) {
        Some("status BenRedeemed but live order does not confirm redemption"@)
    } else if sibling.status == GameStatus::Expired && !confirms_expired(keys, name) {
        Some("status Expired but live order does not confirm expiration"@)
    } else if sibling.status == GameStatus::Pending || sibling.status == GameStatus::Gifted {
        Some("sibling status is "@ + sibling.status.text() + ", not Available"@)
    } else if sibling.claim_id is Some {
        Some("claim-entangled (sibling has a claim_id)"@)
    } else if sibling.hidden {
        Some("sibling is hidden (app-owned state)"@)
    } else if sibling.appid_source == Some(AppidSource::Manual) {
        Some("sibling carries a Manual appid (app-owned state)"@)
    } else if offered is None {
        Some("offered row missing (no flip target)"@)
    } else if (offered->0).requires_choice {
        Some("not flipped yet — run after a post-D7 sync"@)
    } else if !corroborates(keys, marks) {
        Some("order does not corroborate (no matching tpk live)"@)
    } else {
        None
    }
}

fn skip(reason: &str) -> (r: Verdict)
    ensures
        r matches Verdict::Skip(s) && s@ == reason@,
{
    Verdict::Skip(String::from_str(reason))
}

fn order_confirms(keys: &Vec<KeyEntry>, name: &String, expired: bool) -> (r: bool)
    ensures
        r == if expired {
            confirms_expired(keys@, name@)
        } else {
            confirms_redeemed(keys@, name@)
        },
{
    for i in 0..keys.len()
        invariant
            forall|j: int|
                0 <= j < i && (#[trigger] keys@[j]).machine_name@ == name@ ==> !(if expired {
                    keys@[j].expired
                } else {
                    keys@[j].redeemed
                }),
    {
        let spent: bool = if expired {
            keys[i].expired
        } else {
            keys[i].redeemed
        };
        if keys[i].machine_name == *name && spent {
            assert(keys@[i as int].machine_name@ == name@);
            return true;
        }
    }
    false
}

fn order_corroborates(keys: &Vec<KeyEntry>, marks: &Vec<bool>) -> (r: bool)
    ensures
        r == corroborates(keys@, marks@),
{
    let mut i: usize = 0;
    while i < keys.len() && i < marks.len()
        invariant
            i <= keys@.len(),
            i <= marks@.len(),
            forall|j: int| 0 <= j < i ==> !#[trigger] marks@[j],
        decreases marks@.len() - i,
    {
        if marks[i] {
            assert(marks@[i as int]);
            return true;
        }
        i += 1;
    }
    false
}

/// Decides whether a row may go. `marks` says which keys of the live order a pick of the offered
/// game yields.
pub fn pair_verdict(
    sibling: &Game,
    offered: Option<&Game>,
    live_order_tpks: &Vec<KeyEntry>,
    marks: &Vec<bool>,
) -> (r: Verdict)
    ensures
        match objection(
            *sibling,
            match offered {
                Some(g) => Some(*g),
                None => None,
            },
            live_order_tpks@,
            marks@,
        ) {
            Some(reason) => r matches Verdict::Skip(s) && s@ == reason,
            None => r is Heal,
        },
{
    match sibling.status {
        GameStatus::Available => {},
        GameStatus::BenRedeemed => {
            if !order_confirms(live_order_tpks, &sibling.machine_name, false) {
                return skip("status BenRedeemed but live order does not confirm redemption");
            }
        },
        GameStatus::Expired => {
            if !order_confirms(live_order_tpks, &sibling.machine_name, true) {
                return skip("status Expired but live order does not confirm expiration");
            }
        },
        _ => {
            return Verdict::Skip(
                String::from_str("sibling status is ").concat(sibling.status.name()).concat(
                    ", not Available",
                ),
            );
        },
    }
    if sibling.claim_id.is_some() {
        return skip("claim-entangled (sibling has a claim_id)");
    }
    if sibling.hidden {
        return skip("sibling is hidden (app-owned state)");
    }
    if let Some(AppidSource::Manual) = sibling.appid_source {
        return skip("sibling carries a Manual appid (app-owned state)");
    }
    match offered {
        None => skip("offered row missing (no flip target)"),
        Some(offered) => {
            if offered.requires_choice {
                return skip("not flipped yet — run after a post-D7 sync");
            }
            if order_corroborates(live_order_tpks, marks) {
                Verdict::Heal
            } else {
                skip("order does not corroborate (no matching tpk live)")
            }
        },
    }
}

/// A row that carries anything the app or a person has put there never goes: a claim, a hidden mark,
/// an app id set by hand, or a status that no order speaks for.
pub proof fn app_owned_rows_stay(
    sibling: Game,
    offered: Option<Game>,
    keys: Seq<KeyEntry>,
    marks: Seq<bool>,
)
    requires
        objection(sibling, offered, keys, marks) is None,
    ensures
        sibling.claim_id is None,
        !sibling.hidden,
        sibling.appid_source != Some(AppidSource::Manual),
        sibling.status == GameStatus::Available || (sibling.status == GameStatus::BenRedeemed
            && confirms_redeemed(keys, sibling.machine_name@)) || (sibling.status
            == GameStatus::Expired && confirms_expired(keys, sibling.machine_name@)),
        offered matches Some(o) && !o.requires_choice,
        corroborates(keys, marks),
{
}

// ---- Finding the pairs ------------------------------------------------------------------------

/// A row under the name of a pick's key, and the id of the row as it was offered.
pub struct Pair {
    pub gamekey: String,
    pub sibling: Game,
    pub offered_id: String,
}

/// The ids of the games.
pub open spec fn ids(games: Seq<Game>) -> Seq<Seq<char>> {
    Seq::new(games.len(), |i: int| games[i].id@)
}

/// Whether a candidate name leads from a game to another row of the shelf.
pub open spec fn leads_to_row(games: Seq<Game>, g: Game, name: Seq<char>) -> bool {
    let id = game_id_text(g.gamekey@, name);
    id != g.id@ && ids(games).contains(id)
}

/// The id of the row that a game was offered as: the first candidate that leads to one.
pub open spec fn offered_row_id(games: Seq<Game>, g: Game, names: Seq<Seq<char>>) -> Option<Seq<char>>
    decreases names.len(),
{
    if names.len() == 0 {
        None
    } else if leads_to_row(games, g, names[0]) {
        Some(game_id_text(g.gamekey@, names[0]))
    } else {
        offered_row_id(games, g, names.skip(1))
    }
}

/// The pairs among the first `n` games, as the position of the row and the id it was offered under.
pub open spec fn pairs_of(
    games: Seq<Game>,
    bases: Seq<Option<(String, Option<String>)>>,
    n: nat,
) -> Seq<(int, Seq<char>)>
    decreases n,
{
    if n == 0 {
        Seq::empty()
    } else {
        let head = pairs_of(games, bases, (n - 1) as nat);
        match offered_row_id(games, games[n - 1], candidates(bases[n - 1])) {
            Some(id) => head.push((n - 1, id)),
            None => head,
        }
    }
}

fn holds_id(games: &Vec<Game>, id: &String) -> (r: bool)
    ensures
        r == ids(games@).contains(id@),
{
    for i in 0..games.len()
        invariant
            forall|j: int| 0 <= j < i ==> (#[trigger] games@[j]).id@ != id@,
    {
        if games[i].id == *id {
            assert(ids(games@)[i as int] == id@);
            return true;
        }
    }
    assert(!ids(games@).contains(id@)) by {
        if ids(games@).contains(id@) {
            let j = choose|j: int| 0 <= j < ids(games@).len() && ids(games@)[j] == id@;
            assert(games@[j].id@ == id@);
        }
    }
    false
}

fn row_for(games: &Vec<Game>, g: &Game, name: &str) -> (r: Option<String>)
    ensures
        match r {
            Some(id) => leads_to_row(games@, *g, name@) && id@ == game_id_text(g.gamekey@, name@),
            None => !leads_to_row(games@, *g, name@),
        },
{
    let id = game_id(g.gamekey.as_str(), name);
    if id != g.id && holds_id(games, &id) {
        Some(id)
    } else {
        None
    }
}

fn offered_id_of(games: &Vec<Game>, g: &Game, bases: &Option<(String, Option<String>)>) -> (r: Option<
    String,
>)
    ensures
        crate::text::opt_view(r) == offered_row_id(games@, *g, candidates(*bases)),
{
    reveal_with_fuel(offered_row_id, 3);
    match bases {
        None => None,
        Some((exact, stripped)) => {
            let ghost names = candidates(*bases);
            if let Some(id) = row_for(games, g, exact.as_str()) {
                return Some(id);
            }
            match stripped {
                Some(s) => {
                    assert(names.skip(1) =~= seq![s@]);
                    assert(names.skip(1).skip(1) =~= Seq::empty());
                    row_for(games, g, s.as_str())
                },
                None => {
                    assert(names.skip(1) =~= Seq::empty());
                    None
                },
            }
        },
    }
}

/// Finds the rows that are on the shelf twice. `bases` has, for each game, the names that its own
/// may be derived from.
pub fn find_pairs(games: &Vec<Game>, bases: &Vec<Option<(String, Option<String>)>>) -> (r: Vec<Pair>)
    requires
        games@.len() == bases@.len(),
    ensures
        r@.len() == pairs_of(games@, bases@, games@.len()).len(),
        forall|k: int|
            0 <= k < r@.len() ==> {
                let p = pairs_of(games@, bases@, games@.len())[k];
                &&& (#[trigger] r@[k]).gamekey == games@[p.0].gamekey
                &&& r@[k].sibling == games@[p.0]
                &&& r@[k].offered_id@ == p.1
            },
{
    let mut out: Vec<Pair> = Vec::new();
    for i in 0..games.len()
        invariant
            games@.len() == bases@.len(),
            out@.len() == pairs_of(games@, bases@, i as nat).len(),
            forall|k: int|
                0 <= k < out@.len() ==> {
                    let p = pairs_of(games@, bases@, i as nat)[k];
                    &&& (#[trigger] out@[k]).gamekey == games@[p.0].gamekey
                    &&& out@[k].sibling == games@[p.0]
                    &&& out@[k].offered_id@ == p.1
                },
    {
        let g = &games[i];
        if let Some(offered_id) = offered_id_of(games, g, &bases[i]) {
            out.push(Pair { gamekey: g.gamekey.clone(), sibling: g.copy(), offered_id });
        }
    }
    out
}

// ---- What may go, and what stays --------------------------------------------------------------

/// A row whose offered twin is picked already goes when nothing of the app's or a person's is on it,
/// and the order has both a key that the pick yields and, if the row is spent, the row's own key in
/// that state.
pub proof fn a_row_that_all_speak_for_goes(
    sibling: Game,
    offered: Game,
    keys: Seq<KeyEntry>,
    marks: Seq<bool>,
    own: int,
    picked: int,
)
    requires
        sibling.claim_id is None,
        !sibling.hidden,
        sibling.appid_source != Some(AppidSource::Manual),
        !offered.requires_choice,
        0 <= picked < keys.len(),
        picked < marks.len(),
        marks[picked],
        sibling.status == GameStatus::Available || (0 <= own < keys.len()
            && keys[own].machine_name@ == sibling.machine_name@ && ((sibling.status
            == GameStatus::BenRedeemed && keys[own].redeemed) || (sibling.status
            == GameStatus::Expired && keys[own].expired))),
    ensures
        objection(sibling, Some(offered), keys, marks) is None,
{
    assert(marks[picked]);
    if sibling.status != GameStatus::Available {
        assert(keys[own].machine_name@ == sibling.machine_name@);
    }
}

/// A row stays where no key of the order is one that the pick yields, or where the row is spent and
/// the order has no key of its name in that state.
pub proof fn a_row_that_the_order_does_not_speak_for_stays(
    sibling: Game,
    offered: Option<Game>,
    keys: Seq<KeyEntry>,
    marks: Seq<bool>,
)
    requires
        (forall|i: int| 0 <= i < keys.len() && i < marks.len() ==> !#[trigger] marks[i]) || (
        sibling.status == GameStatus::BenRedeemed && forall|i: int|
            0 <= i < keys.len() && (#[trigger] keys[i]).machine_name@ == sibling.machine_name@
                ==> !keys[i].redeemed) || (sibling.status == GameStatus::Expired && forall|i: int|
            0 <= i < keys.len() && (#[trigger] keys[i]).machine_name@ == sibling.machine_name@
                ==> !keys[i].expired) || sibling.status == GameStatus::Pending || sibling.status
            == GameStatus::Gifted,
    ensures
        objection(sibling, offered, keys, marks) is Some,
{
}

/// A row that could be claimed stays for the one thing that speaks against it, and the reason says
/// which.
pub proof fn the_reason_names_what_speaks_against_a_row(
    sibling: Game,
    offered: Option<Game>,
    keys: Seq<KeyEntry>,
    marks: Seq<bool>,
)
    requires
        sibling.status == GameStatus::Available,
    ensures
        ({
            let why = objection(sibling, offered, keys, marks);
            let manual = sibling.appid_source == Some(AppidSource::Manual);
            let free = sibling.claim_id is None;
            &&& !free ==> why == Some("claim-entangled (sibling has a claim_id)"@)
            &&& free && sibling.hidden ==> why == Some("sibling is hidden (app-owned state)"@)
            &&& free && !sibling.hidden && manual ==> why == Some(
                "sibling carries a Manual appid (app-owned state)"@,
            )
            &&& free && !sibling.hidden && !manual && offered is None ==> why == Some(
                "offered row missing (no flip target)"@,
            )
            &&& free && !sibling.hidden && !manual && (offered matches Some(o)
                && o.requires_choice) ==> why == Some("not flipped yet — run after a post-D7 sync"@)
        }),
{
}

/// A game is paired with the first other row that one of its candidate names leads to, under the order
/// that it is from itself.
pub proof fn a_twin_is_paired(
    games: Seq<Game>,
    bases: Seq<Option<(String, Option<String>)>>,
    i: int,
    j: int,
)
    requires
        games.len() == bases.len(),
        0 <= i < games.len(),
        0 <= j < games.len(),
        games[i].id@ != games[j].id@,
        bases[i] matches Some((exact, stripped)) && (games[j].id@ == game_id_text(
            games[i].gamekey@,
            exact@,
        ) || (stripped matches Some(s) && games[j].id@ == game_id_text(games[i].gamekey@, s@)
            && !leads_to_row(games, games[i], exact@))),
    ensures
        pairs_of(games, bases, games.len()).contains((i, games[j].id@)),
{
    let names = candidates(bases[i]);
    let g = games[i];
    let n = games.len();
    assert(ids(games)[j] == games[j].id@);
    reveal_with_fuel(offered_row_id, 3);
    if games[j].id@ == game_id_text(g.gamekey@, names[0]) {
        assert(leads_to_row(games, g, names[0]));
    } else {
        assert(names.skip(1)[0] == names[1]);
        assert(leads_to_row(games, g, names[1]));
    }
    assert(offered_row_id(games, g, names) == Some(games[j].id@));
    pairs_grow(games, bases, (i + 1) as nat, n);
    let head = pairs_of(games, bases, (i + 1) as nat);
    let all = pairs_of(games, bases, n);
    assert(head[head.len() - 1] == (i, games[j].id@));
    assert(all[head.len() - 1] == head[head.len() - 1]);
}

proof fn pairs_grow(
    games: Seq<Game>,
    bases: Seq<Option<(String, Option<String>)>>,
    m: nat,
    n: nat,
)
    requires
        m <= n,
    ensures
        pairs_of(games, bases, m).len() <= pairs_of(games, bases, n).len(),
        forall|k: int|
            0 <= k < pairs_of(games, bases, m).len() ==> #[trigger] pairs_of(games, bases, n)[k]
                == pairs_of(games, bases, m)[k],
    decreases n,
{
    if m < n {
        pairs_grow(games, bases, m, (n - 1) as nat);
    }
}

/// A pair leads from a game to another row of the shelf, which bears a candidate name of the game under
/// the order that the game is from.
pub proof fn a_pair_leads_to_another_row(
    games: Seq<Game>,
    bases: Seq<Option<(String, Option<String>)>>,
    n: nat,
    k: int,
)
    requires
        games.len() == bases.len(),
        n <= games.len(),
        0 <= k < pairs_of(games, bases, n).len(),
    ensures
        ({
            let (i, id) = pairs_of(games, bases, n)[k];
            &&& 0 <= i < n
            &&& id != games[i].id@
            &&& exists|j: int| 0 <= j < games.len() && (#[trigger] games[j]).id@ == id
            &&& bases[i] matches Some((exact, stripped)) && (id == game_id_text(
                games[i].gamekey@,
                exact@,
            ) || (stripped matches Some(s) && id == game_id_text(games[i].gamekey@, s@)))
        }),
    decreases n,
{
    let m = (n - 1) as nat;
    let head = pairs_of(games, bases, m);
    if k < head.len() {
        a_pair_leads_to_another_row(games, bases, m, k);
        assert(pairs_of(games, bases, n)[k] == head[k]);
    } else {
        let g = games[n - 1];
        let names = candidates(bases[n - 1]);
        reveal_with_fuel(offered_row_id, 3);
        if names.len() > 1 {
            assert(names.skip(1)[0] == names[1]);
            assert(names.skip(1).skip(1) =~= Seq::empty());
        } else if names.len() == 1 {
            assert(names.skip(1) =~= Seq::empty());
        }
        let id = pairs_of(games, bases, n)[k].1;
        assert(ids(games).contains(id));
        let j = choose|j: int| 0 <= j < ids(games).len() && ids(games)[j] == id;
        assert(games[j].id@ == id);
    }
}

} // verus!
