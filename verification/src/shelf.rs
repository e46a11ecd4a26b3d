//! The shelf as the orders have it: the row that each key becomes, and the correction of rows that
//! still list a key which is spent.
use vstd::prelude::*;
use vstd::string::*;
use crate::humble::{KeyEntry, Order};
use crate::model::{game_id, game_id_text, AppidSource, Game, GameStatus};
use crate::operator_message::{fmt_text, part_texts, OperatorMessage, Part};
use crate::text::{decimal, decimal_of, same};
use crate::wording;

verus! {

// ---- Copies -----------------------------------------------------------------------------------

/// A copy of an optional text.
pub fn copy_text(o: &Option<String>) -> (r: Option<String>)
    ensures
        r == *o,
{
    match o {
        Some(s) => Some(s.clone()),
        None => None,
    }
}

impl KeyEntry {
    /// A copy of the key.
    pub fn copy(&self) -> (r: KeyEntry)
        ensures
            r == *self,
    {
        KeyEntry {
            machine_name: self.machine_name.clone(),
            human_name: self.human_name.clone(),
            key_type: self.key_type.clone(),
            redeemed: self.redeemed,
            expired: self.expired,
            giftable: self.giftable,
            keyindex: self.keyindex,
            redeemed_key_val: copy_text(&self.redeemed_key_val),
            steam_app_id: self.steam_app_id,
            is_gift: self.is_gift,
        }
    }
}

// ---- Which row a key is written to ------------------------------------------------------------

/// What was found under the id of a candidate row.
#[derive(Debug, Clone, Copy, PartialEq, Eq, Structural)]
pub enum Lookup {
    Found,
    Missing,
    Failed,
}

/// The names under which a key's game may already be on the shelf: those that the name of a monthly
/// pick's key is derived from, in the order in which they are tried. There are none for a plain key.
pub open spec fn candidates(bases: Option<(String, Option<String>)>) -> Seq<Seq<char>> {
    match bases {
        None => Seq::empty(),
        Some((exact, None)) => seq![exact@],
        Some((exact, Some(stripped))) => seq![exact@, stripped@],
    }
}

/// Where the search for a key's row stands.
pub enum Route {
    /// Look for this candidate, by its position among the candidates.
    Look { at: usize, id: String },
    /// Write the key under this id.
    Write { id: String },
}

/// The search goes on with candidate `at`, or settles on the key's own id.
pub open spec fn route_goes_on(
    r: Route,
    gamekey: Seq<char>,
    machine_name: Seq<char>,
    cands: Seq<Seq<char>>,
    at: int,
) -> bool {
    if at < cands.len() {
        r matches Route::Look { at: a, id } && a == at && id@ == game_id_text(gamekey, cands[at])
    } else {
        r matches Route::Write { id } && id@ == game_id_text(gamekey, machine_name)
    }
}

fn candidate(bases: &Option<(String, Option<String>)>, at: usize) -> (r: Option<&str>)
    ensures
        match r {
            Some(s) => at < candidates(*bases).len() && s@ == candidates(*bases)[at as int],
            None => at >= candidates(*bases).len(),
        },
{
    match bases {
        None => None,
        Some((exact, stripped)) => if at == 0 {
            Some(exact.as_str())
        } else {
            match stripped {
                Some(s) => if at == 1 {
                    Some(s.as_str())
                } else {
                    None
                },
                None => None,
            }
        },
    }
}

/// Starts, or goes on with, the search for the row of a key.
pub fn route_from(
    gamekey: &str,
    machine_name: &str,
    bases: &Option<(String, Option<String>)>,
    at: usize,
) -> (r: Route)
    ensures
        route_goes_on(r, gamekey@, machine_name@, candidates(*bases), at as int),
{
    match candidate(bases, at) {
        Some(c) => Route::Look { at, id: game_id(gamekey, c) },
        None => Route::Write { id: game_id(gamekey, machine_name) },
    }
}

/// Whether `r` is what follows a look at candidate `at`: the first candidate on the shelf takes the key.
/// Where the look failed, the key is written under its own id rather than lost.
pub open spec fn route_follows(
    r: Route,
    gamekey: Seq<char>,
    machine_name: Seq<char>,
    cands: Seq<Seq<char>>,
    at: int,
    found: Lookup,
) -> bool {
    match found {
        Lookup::Found => r matches Route::Write { id } && id@ == game_id_text(gamekey, cands[at]),
        Lookup::Missing => route_goes_on(r, gamekey, machine_name, cands, at + 1),
        Lookup::Failed => r matches Route::Write { id } && id@ == game_id_text(
            gamekey,
            machine_name,
        ),
    }
}

/// What follows a look at candidate `at`.
pub fn route_after(
    gamekey: &str,
    machine_name: &str,
    bases: &Option<(String, Option<String>)>,
    at: usize,
    found: Lookup,
) -> (r: Route)
    requires
        at < candidates(*bases).len(),
    ensures
        route_follows(r, gamekey@, machine_name@, candidates(*bases), at as int, found),
{
    match found {
        Lookup::Found => match candidate(bases, at) {
            Some(c) => Route::Write { id: game_id(gamekey, c) },
            None => Route::Write { id: game_id(gamekey, machine_name) },
        },
        Lookup::Missing => route_from(gamekey, machine_name, bases, at + 1),
        Lookup::Failed => Route::Write { id: game_id(gamekey, machine_name) },
    }
}

/// The status that a key has, by whether it is redeemed and whether it has expired.
pub struct StatusTable {
    pub fresh: GameStatus,
    pub redeemed: GameStatus,
    pub expired: GameStatus,
    pub redeemed_and_expired: GameStatus,
}

impl StatusTable {
    pub open spec fn status(self, key: KeyEntry) -> GameStatus {
        if key.redeemed && key.expired {
            self.redeemed_and_expired
        } else if key.redeemed {
            self.redeemed
        } else if key.expired {
            self.expired
        } else {
            self.fresh
        }
    }

    /// The status of a key.
    pub fn of(&self, key: &KeyEntry) -> (r: GameStatus)
        ensures
            r == self.status(*key),
    {
        if key.redeemed && key.expired {
            self.redeemed_and_expired
        } else if key.redeemed {
            self.redeemed
        } else if key.expired {
            self.expired
        } else {
            self.fresh
        }
    }
}

/// Where an app id that an order carries comes from.
pub open spec fn order_appid(app: Option<u32>) -> Option<AppidSource> {
    match app {
        Some(_) => Some(AppidSource::Humble),
        None => None,
    }
}

/// Whether `g` is the row that a key of an order becomes, under the given id.
pub open spec fn is_order_row(
    g: Game,
    id: Seq<char>,
    order: Order,
    key: KeyEntry,
    table: StatusTable,
    artwork: Option<String>,
) -> bool {
    &&& g.id@ == id
    &&& g.title == key.human_name
    &&& g.bundle == order.bundle_name
    &&& g.gamekey == order.gamekey
    &&& g.machine_name == key.machine_name
    &&& g.key_type == key.key_type
    &&& g.giftable == key.giftable
    &&& !g.hidden
    &&& g.status == table.status(key)
    &&& g.claim_id is None
    &&& g.artwork_url == artwork
    &&& g.keyindex == key.keyindex
    &&& !g.requires_choice
    &&& g.steam_app_id == key.steam_app_id
    &&& g.appid_source == order_appid(key.steam_app_id)
    &&& !g.owned_by_ben
}

fn order_appid_of(app: Option<u32>) -> (r: Option<AppidSource>)
    ensures
        r == order_appid(app),
{
    match app {
        Some(_) => Some(AppidSource::Humble),
        None => None,
    }
}

/// The row that a key of an order becomes. There is a key, so no pick has to be spent for it.
pub fn order_row(
    id: String,
    order: &Order,
    key: &KeyEntry,
    table: &StatusTable,
    artwork: Option<String>,
) -> (g: Game)
    ensures
        is_order_row(g, id@, *order, *key, *table, artwork),
{
    Game {
        id,
        title: key.human_name.clone(),
        bundle: order.bundle_name.clone(),
        gamekey: order.gamekey.clone(),
        machine_name: key.machine_name.clone(),
        key_type: key.key_type.clone(),
        giftable: key.giftable,
        hidden: false,
        status: table.of(key),
        claim_id: None,
        artwork_url: artwork,
        keyindex: key.keyindex,
        requires_choice: false,
        steam_app_id: key.steam_app_id,
        appid_source: order_appid_of(key.steam_app_id),
        owned_by_ben: false,
    }
}

// ---- What the orders say ----------------------------------------------------------------------

/// What a pass over the orders has seen of one key.
pub struct TruthEntry {
    pub gamekey: String,
    pub key: KeyEntry,
}

/// What a pass over the orders has seen. An order that could not be read has left nothing here.
pub struct Truth {
    entries: Vec<TruthEntry>,
}

/// The keys seen, by order and name; the later of two under one name counts.
pub open spec fn truth_map(entries: Seq<TruthEntry>) -> Map<(Seq<char>, Seq<char>), KeyEntry>
    decreases entries.len(),
{
    if entries.len() == 0 {
        Map::empty()
    } else {
        let last = entries.last();
        truth_map(entries.drop_last()).insert((last.gamekey@, last.key.machine_name@), last.key)
    }
}

impl View for Truth {
    type V = Map<(Seq<char>, Seq<char>), KeyEntry>;

    closed spec fn view(&self) -> Map<(Seq<char>, Seq<char>), KeyEntry> {
        truth_map(self.entries@)
    }
}

impl Truth {
    pub fn new() -> (r: Truth)
        ensures
            r@ == Map::<(Seq<char>, Seq<char>), KeyEntry>::empty(),
    {
        Truth { entries: Vec::new() }
    }

    /// Notes what an order says of one of its keys.
    pub fn record(&mut self, gamekey: &str, key: &KeyEntry)
        ensures
            final(self)@ == old(self)@.insert((gamekey@, key.machine_name@), *key),
    {
        let entry = TruthEntry { gamekey: String::from_str(gamekey), key: key.copy() };
        let ghost was = self.entries@;
        self.entries.push(entry);
        assert(self.entries@.drop_last() =~= was);
    }

    /// What was seen of a key, if anything.
    pub fn get(&self, gamekey: &str, machine_name: &str) -> (r: Option<&KeyEntry>)
        ensures
            match r {
                Some(k) => self@.contains_key((gamekey@, machine_name@)) && self@[(
                    gamekey@,
                    machine_name@,
                )] == *k,
                None => !self@.contains_key((gamekey@, machine_name@)),
            },
    {
        let mut i: usize = self.entries.len();
        let ghost k = (gamekey@, machine_name@);
        assert(self.entries@.take(i as int) =~= self.entries@);
        while i > 0
            invariant
                i <= self.entries@.len(),
                k == (gamekey@, machine_name@),
                truth_map(self.entries@).contains_key(k) <==> truth_map(
                    self.entries@.take(i as int),
                ).contains_key(k),
                truth_map(self.entries@).contains_key(k) ==> truth_map(self.entries@)[k]
                    == truth_map(self.entries@.take(i as int))[k],
            decreases i,
        {
            let ghost part = self.entries@.take(i as int);
            assert(part.drop_last() =~= self.entries@.take(i - 1));
            i -= 1;
            let e = &self.entries[i];
            if same(e.gamekey.as_str(), gamekey) && same(e.key.machine_name.as_str(), machine_name) {
                return Some(&e.key);
            }
        }
        assert(self.entries@.take(0) =~= Seq::empty());
        None
    }
}

// ---- The audit --------------------------------------------------------------------------------

/// Whether a key is spent: revealed or expired.
pub open spec fn is_spent(key: KeyEntry) -> bool {
    key.redeemed || key.expired
}

/// Whether `r` is the row `g` with what the order says of its key put right, and all else kept.
pub open spec fn is_corrected(r: Game, g: Game, key: KeyEntry, table: StatusTable) -> bool {
    &&& r.id == g.id
    &&& r.title == g.title
    &&& r.bundle == g.bundle
    &&& r.gamekey == g.gamekey
    &&& r.machine_name == g.machine_name
    &&& r.key_type == key.key_type
    &&& r.giftable == key.giftable
    &&& r.hidden == g.hidden
    &&& r.status == table.status(key)
    &&& r.claim_id == g.claim_id
    &&& r.artwork_url == g.artwork_url
    &&& r.keyindex == key.keyindex
    &&& r.requires_choice == g.requires_choice
    &&& r.steam_app_id == if key.steam_app_id is Some {
        key.steam_app_id
    } else {
        g.steam_app_id
    }
    &&& r.appid_source == if key.steam_app_id is Some {
        Some(AppidSource::Humble)
    } else {
        g.appid_source
    }
    &&& r.owned_by_ben == g.owned_by_ben
}

/// The row with what the order says of its key put right.
fn corrected(g: &Game, key: &KeyEntry, table: &StatusTable) -> (r: Game)
    ensures
        is_corrected(r, *g, *key, *table),
{
    Game {
        id: g.id.clone(),
        title: g.title.clone(),
        bundle: g.bundle.clone(),
        gamekey: g.gamekey.clone(),
        machine_name: g.machine_name.clone(),
        key_type: key.key_type.clone(),
        giftable: key.giftable,
        hidden: g.hidden,
        status: table.of(key),
        claim_id: copy_text(&g.claim_id),
        artwork_url: copy_text(&g.artwork_url),
        keyindex: key.keyindex,
        requires_choice: g.requires_choice,
        steam_app_id: match key.steam_app_id {
            Some(a) => Some(a),
            None => g.steam_app_id,
        },
        appid_source: match key.steam_app_id {
            Some(_) => Some(AppidSource::Humble),
            None => g.appid_source,
        },
        owned_by_ben: g.owned_by_ben,
    }
}

/// A row of the shelf, and whether it is on offer.
pub struct Row {
    pub game: Game,
    pub listable: bool,
}

/// Whether the audit corrects a row: it is on offer, and this pass has seen its key to be spent. A
/// row that the pass has seen nothing of is left alone.
pub open spec fn needs_correction(row: Row, truth: Map<(Seq<char>, Seq<char>), KeyEntry>) -> bool {
    let k = (row.game.gamekey@, row.game.machine_name@);
    row.listable && truth.contains_key(k) && is_spent(truth[k])
}

/// What is not seen is no evidence: what an order says of one key decides about the rows of that key
/// alone, and a row of which nothing was seen is left as it is.
pub proof fn absence_is_no_evidence(
    row: Row,
    truth: Map<(Seq<char>, Seq<char>), KeyEntry>,
    gamekey: Seq<char>,
    key: KeyEntry,
)
    ensures
        !needs_correction(row, Map::empty()),
        needs_correction(row, truth.insert((gamekey, key.machine_name@), key)) == if (
            row.game.gamekey@,
            row.game.machine_name@,
        ) == (gamekey, key.machine_name@) {
            row.listable && is_spent(key)
        } else {
            needs_correction(row, truth)
        },
{
}

/// The corrected row to write, if the row needs it.
pub fn correction(row: &Row, truth: &Truth, table: &StatusTable) -> (r: Option<Game>)
    ensures
        match r {
            Some(w) => needs_correction(*row, truth@) && is_corrected(
                w,
                row.game,
                truth@[(row.game.gamekey@, row.game.machine_name@)],
                *table,
            ),
            None => !needs_correction(*row, truth@),
        },
{
    if !row.listable {
        return None;
    }
    match truth.get(row.game.gamekey.as_str(), row.game.machine_name.as_str()) {
        Some(key) => if key.redeemed || key.expired {
            Some(corrected(&row.game, key, table))
        } else {
            None
        },
        None => None,
    }
}

/// The next row, from `from` on, that the audit corrects, and what it writes.
pub fn shelf_truth_audit(rows: &Vec<Row>, truth: &Truth, table: &StatusTable, from: usize) -> (r:
    Option<(usize, Game)>)
    requires
        from <= rows@.len(),
    ensures
        match r {
            Some((i, w)) => {
                &&& from <= i < rows@.len()
                &&& needs_correction(rows@[i as int], truth@)
                &&& forall|j: int| from <= j < i ==> !needs_correction(#[trigger] rows@[j], truth@)
                &&& is_corrected(
                    w,
                    rows@[i as int].game,
                    truth@[(rows@[i as int].game.gamekey@, rows@[i as int].game.machine_name@)],
                    *table,
                )
            },
            None => forall|j: int|
                from <= j < rows@.len() ==> !needs_correction(#[trigger] rows@[j], truth@),
        },
{
    for i in from..rows.len()
        invariant
            from <= rows@.len(),
            forall|j: int| from <= j < i ==> !needs_correction(#[trigger] rows@[j], truth@),
    {
        if let Some(w) = correction(&rows[i], truth, table) {
            return Some((i, w));
        }
    }
    None
}

/// How a write to the shelf has ended.
#[derive(Debug, Clone, Copy, PartialEq, Eq, Structural)]
pub enum Write {
    Written,
    /// The row was as it should be.
    Unchanged,
    /// A claim is under way on the game.
    SkippedInFlight,
    Failed,
}

/// A row that was taken off the shelf.
pub struct Pulled {
    pub title: String,
    pub id: String,
    pub expired: bool,
    pub gift: bool,
}

/// What an audit has done so far.
pub struct Audit {
    pub pulled: Vec<Pulled>,
    pub rows_failed: u32,
}

/// Whether `a` is `was` with the correction of a row noted. Only a row that was written counts as pulled;
/// one that could not be is counted apart.
pub open spec fn is_audited(a: Audit, was: Audit, game: Game, key: KeyEntry, write: Write) -> bool {
    &&& a.rows_failed == was.rows_failed + if write == Write::Failed {
        1int
    } else {
        0int
    }
    &&& write != Write::Written ==> a.pulled == was.pulled
    &&& write == Write::Written ==> a.pulled@ == was.pulled@.push(
        Pulled {
            title: game.title,
            id: game.id,
            expired: key.expired,
            gift: key.is_gift == Some(true),
        },
    )
}

/// Notes how the correction of a row has ended.
pub fn note_correction(audit: &mut Audit, game: &Game, key: &KeyEntry, write: Write)
    requires
        old(audit).rows_failed < u32::MAX,
    ensures
        is_audited(*final(audit), *old(audit), *game, *key, write),
{
    match write {
        Write::Written => {
            let gift: bool = match key.is_gift {
                Some(true) => true,
                _ => false,
            };
            audit.pulled.push(
                Pulled {
                    title: game.title.clone(),
                    id: game.id.clone(),
                    expired: key.expired,
                    gift,
                },
            );
        },
        Write::Failed => {
            audit.rows_failed = audit.rows_failed + 1;
        },
        _ => {},
    }
}

/// The titles of the rows, a gift marked as one, with commas between.
pub open spec fn pulled_titles(pulled: Seq<Pulled>) -> Seq<char>
    decreases pulled.len(),
{
    if pulled.len() == 0 {
        Seq::empty()
    } else {
        let p = pulled.last();
        let one = if p.gift {
            p.title@ + " (gift)"@
        } else {
            p.title@
        };
        if pulled.len() == 1 {
            one
        } else {
            pulled_titles(pulled.drop_last()) + ", "@ + one
        }
    }
}

/// What the operator reads of one row.
pub open spec fn pulled_text(p: Pulled) -> Seq<char> {
    fmt_text(
        wording::AUDIT_PULLED@,
        seq![
            p.title@,
            p.id@,
            if p.expired {
                "expired"@
            } else {
                "revealed outside the app"@
            },
            if p.gift {
                " (humble marks it a gift)"@
            } else {
                ""@
            },
        ],
    )
}

/// What the operator reads of an audit: up to three rows one by one, more in one message.
pub open spec fn audit_texts(pulled: Seq<Pulled>) -> Seq<Seq<char>> {
    if pulled.len() > 3 {
        seq![
            fmt_text(
                wording::AUDIT_SUMMARY@,
                seq![decimal(pulled.len()), pulled_titles(pulled)],
            ),
        ]
    } else {
        Seq::new(pulled.len(), |i: int| pulled_text(pulled[i]))
    }
}

fn titles_of(pulled: &Vec<Pulled>) -> (r: String)
    ensures
        r@ == pulled_titles(pulled@),
{
    let mut out = String::new();
    for i in 0..pulled.len()
        invariant
            out@ == pulled_titles(pulled@.take(i as int)),
    {
        let ghost part = pulled@.take(i + 1);
        assert(part.drop_last() =~= pulled@.take(i as int));
        assert(part.last() == pulled@[i as int]);
        if i > 0 {
            out.append(", ");
        }
        out.append(pulled[i].title.as_str());
        if pulled[i].gift {
            out.append(" (gift)");
        }
        assert(out@ =~= pulled_titles(part));
    }
    assert(pulled@.take(pulled@.len() as int) =~= pulled@);
    out
}

/// The messages of an audit.
pub fn audit_messages(pulled: &Vec<Pulled>) -> (r: Vec<OperatorMessage>)
    ensures
        crate::reconcile::texts(r@) == audit_texts(pulled@),
{
    let mut out: Vec<OperatorMessage> = Vec::new();
    if pulled.len() > 3 {
        let n = decimal_of(pulled.len() as u64);
        let titles = titles_of(pulled);
        let parts = [Part::Id(n.as_str()), Part::Id(titles.as_str())];
        assert(part_texts(parts@) =~= seq![decimal(pulled@.len()), pulled_titles(pulled@)]);
        out.push(OperatorMessage::fmt(wording::AUDIT_SUMMARY, &parts));
        assert(crate::reconcile::texts(out@) =~= audit_texts(pulled@));
        return out;
    }
    for i in 0..pulled.len()
        invariant
            pulled@.len() <= 3,
            crate::reconcile::texts(out@) =~= audit_texts(pulled@).take(i as int),
    {
        let p = &pulled[i];
        let reason = if p.expired {
            "expired"
        } else {
            "revealed outside the app"
        };
        let note = if p.gift {
            " (humble marks it a gift)"
        } else {
            ""
        };
        let parts = [
            Part::Id(p.title.as_str()),
            Part::Id(p.id.as_str()),
            Part::Id(reason),
            Part::Text(note),
        ];
        assert(part_texts(parts@) =~= seq![p.title@, p.id@, reason@, note@]);
        let m = OperatorMessage::fmt(wording::AUDIT_PULLED, &parts);
        assert(m@ == pulled_text(*p));
        assert(crate::reconcile::texts(out@.push(m)) =~= crate::reconcile::texts(out@).push(m@));
        assert(audit_texts(pulled@).take(i + 1) =~= audit_texts(pulled@).take(i as int).push(m@));
        out.push(m);
    }
    assert(crate::reconcile::texts(out@) =~= audit_texts(pulled@));
    out
}

// ---- Writing the keys of an order -------------------------------------------------------------

/// What is known of a key beside its order: the names that its own may be derived from, and the
/// artwork that belongs to its title.
pub struct KeyInfo {
    pub bases: Option<(String, Option<String>)>,
    pub artwork: Option<String>,
}

/// Where the writing of an order stands: at which key, and at which of its candidates.
#[derive(Debug, Clone, Copy, PartialEq, Eq, Structural)]
pub enum StoreAt {
    Looking { k: usize, at: usize },
    Writing { k: usize },
    Over,
}

/// What the writing of an order requests next.
pub enum StoreRequest {
    /// Look for the row with this id.
    Look { id: String },
    Write(Game),
    Done,
}

/// What became of the keys so far.
#[derive(Debug, Clone, Copy, PartialEq, Eq, Structural)]
pub struct Stored {
    pub written: u32,
    pub failed: bool,
}

/// One turn of the writing of an order.
pub struct StoreStep {
    pub at: StoreAt,
    pub stored: Stored,
    pub request: StoreRequest,
}

impl StoreStep {
    /// The search for the row of key `k` has come to `route`.
    pub open spec fn routes(
        self,
        order: Order,
        infos: Seq<KeyInfo>,
        table: StatusTable,
        k: int,
        route: Route,
    ) -> bool {
        match route {
            Route::Look { at, id } => {
                &&& self.at == (StoreAt::Looking { k: k as usize, at })
                &&& self.request == (StoreRequest::Look { id })
            },
            Route::Write { id } => {
                &&& self.at == (StoreAt::Writing { k: k as usize })
                &&& self.request matches StoreRequest::Write(g) && is_order_row(
                    g,
                    id@,
                    order,
                    order.keys@[k],
                    table,
                    infos[k].artwork,
                )
            },
        }
    }

    /// The writing goes on with key `k`.
    pub open spec fn goes_on(
        self,
        order: Order,
        infos: Seq<KeyInfo>,
        table: StatusTable,
        k: int,
        stored: Stored,
    ) -> bool {
        &&& self.stored == stored
        &&& if k < order.keys@.len() {
            exists|r: Route|
                route_goes_on(
                    r,
                    order.gamekey@,
                    order.keys@[k].machine_name@,
                    candidates(infos[k].bases),
                    0,
                ) && #[trigger] self.routes(order, infos, table, k, r)
        } else {
            self.at == StoreAt::Over && self.request is Done
        }
    }
}

fn at_route(
    order: &Order,
    infos: &Vec<KeyInfo>,
    table: &StatusTable,
    k: usize,
    route: Route,
    stored: Stored,
) -> (out: StoreStep)
    requires
        k < order.keys@.len(),
        infos@.len() == order.keys@.len(),
    ensures
        out.routes(*order, infos@, *table, k as int, route),
        out.stored == stored,
{
    match route {
        Route::Look { at, id } => StoreStep {
            at: StoreAt::Looking { k, at },
            stored,
            request: StoreRequest::Look { id },
        },
        Route::Write { id } => StoreStep {
            at: StoreAt::Writing { k },
            stored,
            request: StoreRequest::Write(
                order_row(id, order, &order.keys[k], table, copy_text(&infos[k].artwork)),
            ),
        },
    }
}

/// Goes on with key `k` of an order.
pub fn store_key(
    order: &Order,
    infos: &Vec<KeyInfo>,
    table: &StatusTable,
    k: usize,
    stored: Stored,
) -> (out: StoreStep)
    requires
        k <= order.keys@.len(),
        infos@.len() == order.keys@.len(),
    ensures
        out.goes_on(*order, infos@, *table, k as int, stored),
{
    if k < order.keys.len() {
        let route = route_from(
            order.gamekey.as_str(),
            order.keys[k].machine_name.as_str(),
            &infos[k].bases,
            0,
        );
        at_route(order, infos, table, k, route, stored)
    } else {
        StoreStep { at: StoreAt::Over, stored, request: StoreRequest::Done }
    }
}

/// A look at a candidate has come back: the search goes on, or it has found where the key belongs.
pub fn store_looked(
    order: &Order,
    infos: &Vec<KeyInfo>,
    table: &StatusTable,
    k: usize,
    at: usize,
    found: Lookup,
    stored: Stored,
) -> (out: StoreStep)
    requires
        k < order.keys@.len(),
        infos@.len() == order.keys@.len(),
        at < candidates(infos@[k as int].bases).len(),
    ensures
        out.stored == stored,
        out.looks_on(*order, infos@, *table, k as int, at as int, found),
{
    let route = route_after(
        order.gamekey.as_str(),
        order.keys[k].machine_name.as_str(),
        &infos[k].bases,
        at,
        found,
    );
    at_route(order, infos, table, k, route, stored)
}

impl StoreStep {
    /// The search for the row of key `k` goes on after a look at its candidate `at`.
    pub open spec fn looks_on(
        self,
        order: Order,
        infos: Seq<KeyInfo>,
        table: StatusTable,
        k: int,
        at: int,
        found: Lookup,
    ) -> bool {
        match found {
            Lookup::Found => self.routes(
                order,
                infos,
                table,
                k,
                Route::Write { id: self.written_id() },
            ) && self.written_id()@ == game_id_text(order.gamekey@, candidates(infos[k].bases)[at]),
            Lookup::Missing => exists|r: Route|
                route_goes_on(
                    r,
                    order.gamekey@,
                    order.keys@[k].machine_name@,
                    candidates(infos[k].bases),
                    at + 1,
                ) && #[trigger] self.routes(order, infos, table, k, r),
            Lookup::Failed => self.routes(
                order,
                infos,
                table,
                k,
                Route::Write { id: self.written_id() },
            ) && self.written_id()@ == game_id_text(order.gamekey@, order.keys@[k].machine_name@),
        }
    }

    /// The id under which the key is written, where it is.
    pub open spec fn written_id(self) -> String {
        self.request->Write_0.id
    }
}

/// What became of the keys, with one more write counted: what was written is, and a failure is
/// remembered.
pub open spec fn with_write(stored: Stored, write: Write) -> Stored {
    Stored {
        written: if write == Write::Written {
            (stored.written + 1) as u32
        } else {
            stored.written
        },
        failed: stored.failed || write == Write::Failed,
    }
}

/// A write has come back: it is counted, and the next key is taken up.
pub fn store_wrote(
    order: &Order,
    infos: &Vec<KeyInfo>,
    table: &StatusTable,
    k: usize,
    write: Write,
    stored: Stored,
) -> (out: StoreStep)
    requires
        k < order.keys@.len(),
        infos@.len() == order.keys@.len(),
        stored.written < u32::MAX,
    ensures
        out.goes_on(*order, infos@, *table, k + 1, with_write(stored, write)),
{
    let next = Stored {
        written: if matches!(write, Write::Written) {
            stored.written + 1
        } else {
            stored.written
        },
        failed: stored.failed || matches!(write, Write::Failed),
    };
    let n: usize = order.keys.len();
    assert(order.keys@.len() == n);
    store_key(order, infos, table, k + 1, next)
}

} // verus!
