//! Which games the owner has on Steam, and which Steam app a game is, by its title.
use vstd::prelude::*;
use vstd::string::*;
use crate::model::{AppidSource, Game};
use crate::operator_message::OperatorMessage;
use crate::select::{selected, selected_is_exact};
use crate::text::{chars_of, is_space, same, views};
use crate::wording;

verus! {

/// The library as it was last read is good for this long, in seconds.
pub const STEAM_OWNED_FRESH_SECS: i64 = 86_400;

// ---- Marks ------------------------------------------------------------------------------------

/// A change to a game's mark.
pub struct Stamp {
    pub game_id: String,
    pub owned: bool,
}

/// Whether a game's mark has to change: it has an app, and its mark is not what the library says.
pub open spec fn is_mismarked(g: Game, library: Seq<u32>) -> bool {
    g.steam_app_id is Some && library.contains(g.steam_app_id->0) != g.owned_by_ben
}

/// The positions, below `n`, of the games whose marks have to change.
pub open spec fn mismarked(games: Seq<Game>, library: Seq<u32>, n: nat) -> Seq<int> {
    selected(n, |i: int| is_mismarked(games[i], library))
}

fn library_has(library: &Vec<u32>, app: u32) -> (r: bool)
    ensures
        r == library@.contains(app),
{
    for i in 0..library.len()
        invariant
            forall|j: int| 0 <= j < i ==> library@[j] != app,
    {
        if library[i] == app {
            assert(library@[i as int] == app);
            return true;
        }
    }
    false
}

/// The marks that have to change, game by game. A game without an app is left alone.
pub fn stamp_owned(games: &Vec<Game>, library: &Vec<u32>) -> (r: Vec<Stamp>)
    ensures
        r@.len() == mismarked(games@, library@, games@.len()).len(),
        forall|k: int|
            0 <= k < r@.len() ==> {
                let g = games@[mismarked(games@, library@, games@.len())[k]];
                (#[trigger] r@[k]).game_id == g.id && r@[k].owned == !g.owned_by_ben
            },
{
    let mut out: Vec<Stamp> = Vec::new();
    for i in 0..games.len()
        invariant
            out@.len() == mismarked(games@, library@, i as nat).len(),
            forall|k: int|
                0 <= k < out@.len() ==> {
                    let g = games@[mismarked(games@, library@, i as nat)[k]];
                    (#[trigger] out@[k]).game_id == g.id && out@[k].owned == !g.owned_by_ben
                },
    {
        if let Some(app) = games[i].steam_app_id {
            let owned: bool = library_has(library, app);
            if owned != games[i].owned_by_ben {
                out.push(Stamp { game_id: games[i].id.clone(), owned });
            }
        }
    }
    out
}

/// A game is marked anew exactly if it has an app and its mark is wrong; the mark that is changed is
/// then what the library says. Once all are changed, every game with an app is marked as owned exactly
/// if the library has the app.
pub proof fn the_marks_follow_the_library(games: Seq<Game>, library: Seq<u32>, i: int)
    requires
        0 <= i < games.len(),
    ensures
        ({
            let at = mismarked(games, library, games.len());
            let changed = at.contains(i);
            let now_owned = if changed {
                !games[i].owned_by_ben
            } else {
                games[i].owned_by_ben
            };
            &&& games[i].steam_app_id is None ==> !changed
            &&& games[i].steam_app_id matches Some(app) ==> (now_owned <==> exists|k: int|
                0 <= k < library.len() && #[trigger] library[k] == app)
        }),
{
    let p = |i: int| is_mismarked(games[i], library);
    selected_is_exact(games.len(), p);
    let at = mismarked(games, library, games.len());
    if at.contains(i) {
        let k = choose|k: int| 0 <= k < at.len() && at[k] == i;
        assert(p(at[k]));
    }
    if is_mismarked(games[i], library) {
        assert(p(i));
    }
    if let Some(app) = games[i].steam_app_id {
        if library.contains(app) {
            let k = choose|k: int| 0 <= k < library.len() && library[k] == app;
            assert(library[k] == app);
        }
    }
}

// ---- The library ------------------------------------------------------------------------------

/// What to do about the owner's library.
#[derive(Debug, Clone, Copy, PartialEq, Eq, Structural)]
pub enum Refresh {
    /// Nothing can be learned: no client, or no account.
    Skip,
    /// What was read last is fresh: mark the games by it.
    UseCached,
    Fetch,
}

/// What the library as it was last read, and when, lead to.
pub open spec fn refresh_plan(client: bool, account: bool, cached_at: Option<i64>, now: i64) -> Refresh {
    if !client || !account {
        Refresh::Skip
    } else if cached_at is Some && now - cached_at->0 <= STEAM_OWNED_FRESH_SECS {
        Refresh::UseCached
    } else {
        Refresh::Fetch
    }
}

/// The library is fetched once it is more than a day old, or was never read; until then it is taken as
/// it was, and without a client or an account there is none.
pub proof fn the_library_is_good_for_a_day(
    client: bool,
    account: bool,
    cached_at: Option<i64>,
    now: i64,
)
    ensures
        ({
            let plan = refresh_plan(client, account, cached_at, now);
            &&& plan == Refresh::Skip <==> !(client && account)
            &&& plan == Refresh::Fetch <==> client && account && (cached_at matches Some(at) ==> at
                + 86_400 < now)
            &&& plan == Refresh::UseCached ==> cached_at is Some
        }),
{
}

/// What the library as it was last read, and when, lead to.
pub fn plan_refresh(client: bool, account: bool, cached_at: Option<i64>, now: i64) -> (r: Refresh)
    ensures
        r == refresh_plan(client, account, cached_at, now),
{
    if !client || !account {
        return Refresh::Skip;
    }
    match cached_at {
        Some(at) => if now as i128 - at as i128 <= STEAM_OWNED_FRESH_SECS as i128 {
            Refresh::UseCached
        } else {
            Refresh::Fetch
        },
        None => Refresh::Fetch,
    }
}

/// How the library has come back.
#[derive(Debug, Clone, Copy, PartialEq, Eq, Structural)]
pub enum Library {
    Games,
    Private,
    Failed,
}

/// What a look at the library has led to.
pub struct Refreshed {
    /// Mark the games by what was read.
    pub stamp: bool,
    pub told: Option<OperatorMessage>,
    /// The library was seen to be private, and has not been read since.
    pub private_pinged: bool,
}

/// Whether `r` is what the plan and the library lead to. The operator is told once that the library
/// has become private, and only if it could be read before; a library that was read ends the matter.
pub open spec fn is_refreshed(
    r: Refreshed,
    plan: Refresh,
    library: Library,
    cached: bool,
    already_pinged: bool,
) -> bool {
    let tell = plan == Refresh::Fetch && library == Library::Private && cached && !already_pinged;
    &&& r.stamp == (plan == Refresh::UseCached || (plan == Refresh::Fetch && library
        == Library::Games))
    &&& match r.told {
        Some(m) => tell && m@ == wording::LIBRARY_PRIVATE@,
        None => !tell,
    }
    &&& r.private_pinged == if r.stamp {
        false
    } else {
        already_pinged || (plan == Refresh::Fetch && library == Library::Private)
    }
}

/// What a look at the library has led to.
pub fn refresh_ben_ownership(plan: Refresh, library: Library, cached: bool, already_pinged: bool) -> (r:
    Refreshed)
    ensures
        is_refreshed(r, plan, library, cached, already_pinged),
{
    match plan {
        Refresh::Skip => Refreshed { stamp: false, told: None, private_pinged: already_pinged },
        Refresh::UseCached => Refreshed { stamp: true, told: None, private_pinged: false },
        Refresh::Fetch => match library {
            Library::Games => Refreshed { stamp: true, told: None, private_pinged: false },
            Library::Private => {
                let tell: bool = cached && !already_pinged;
                Refreshed {
                    stamp: false,
                    told: if tell {
                        Some(OperatorMessage::literal(wording::LIBRARY_PRIVATE))
                    } else {
                        None
                    },
                    private_pinged: true,
                }
            },
            Library::Failed => Refreshed {
                stamp: false,
                told: None,
                private_pinged: already_pinged,
            },
        },
    }
}

/// While the library stays private the operator is told at most once: a second look, with the mark
/// that the first has left, tells nothing. Only a library that was read lifts the mark.
pub proof fn an_episode_is_told_once(
    first: Refreshed,
    second: Refreshed,
    plan: Refresh,
    plan2: Refresh,
    library: Library,
    library2: Library,
    cached: bool,
    cached2: bool,
    already_pinged: bool,
)
    requires
        is_refreshed(first, plan, library, cached, already_pinged),
        is_refreshed(second, plan2, library2, cached2, first.private_pinged),
        first.private_pinged,
    ensures
        second.told is None,
        second.private_pinged == !second.stamp,
        first.told is Some ==> !already_pinged,
{
}

/// The games are marked exactly when a library is at hand, fresh or read just now. The operator is told
/// exactly when a library that could be read before is found to be private, for the first time.
pub proof fn each_look_has_its_outcome(
    r: Refreshed,
    plan: Refresh,
    library: Library,
    cached: bool,
    already_pinged: bool,
)
    requires
        is_refreshed(r, plan, library, cached, already_pinged),
    ensures
        plan == Refresh::Skip ==> !r.stamp && r.told is None && r.private_pinged == already_pinged,
        plan == Refresh::UseCached ==> r.stamp && r.told is None && !r.private_pinged,
        plan == Refresh::Fetch && library == Library::Games ==> r.stamp && r.told is None
            && !r.private_pinged,
        plan == Refresh::Fetch && library == Library::Failed ==> !r.stamp && r.told is None
            && r.private_pinged == already_pinged,
        plan == Refresh::Fetch && library == Library::Private ==> !r.stamp && r.private_pinged && (
        r.told is Some <==> cached && !already_pinged),
{
}

// ---- Titles -----------------------------------------------------------------------------------

/// The lower case of a text, as `str::to_lowercase` has it.
pub uninterp spec fn lower_case(s: Seq<char>) -> Seq<char>;

/// `str::to_lowercase`: the text with every character mapped to its Unicode lower case, known here
/// by its name alone.
#[verifier::external_body]
fn to_lower_case(s: &str) -> (r: String)
    ensures
        r@ == lower_case(s@),
{
    s.to_lowercase()
}

/// A text being tidied: what there is so far, and whether white space was seen after it.
pub struct Tidy {
    pub text: Seq<char>,
    pub gap: bool,
}

/// A text without trademark signs, with single spaces between its words and none around them.
pub open spec fn tidied(s: Seq<char>) -> Tidy
    decreases s.len(),
{
    if s.len() == 0 {
        Tidy { text: Seq::empty(), gap: false }
    } else {
        let t = tidied(s.drop_last());
        let c = s.last();
        if c == '™' || c == '®' {
            t
        } else if is_space(c) {
            Tidy { text: t.text, gap: true }
        } else {
            Tidy {
                text: if t.gap && t.text.len() > 0 {
                    t.text.push(' ').push(c)
                } else {
                    t.text.push(c)
                },
                gap: false,
            }
        }
    }
}

/// Takes the trademark signs and the spare white space out of a text.
pub fn tidy(s: &str) -> (r: String)
    ensures
        r@ == tidied(s@).text,
{
    let v = chars_of(s);
    let mut out = String::new();
    let mut gap: bool = false;
    let mut some: bool = false;
    assert(s@.take(0) =~= Seq::empty());
    for i in 0..v.len()
        invariant
            v@ == s@,
            out@ == tidied(s@.take(i as int)).text,
            gap == tidied(s@.take(i as int)).gap,
            some == (out@.len() > 0),
    {
        assert(s@.take(i + 1).drop_last() =~= s@.take(i as int));
        let c: char = v[i];
        if c == '™' || c == '®' {
        } else if c.is_whitespace() {
            gap = true;
        } else {
            if gap && some {
                out.push(' ');
            }
            out.push(c);
            gap = false;
            some = true;
        }
    }
    assert(s@.take(s@.len() as int) =~= s@);
    out
}

/// A title as it is compared: in lower case, without trademark signs and spare white space.
pub open spec fn normal_title(s: Seq<char>) -> Seq<char> {
    tidied(lower_case(s)).text
}

/// A title as it is compared.
pub fn normalize(s: &str) -> (r: String)
    ensures
        r@ == normal_title(s@),
{
    tidy(to_lower_case(s).as_str())
}

/// An app as Steam lists it.
pub struct ListedApp {
    pub app_id: u32,
    pub name: String,
}

/// Whether a game is looked for by its title: it has a Steam key and no app, and nobody has said
/// otherwise by hand.
pub open spec fn is_unmapped(g: Game) -> bool {
    g.key_type@ == "steam"@ && g.steam_app_id is None && g.appid_source != Some(
        AppidSource::Manual,
    )
}

/// Whether a game is looked for by its title.
pub fn needs_appid(g: &Game) -> (r: bool)
    ensures
        r == is_unmapped(*g),
{
    let manual: bool = match g.appid_source {
        Some(AppidSource::Manual) => true,
        _ => false,
    };
    same(g.key_type.as_str(), "steam") && g.steam_app_id.is_none() && !manual
}

/// The positions, below `n`, of the apps that bear a title.
pub open spec fn apps_named(names: Seq<Seq<char>>, title: Seq<char>, n: nat) -> Seq<int> {
    selected(n, |i: int| names[i] == title)
}

/// The names of the listed apps, as they are compared.
pub open spec fn normal_names(apps: Seq<ListedApp>) -> Seq<Seq<char>> {
    Seq::new(apps.len(), |i: int| normal_title(apps[i].name@))
}

/// The app of a title: the only one that bears it, or none.
pub open spec fn app_named(apps: Seq<ListedApp>, names: Seq<Seq<char>>, title: Seq<char>) -> Option<u32> {
    let at = apps_named(names, title, names.len());
    if at.len() == 1 {
        Some(apps[at[0]].app_id)
    } else {
        None
    }
}

/// The app of a title, which is given as it is compared, like the names of the apps.
pub fn find_app(apps: &Vec<ListedApp>, names: &Vec<String>, title: &String) -> (r: Option<u32>)
    requires
        apps@.len() == names@.len(),
    ensures
        r == app_named(apps@, views(names@), title@),
{
    let ghost all = views(names@);
    let mut count: usize = 0;
    let mut first: usize = 0;
    for i in 0..names.len()
        invariant
            apps@.len() == names@.len(),
            all == views(names@),
            count <= i,
            count == apps_named(all, title@, i as nat).len(),
            count > 0 ==> first < i && apps_named(all, title@, i as nat)[0] == first,
    {
        if names[i] == *title {
            if count == 0 {
                first = i;
            }
            count += 1;
        }
    }
    if count == 1 {
        Some(apps[first].app_id)
    } else {
        None
    }
}

/// A game whose app was found.
pub struct Mapping {
    pub game_id: String,
    pub app_id: u32,
}

/// The apps that are found by title for the first `n` games.
pub open spec fn title_mappings(games: Seq<Game>, apps: Seq<ListedApp>, n: nat) -> Seq<(Seq<char>, u32)>
    decreases n,
{
    if n == 0 {
        Seq::empty()
    } else {
        let head = title_mappings(games, apps, (n - 1) as nat);
        let g = games[n - 1];
        let app = app_named(apps, normal_names(apps), normal_title(g.title@));
        if is_unmapped(g) && app is Some {
            head.push((g.id@, app->0))
        } else {
            head
        }
    }
}

/// The mappings of a list, by what they hold.
pub open spec fn mapping_views(s: Seq<Mapping>) -> Seq<(Seq<char>, u32)> {
    Seq::new(s.len(), |i: int| (s[i].game_id@, s[i].app_id))
}

/// Whether any game is looked for by its title. The list of apps is fetched only then.
pub fn any_unmapped(games: &Vec<Game>) -> (r: bool)
    ensures
        r == exists|i: int| 0 <= i < games@.len() && is_unmapped(#[trigger] games@[i]),
{
    for i in 0..games.len()
        invariant
            forall|j: int| 0 <= j < i ==> !is_unmapped(#[trigger] games@[j]),
    {
        if needs_appid(&games[i]) {
            assert(is_unmapped(games@[i as int]));
            return true;
        }
    }
    false
}

/// The apps that are found for games by their titles, game by game. A title that no app bears, or
/// more than one, finds none.
pub fn map_missing_appids(games: &Vec<Game>, apps: &Vec<ListedApp>) -> (r: Vec<Mapping>)
    ensures
        mapping_views(r@) == title_mappings(games@, apps@, games@.len()),
{
    let mut names: Vec<String> = Vec::new();
    for i in 0..apps.len()
        invariant
            names@.len() == i,
            forall|j: int| 0 <= j < i ==> (#[trigger] names@[j])@ == normal_title(apps@[j].name@),
    {
        names.push(normalize(apps[i].name.as_str()));
    }
    assert(views(names@) =~= normal_names(apps@));
    let mut out: Vec<Mapping> = Vec::new();
    assert(mapping_views(out@) =~= Seq::empty());
    for i in 0..games.len()
        invariant
            apps@.len() == names@.len(),
            views(names@) == normal_names(apps@),
            mapping_views(out@) == title_mappings(games@, apps@, i as nat),
    {
        let g = &games[i];
        if needs_appid(g) {
            let title = normalize(g.title.as_str());
            if let Some(app_id) = find_app(apps, &names, &title) {
                let m = Mapping { game_id: g.id.clone(), app_id };
                assert(mapping_views(out@.push(m)) =~= mapping_views(out@).push(
                    (m.game_id@, m.app_id),
                ));
                out.push(m);
            }
        }
    }
    out
}

/// The position of the first game with the id; the number of games if there is none.
pub open spec fn first_with_id(games: Seq<Game>, id: Seq<char>) -> int
    decreases games.len(),
{
    if games.len() == 0 || games[0].id@ == id {
        0
    } else {
        1 + first_with_id(games.skip(1), id)
    }
}

/// The games with an app noted for the first one that has the id.
pub open spec fn with_app(games: Seq<Game>, id: Seq<char>, app_id: u32) -> Seq<Game> {
    let k = first_with_id(games, id);
    if k < games.len() {
        games.update(
            k,
            Game {
                steam_app_id: Some(app_id),
                appid_source: Some(AppidSource::Title),
                ..games[k]
            },
        )
    } else {
        games
    }
}

/// Notes an app that was found by title on the games at hand.
pub fn apply_mapping(games: &mut Vec<Game>, id: &str, app_id: u32)
    ensures
        final(games)@ == with_app(old(games)@, id@, app_id),
{
    let ghost all = games@;
    let mut k: usize = 0;
    assert(all.skip(0) =~= all);
    while k < games.len() && !same(games[k].id.as_str(), id)
        invariant
            games@ == all,
            k <= all.len(),
            first_with_id(all, id@) == k + first_with_id(all.skip(k as int), id@),
        decreases all.len() - k,
    {
        assert(all.skip(k as int).skip(1) =~= all.skip(k + 1));
        k += 1;
    }
    if k < games.len() {
        assert(all.skip(k as int)[0] == all[k as int]);
        games[k].steam_app_id = Some(app_id);
        games[k].appid_source = Some(AppidSource::Title);
        assert(games@ =~= with_app(all, id@, app_id));
    } else {
        assert(all.skip(k as int).len() == 0);
    }
}

// ---- What titles find -------------------------------------------------------------------------

/// Whether a character is part of a title as it is compared.
pub open spec fn is_kept(c: char) -> bool {
    c != '™' && c != '®' && !is_space(c)
}

/// The characters of a text that a tidied one keeps.
pub open spec fn kept(s: Seq<char>) -> Seq<char>
    decreases s.len(),
{
    if s.len() == 0 {
        Seq::empty()
    } else if is_kept(s.last()) {
        kept(s.drop_last()).push(s.last())
    } else {
        kept(s.drop_last())
    }
}

/// A tidied text has all of a text's characters but trademark signs and white space, in their order;
/// between them it has no trademark sign and no white space but single spaces, with none at either end.
pub proof fn a_tidied_text_has_single_spaces(s: Seq<char>)
    ensures
        ({
            let t = tidied(s).text;
            &&& kept(t) == kept(s)
            &&& t.len() > 0 ==> is_kept(t[0]) && is_kept(t.last())
            &&& forall|i: int| 0 <= i < t.len() ==> is_kept(#[trigger] t[i]) || t[i] == ' '
            &&& forall|i: int|
                0 <= i < t.len() - 1 && #[trigger] t[i] == ' ' ==> is_kept(t[i + 1])
        }),
    decreases s.len(),
{
    if s.len() > 0 {
        a_tidied_text_has_single_spaces(s.drop_last());
        let t = tidied(s.drop_last()).text;
        let c = s.last();
        if is_kept(c) {
            if tidied(s.drop_last()).gap && t.len() > 0 {
                let u = t.push(' ');
                assert(is_space(' '));
                assert(u.drop_last() =~= t);
                assert(kept(u) == kept(t));
                assert(u.push(c).drop_last() =~= u);
            } else {
                assert(t.push(c).drop_last() =~= t);
            }
        }
    }
}

/// Words that are apart stay apart, and those that are joined stay joined: behind a text that is tidy,
/// a word follows at once, or after one space where there was any.
pub proof fn a_tidied_text_keeps_its_words(s: Seq<char>, c: char, space: char)
    requires
        is_kept(c),
        is_space(space),
        tidied(s).text.len() > 0,
    ensures
        tidied(s.push(space).push(c)).text == tidied(s).text.push(' ').push(c),
        !tidied(s).gap ==> tidied(s.push(c)).text == tidied(s).text.push(c),
        tidied(s.push('™')) == tidied(s),
        tidied(s.push('®')) == tidied(s),
        !tidied(s.push(c)).gap,
{
    assert(!is_space('™') && !is_space('®'));
    assert(s.push(c).drop_last() =~= s);
    assert(s.push('™').drop_last() =~= s);
    assert(s.push('®').drop_last() =~= s);
    assert(s.push(space).drop_last() =~= s);
    assert(s.push(space).push(c).drop_last() =~= s.push(space));
    assert(tidied(s.push(space)) == (Tidy { text: tidied(s).text, gap: true }));
}

/// A text that is tidy stays as it is.
pub proof fn a_tidy_text_stays(t: Seq<char>)
    requires
        t.len() > 0 ==> is_kept(t[0]) && is_kept(t.last()),
        forall|i: int| 0 <= i < t.len() ==> is_kept(#[trigger] t[i]) || t[i] == ' ',
        forall|i: int| 0 <= i < t.len() - 1 && #[trigger] t[i] == ' ' ==> is_kept(t[i + 1]),
    ensures
        tidied(t) == (Tidy { text: t, gap: false }),
    decreases t.len(),
{
    if t.len() == 0 {
        assert(t =~= Seq::empty());
    } else if t.len() == 1 {
        assert(t.drop_last() =~= Seq::empty());
        assert(tidied(t.drop_last()) == (Tidy { text: Seq::empty(), gap: false }));
        assert(Seq::empty().push(t.last()) =~= t);
    } else if t.len() > 1 {
        let u = t.drop_last();
        if u.last() == ' ' {
            let v = u.drop_last();
            assert(is_space(' '));
            assert(!is_kept(' '));
            assert(u.last() == t[t.len() - 2]);
            if v.len() > 0 {
                assert(v.last() == t[t.len() - 3]);
                assert(is_kept(v.last())) by {
                    if v.last() == ' ' {
                        assert(is_kept(t[t.len() - 3 + 1]));
                    }
                }
                assert forall|i: int| 0 <= i < v.len() - 1 && #[trigger] v[i] == ' ' implies is_kept(
                    v[i + 1],
                ) by {
                    assert(t[i] == ' ');
                }
                a_tidy_text_stays(v);
                assert(tidied(u) == (Tidy { text: v, gap: true }));
                assert(v.push(' ').push(t.last()) =~= t);
            } else {
                assert(t[0] == ' ');
            }
        } else {
            assert(u.last() == t[t.len() - 2]);
            assert forall|i: int| 0 <= i < u.len() - 1 && #[trigger] u[i] == ' ' implies is_kept(
                u[i + 1],
            ) by {
                assert(t[i] == ' ');
            }
            a_tidy_text_stays(u);
            assert(u.push(t.last()) =~= t);
        }
    }
}

/// A title finds an app exactly if that app alone bears it.
pub proof fn a_title_finds_the_only_app_of_its_name(
    apps: Seq<ListedApp>,
    names: Seq<Seq<char>>,
    title: Seq<char>,
    i: int,
    j: int,
)
    requires
        apps.len() == names.len(),
    ensures
        0 <= i < names.len() && names[i] == title && (forall|k: int|
            0 <= k < names.len() && k != i ==> #[trigger] names[k] != title) ==> app_named(
            apps,
            names,
            title,
        ) == Some(apps[i].app_id),
        0 <= i < j < names.len() && names[i] == title && names[j] == title ==> app_named(
            apps,
            names,
            title,
        ) is None,
        (forall|k: int| 0 <= k < names.len() ==> #[trigger] names[k] != title) ==> app_named(
            apps,
            names,
            title,
        ) is None,
{
    apps_named_is_exact(names, title, names.len());
    let at = apps_named(names, title, names.len());
    if 0 <= i < names.len() && names[i] == title {
        let k = choose|k: int| 0 <= k < at.len() && at[k] == i;
        if 0 <= i < j < names.len() && names[j] == title {
            let l = choose|l: int| 0 <= l < at.len() && at[l] == j;
            assert(k != l);
        }
        if at.len() > 1 {
            assert(at[0] < at[1]);
            assert(names[at[0]] == title && names[at[1]] == title);
        }
    }
    if at.len() == 1 {
        assert(names[at[0]] == title);
    }
}

proof fn apps_named_is_exact(names: Seq<Seq<char>>, title: Seq<char>, n: nat)
    requires
        n <= names.len(),
    ensures
        ({
            let at = apps_named(names, title, n);
            &&& forall|k: int| 0 <= k < at.len() ==> 0 <= #[trigger] at[k] < n && names[at[k]] == title
            &&& forall|j: int, k: int| 0 <= j < k < at.len() ==> #[trigger] at[j] < #[trigger] at[k]
            &&& forall|i: int| 0 <= i < n && #[trigger] names[i] == title ==> at.contains(i)
        }),
    decreases n,
{
    if n > 0 {
        let m = (n - 1) as nat;
        apps_named_is_exact(names, title, m);
        let head = apps_named(names, title, m);
        let at = apps_named(names, title, n);
        assert forall|i: int| 0 <= i < n && #[trigger] names[i] == title implies at.contains(i) by {
            if i < m {
                let k = choose|k: int| 0 <= k < head.len() && head[k] == i;
                assert(at[k] == i);
            } else {
                assert(at[at.len() - 1] == i);
            }
        }
    }
}

/// An app is noted for a game exactly if the game has a Steam key, has no app, has none set by hand,
/// and its title finds one.
pub proof fn every_game_without_an_app_is_looked_for(
    games: Seq<Game>,
    apps: Seq<ListedApp>,
    n: nat,
    i: int,
    app: u32,
)
    requires
        0 <= i < n <= games.len(),
        app_named(apps, normal_names(apps), normal_title(games[i].title@)) == Some(app),
        games[i].key_type@ == "steam"@,
        games[i].steam_app_id is None,
        games[i].appid_source != Some(AppidSource::Manual),
    ensures
        title_mappings(games, apps, n).contains((games[i].id@, app)),
    decreases n,
{
    let all = title_mappings(games, apps, n);
    let m = (n - 1) as nat;
    if i == m {
        assert(all[all.len() - 1] == (games[i].id@, app));
    } else {
        every_game_without_an_app_is_looked_for(games, apps, m, i, app);
        let head = title_mappings(games, apps, m);
        let k = choose|k: int| 0 <= k < head.len() && head[k] == (games[i].id@, app);
        assert(all[k] == head[k]);
    }
}

/// Nothing is noted for any other game.
pub proof fn no_other_game_is_looked_for(games: Seq<Game>, apps: Seq<ListedApp>, n: nat, k: int)
    requires
        n <= games.len(),
        0 <= k < title_mappings(games, apps, n).len(),
    ensures
        exists|i: int|
            0 <= i < n && title_mappings(games, apps, n)[k].0 == (#[trigger] games[i]).id@
                && games[i].key_type@ == "steam"@ && games[i].steam_app_id is None
                && games[i].appid_source != Some(AppidSource::Manual) && app_named(
                apps,
                normal_names(apps),
                normal_title(games[i].title@),
            ) == Some(title_mappings(games, apps, n)[k].1),
    decreases n,
{
    let m = (n - 1) as nat;
    let head = title_mappings(games, apps, m);
    if k < head.len() {
        no_other_game_is_looked_for(games, apps, m, k);
        assert(title_mappings(games, apps, n)[k] == head[k]);
    } else {
        assert(games[n - 1].id@ == title_mappings(games, apps, n)[k].0);
    }
}

/// An app is noted on the first game with the id, as found by title, and nothing else changes.
pub proof fn an_app_is_noted_on_its_game(games: Seq<Game>, id: Seq<char>, app_id: u32, i: int, j: int)
    requires
        0 <= i < games.len(),
        games[i].id@ == id,
        forall|k: int| 0 <= k < i ==> (#[trigger] games[k]).id@ != id,
        0 <= j < games.len(),
    ensures
        with_app(games, id, app_id).len() == games.len(),
        with_app(games, id, app_id)[i].steam_app_id == Some(app_id),
        with_app(games, id, app_id)[i].appid_source == Some(AppidSource::Title),
        with_app(games, id, app_id)[i].id == games[i].id,
        with_app(games, id, app_id)[i].owned_by_ben == games[i].owned_by_ben,
        j != i ==> with_app(games, id, app_id)[j] == games[j],
{
    first_with_id_is_first(games, id, i);
}

/// An app for a game that is not there changes nothing.
pub proof fn an_app_of_no_game_is_dropped(games: Seq<Game>, id: Seq<char>, app_id: u32)
    requires
        forall|k: int| 0 <= k < games.len() ==> (#[trigger] games[k]).id@ != id,
    ensures
        with_app(games, id, app_id) == games,
{
    no_game_has_the_id(games, id);
}

proof fn no_game_has_the_id(games: Seq<Game>, id: Seq<char>)
    requires
        forall|k: int| 0 <= k < games.len() ==> (#[trigger] games[k]).id@ != id,
    ensures
        first_with_id(games, id) == games.len(),
    decreases games.len(),
{
    if games.len() > 0 {
        let rest = games.skip(1);
        assert(games[0].id@ != id);
        assert forall|k: int| 0 <= k < rest.len() implies (#[trigger] rest[k]).id@ != id by {
            assert(rest[k] == games[k + 1]);
        }
        no_game_has_the_id(rest, id);
    }
}

proof fn first_with_id_is_first(games: Seq<Game>, id: Seq<char>, i: int)
    requires
        0 <= i < games.len(),
        games[i].id@ == id,
        forall|k: int| 0 <= k < i ==> (#[trigger] games[k]).id@ != id,
    ensures
        first_with_id(games, id) == i,
    decreases games.len(),
{
    if i > 0 {
        let rest = games.skip(1);
        assert(games[0].id@ != id);
        assert(rest[i - 1] == games[i]);
        assert forall|k: int| 0 <= k < i - 1 implies (#[trigger] rest[k]).id@ != id by {
            assert(rest[k] == games[k + 1]);
        }
        first_with_id_is_first(rest, id, i - 1);
    }
}

} // verus!
