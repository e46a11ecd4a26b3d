//! What is known of a game's Steam app: its page and its reviews, each as old as its last fetch, and
//! how freshly fetched halves are merged into what is kept.
use vstd::prelude::*;
use vstd::std_specs::hash::*;
use std::collections::HashMap;
use crate::shelf::copy_text;
use crate::text::{opt_view, views};

verus! {

broadcast use vstd::std_specs::hash::group_hash_axioms;

// ---- An app -----------------------------------------------------------------------------------

/// A picture of an app, small and full.
#[derive(Debug, PartialEq, Eq)]
pub struct Screenshot {
    pub thumbnail: String,
    pub full: String,
}

/// An app's page.
#[derive(Debug, PartialEq, Eq)]
pub struct SteamAppDetail {
    pub app_id: u32,
    pub name: String,
    pub developers: Vec<String>,
    pub publishers: Vec<String>,
    pub genres: Vec<String>,
    pub release_date: Option<String>,
    pub short_description: String,
    pub header_image: Option<String>,
    pub video_hls_url: Option<String>,
    pub video_thumbnail: Option<String>,
    pub screenshots: Vec<Screenshot>,
    pub tags: Vec<String>,
    pub content_descriptor_ids: Vec<u32>,
    pub content_notes: Option<String>,
}

/// All reviews of an app.
#[derive(Debug, PartialEq, Eq)]
pub struct ReviewSummary {
    pub desc: String,
    pub total_positive: u64,
    pub total_negative: u64,
    pub total_reviews: u64,
}

/// The latest reviews of an app.
#[derive(Debug, Clone, Copy, PartialEq, Eq, Structural)]
pub struct RecentReviews {
    pub percent_positive: u32,
    pub count: u64,
}

/// What is kept of an app. Without a page it is a stub: Steam no longer has the app.
#[derive(Debug, PartialEq, Eq)]
pub struct SteamAppCache {
    pub app_id: u32,
    pub detail: Option<SteamAppDetail>,
    pub overall: Option<ReviewSummary>,
    pub recent: Option<RecentReviews>,
    /// When the page was fetched, in seconds since the Unix epoch.
    pub fetched_at: i64,
    /// When the reviews were fetched.
    pub reviews_fetched_at: i64,
}

/// An app's page by what it holds.
pub struct DetailView {
    pub app_id: u32,
    pub name: Seq<char>,
    pub developers: Seq<Seq<char>>,
    pub publishers: Seq<Seq<char>>,
    pub genres: Seq<Seq<char>>,
    pub release_date: Option<Seq<char>>,
    pub short_description: Seq<char>,
    pub header_image: Option<Seq<char>>,
    pub video_hls_url: Option<Seq<char>>,
    pub video_thumbnail: Option<Seq<char>>,
    pub screenshots: Seq<(Seq<char>, Seq<char>)>,
    pub tags: Seq<Seq<char>>,
    pub content_descriptor_ids: Seq<u32>,
    pub content_notes: Option<Seq<char>>,
}

/// The pictures of a list, by their addresses.
pub open spec fn shot_views(s: Seq<Screenshot>) -> Seq<(Seq<char>, Seq<char>)> {
    Seq::new(s.len(), |i: int| (s[i].thumbnail@, s[i].full@))
}

impl View for SteamAppDetail {
    type V = DetailView;

    open spec fn view(&self) -> DetailView {
        DetailView {
            app_id: self.app_id,
            name: self.name@,
            developers: views(self.developers@),
            publishers: views(self.publishers@),
            genres: views(self.genres@),
            release_date: opt_view(self.release_date),
            short_description: self.short_description@,
            header_image: opt_view(self.header_image),
            video_hls_url: opt_view(self.video_hls_url),
            video_thumbnail: opt_view(self.video_thumbnail),
            screenshots: shot_views(self.screenshots@),
            tags: views(self.tags@),
            content_descriptor_ids: self.content_descriptor_ids@,
            content_notes: opt_view(self.content_notes),
        }
    }
}

/// What is kept of an app, by what it holds.
pub struct CacheView {
    pub app_id: u32,
    pub detail: Option<DetailView>,
    pub overall: Option<ReviewSummary>,
    pub recent: Option<RecentReviews>,
    pub fetched_at: i64,
    pub reviews_fetched_at: i64,
}

impl View for SteamAppCache {
    type V = CacheView;

    open spec fn view(&self) -> CacheView {
        CacheView {
            app_id: self.app_id,
            detail: match self.detail {
                Some(d) => Some(d@),
                None => None,
            },
            overall: self.overall,
            recent: self.recent,
            fetched_at: self.fetched_at,
            reviews_fetched_at: self.reviews_fetched_at,
        }
    }
}

impl SteamAppCache {
    /// Nothing is known of the app yet.
    pub fn empty(app_id: u32) -> (r: SteamAppCache)
        ensures
            r@ == (CacheView {
                app_id,
                detail: None,
                overall: None,
                recent: None,
                fetched_at: 0,
                reviews_fetched_at: 0,
            }),
    {
        SteamAppCache {
            app_id,
            detail: None,
            overall: None,
            recent: None,
            fetched_at: 0,
            reviews_fetched_at: 0,
        }
    }
}

fn copy_texts(v: &Vec<String>) -> (r: Vec<String>)
    ensures
        views(r@) == views(v@),
{
    let mut out: Vec<String> = Vec::new();
    for i in 0..v.len()
        invariant
            out@.len() == i,
            forall|j: int| 0 <= j < i ==> out@[j] == v@[j],
    {
        out.push(v[i].clone());
    }
    assert(views(out@) =~= views(v@));
    out
}

fn copy_shots(v: &Vec<Screenshot>) -> (r: Vec<Screenshot>)
    ensures
        shot_views(r@) == shot_views(v@),
{
    let mut out: Vec<Screenshot> = Vec::new();
    for i in 0..v.len()
        invariant
            out@.len() == i,
            forall|j: int| 0 <= j < i ==> out@[j] == v@[j],
    {
        out.push(Screenshot { thumbnail: v[i].thumbnail.clone(), full: v[i].full.clone() });
    }
    assert(shot_views(out@) =~= shot_views(v@));
    out
}

pub fn copy_ids(v: &Vec<u32>) -> (r: Vec<u32>)
    ensures
        r@ == v@,
{
    let mut out: Vec<u32> = Vec::new();
    for i in 0..v.len()
        invariant
            out@ == v@.take(i as int),
    {
        out.push(v[i]);
        assert(v@.take(i + 1) =~= v@.take(i as int).push(v@[i as int]));
    }
    assert(v@.take(v@.len() as int) =~= v@);
    out
}

impl SteamAppDetail {
    /// A copy of the page.
    pub fn copy(&self) -> (r: SteamAppDetail)
        ensures
            r@ == self@,
    {
        SteamAppDetail {
            app_id: self.app_id,
            name: self.name.clone(),
            developers: copy_texts(&self.developers),
            publishers: copy_texts(&self.publishers),
            genres: copy_texts(&self.genres),
            release_date: copy_text(&self.release_date),
            short_description: self.short_description.clone(),
            header_image: copy_text(&self.header_image),
            video_hls_url: copy_text(&self.video_hls_url),
            video_thumbnail: copy_text(&self.video_thumbnail),
            screenshots: copy_shots(&self.screenshots),
            tags: copy_texts(&self.tags),
            content_descriptor_ids: copy_ids(&self.content_descriptor_ids),
            content_notes: copy_text(&self.content_notes),
        }
    }
}

impl ReviewSummary {
    /// A copy of the summary.
    pub fn copy(&self) -> (r: ReviewSummary)
        ensures
            r == *self,
    {
        ReviewSummary {
            desc: self.desc.clone(),
            total_positive: self.total_positive,
            total_negative: self.total_negative,
            total_reviews: self.total_reviews,
        }
    }
}

// ---- Merging what was fetched -----------------------------------------------------------------

/// What a fetch of an app's page has brought.
pub enum DetailFetch {
    Live(Box<SteamAppDetail>),
    /// Steam no longer has the app.
    Delisted,
}

/// What one pass has fetched of an app, and when.
pub struct FetchedHalves {
    pub now: i64,
    pub detail: Option<DetailFetch>,
    pub reviews: Option<(ReviewSummary, RecentReviews)>,
}

/// The page as it is merged in: each half applies unless what is kept is newer. An app that is gone
/// has no reviews to fetch either, so both clocks are set, never backwards.
pub open spec fn merged_detail(c: CacheView, ours: FetchedHalves) -> CacheView {
    if ours.detail is None || ours.now < c.fetched_at {
        c
    } else {
        match ours.detail->0 {
            DetailFetch::Live(d) => CacheView { detail: Some(d@), fetched_at: ours.now, ..c },
            DetailFetch::Delisted => CacheView {
                detail: None,
                fetched_at: ours.now,
                reviews_fetched_at: if c.reviews_fetched_at > ours.now {
                    c.reviews_fetched_at
                } else {
                    ours.now
                },
                ..c
            },
        }
    }
}

/// The reviews as they are merged in.
pub open spec fn merged_reviews(c: CacheView, ours: FetchedHalves) -> CacheView {
    if ours.reviews is None || ours.now < c.reviews_fetched_at {
        c
    } else {
        CacheView {
            overall: Some((ours.reviews->0).0),
            recent: Some((ours.reviews->0).1),
            reviews_fetched_at: ours.now,
            ..c
        }
    }
}

/// What is kept, with what was fetched merged in.
pub open spec fn merged(c: CacheView, ours: FetchedHalves) -> CacheView {
    merged_reviews(merged_detail(c, ours), ours)
}

/// Merges what was fetched into what is kept.
pub fn merge_fetched_halves(cache: &mut SteamAppCache, ours: &FetchedHalves)
    ensures
        final(cache)@ == merged(old(cache)@, *ours),
{
    match &ours.detail {
        Some(DetailFetch::Live(d)) => {
            if ours.now >= cache.fetched_at {
                cache.detail = Some(d.copy());
                cache.fetched_at = ours.now;
            }
        },
        Some(DetailFetch::Delisted) => {
            if ours.now >= cache.fetched_at {
                cache.detail = None;
                cache.fetched_at = ours.now;
                if cache.reviews_fetched_at < ours.now {
                    cache.reviews_fetched_at = ours.now;
                }
            }
        },
        None => {},
    }
    if let Some((overall, recent)) = &ours.reviews {
        if ours.now >= cache.reviews_fetched_at {
            cache.overall = Some(overall.copy());
            cache.recent = Some(*recent);
            cache.reviews_fetched_at = ours.now;
        }
    }
}

/// Merging sets no clock back, and keeps a half that is newer.
pub proof fn merging_never_goes_backwards(c: CacheView, ours: FetchedHalves)
    ensures
        merged(c, ours).app_id == c.app_id,
        merged(c, ours).fetched_at >= c.fetched_at,
        merged(c, ours).reviews_fetched_at >= c.reviews_fetched_at,
        c.fetched_at > ours.now ==> merged(c, ours).detail == c.detail && merged(
            c,
            ours,
        ).fetched_at == c.fetched_at,
        c.reviews_fetched_at > ours.now ==> merged(c, ours).overall == c.overall && merged(
            c,
            ours,
        ).recent == c.recent && merged(c, ours).reviews_fetched_at == c.reviews_fetched_at,
{
}

/// Merging the same halves again changes nothing.
pub proof fn merging_twice_is_merging_once(c: CacheView, ours: FetchedHalves)
    ensures
        merged(merged(c, ours), ours) == merged(c, ours),
{
}

/// A pass that fetched only one half leaves the other as it was, save that a page which is gone
/// stops the reviews' clock.
pub proof fn the_halves_are_independent(c: CacheView, ours: FetchedHalves)
    ensures
        ours.detail is None ==> merged(c, ours).detail == c.detail && merged(c, ours).fetched_at
            == c.fetched_at,
        ours.reviews is None ==> merged(c, ours).overall == c.overall && merged(c, ours).recent
            == c.recent,
        ours.reviews is None && !(ours.detail matches Some(DetailFetch::Delisted)) ==> merged(
            c,
            ours,
        ).reviews_fetched_at == c.reviews_fetched_at,
{
}

/// A page that was fetched replaces what is kept unless that is newer, and is kept as old as the fetch;
/// so do the reviews. A page that is gone leaves none, and the reviews count as read then too.
pub proof fn what_was_fetched_is_kept(c: CacheView, ours: FetchedHalves)
    ensures
        ours.now >= c.fetched_at && (ours.detail matches Some(DetailFetch::Live(d))) ==> merged(
            c,
            ours,
        ).detail == Some((ours.detail->0)->Live_0@) && merged(c, ours).fetched_at == ours.now,
        ours.now >= c.fetched_at && (ours.detail matches Some(DetailFetch::Delisted)) ==> merged(
            c,
            ours,
        ).detail is None && merged(c, ours).fetched_at == ours.now && merged(
            c,
            ours,
        ).reviews_fetched_at >= ours.now,
        ours.now >= c.reviews_fetched_at && ours.reviews is Some ==> merged(c, ours).overall == Some(
            (ours.reviews->0).0,
        ) && merged(c, ours).recent == Some((ours.reviews->0).1) && merged(
            c,
            ours,
        ).reviews_fetched_at == ours.now,
{
}

/// Whether the reviews of an app are left as they are: it is kept as a stub, and this pass has not
/// found its page again.
pub open spec fn reviews_rest(snapshot: Option<SteamAppCache>, fetched: Option<DetailFetch>) -> bool {
    (snapshot matches Some(c) && c.detail is None) && !(fetched matches Some(DetailFetch::Live(_)))
}

/// The reviews of an app that was never seen are fetched, and so are those of one whose page is kept
/// or was just found; those of a stub are not.
pub proof fn the_reviews_of_a_stub_rest(c: SteamAppCache, fetched: Option<DetailFetch>)
    ensures
        !reviews_rest(None, fetched),
        c.detail is Some ==> !reviews_rest(Some(c), fetched),
        fetched matches Some(DetailFetch::Live(_)) ==> !reviews_rest(Some(c), fetched),
        c.detail is None && (fetched is None || fetched matches Some(DetailFetch::Delisted))
            ==> reviews_rest(Some(c), fetched),
{
}

/// Whether the reviews of an app are left as they are.
pub fn stub_freezes_reviews(snapshot: Option<&SteamAppCache>, fetched: &Option<DetailFetch>) -> (r:
    bool)
    ensures
        r == reviews_rest(
            match snapshot {
                Some(c) => Some(*c),
                None => None,
            },
            *fetched,
        ),
{
    match snapshot {
        Some(c) => c.detail.is_none() && !matches!(fetched, Some(DetailFetch::Live(_))),
        None => false,
    }
}

// ---- Tags -------------------------------------------------------------------------------------

/// How many tags are kept of an app.
pub const STEAM_TAG_STORE_CAP: usize = 10;

/// The tags of the apps, and the names of the tags.
pub struct TagBatch {
    pub items: HashMap<u32, Vec<u32>>,
    pub names: HashMap<u32, String>,
}

/// The names of the first `n` tags, where they have one.
pub open spec fn known_names(ids: Seq<u32>, names: Map<u32, String>, n: nat) -> Seq<Seq<char>>
    decreases n,
{
    if n == 0 {
        Seq::empty()
    } else {
        let head = known_names(ids, names, (n - 1) as nat);
        if names.contains_key(ids[n - 1]) {
            head.push(names[ids[n - 1]]@)
        } else {
            head
        }
    }
}

/// The first so many of a list.
pub open spec fn at_most<T>(s: Seq<T>, cap: nat) -> Seq<T> {
    if s.len() <= cap {
        s
    } else {
        s.take(cap as int)
    }
}

/// The tags that an app is kept with. A failed batch keeps those of before; an app that a batch does
/// not have has none.
pub open spec fn app_tags(app_id: u32, batch: Option<TagBatch>, before: Option<SteamAppDetail>) -> Seq<
    Seq<char>,
> {
    match batch {
        Some(b) => if b.items@.contains_key(app_id) {
            let ids = b.items@[app_id]@;
            at_most(known_names(ids, b.names@, ids.len()), STEAM_TAG_STORE_CAP as nat)
        } else {
            Seq::empty()
        },
        None => match before {
            Some(d) => views(d.tags@),
            None => Seq::empty(),
        },
    }
}

proof fn known_names_grow(ids: Seq<u32>, names: Map<u32, String>, m: nat, n: nat)
    requires
        m <= n,
    ensures
        known_names(ids, names, m).len() <= known_names(ids, names, n).len(),
        known_names(ids, names, n).take(known_names(ids, names, m).len() as int) == known_names(
            ids,
            names,
            m,
        ),
    decreases n - m,
{
    let a = known_names(ids, names, m);
    if m < n {
        known_names_grow(ids, names, m, (n - 1) as nat);
        let b = known_names(ids, names, (n - 1) as nat);
        assert(known_names(ids, names, n).take(a.len() as int) =~= b.take(a.len() as int));
    } else {
        assert(a.take(a.len() as int) =~= a);
    }
}

/// The tags that an app is kept with.
pub fn tags_for_app(app_id: u32, batch: &Option<TagBatch>, before: Option<&SteamAppDetail>) -> (r: Vec<
    String,
>)
    ensures
        views(r@) == app_tags(
            app_id,
            *batch,
            match before {
                Some(d) => Some(*d),
                None => None,
            },
        ),
{
    match batch {
        Some(b) => {
            let mut out: Vec<String> = Vec::new();
            assert(views(out@) =~= Seq::empty());
            match b.items.get(&app_id) {
                Some(ids) => {
                    for i in 0..ids.len()
                        invariant
                            *batch == Some(*b),
                            b.items@.contains_key(app_id),
                            b.items@[app_id] == *ids,
                            out@.len() <= STEAM_TAG_STORE_CAP,
                            views(out@) == known_names(ids@, b.names@, i as nat),
                    {
                        if out.len() == STEAM_TAG_STORE_CAP {
                            proof {
                                known_names_grow(ids@, b.names@, i as nat, ids@.len());
                                let all = known_names(ids@, b.names@, ids@.len());
                                assert(views(out@) =~= at_most(
                                    all,
                                    STEAM_TAG_STORE_CAP as nat,
                                ));
                            }
                            return out;
                        }
                        if let Some(name) = b.names.get(&ids[i]) {
                            let one = name.clone();
                            assert(views(out@.push(one)) =~= views(out@).push(one@));
                            out.push(one);
                        }
                    }
                    out
                },
                None => out,
            }
        },
        None => match before {
            Some(d) => copy_texts(&d.tags),
            None => {
                let out: Vec<String> = Vec::new();
                assert(views(out@) =~= Seq::empty());
                out
            },
        },
    }
}

/// An app is kept with at most ten tags. An app of the batch has the names of its tags, in their order
/// and up to that many, without those that have no name; one that the batch does not have has none; and
/// where there is no batch, the tags stay what they were.
pub proof fn an_app_has_the_names_of_its_tags(
    app_id: u32,
    b: TagBatch,
    before: Option<SteamAppDetail>,
    d: SteamAppDetail,
    i: int,
)
    ensures
        app_tags(app_id, Some(b), before).len() <= 10,
        !b.items@.contains_key(app_id) ==> app_tags(app_id, Some(b), before).len() == 0,
        app_tags(app_id, None, Some(d)) == views(d.tags@),
        app_tags(app_id, None, None).len() == 0,
        b.items@.contains_key(app_id) && 0 <= i < b.items@[app_id]@.len() && i < 10 && (forall|k: int|
            0 <= k <= i ==> b.names@.contains_key(#[trigger] b.items@[app_id]@[k])) ==> {
            &&& i < app_tags(app_id, Some(b), before).len()
            &&& app_tags(app_id, Some(b), before)[i] == b.names@[b.items@[app_id]@[i]]@
        },
        b.items@.contains_key(app_id) && b.items@[app_id]@.len() <= 10 && 0 <= i
            < b.items@[app_id]@.len() && b.names@.contains_key(b.items@[app_id]@[i]) ==> app_tags(
            app_id,
            Some(b),
            before,
        ).contains(b.names@[b.items@[app_id]@[i]]@),
{
    if b.items@.contains_key(app_id) {
        let ids = b.items@[app_id]@;
        known_names_are_few(ids, b.names@, ids.len());
        if 0 <= i < ids.len() {
            let head = known_names(ids, b.names@, (i + 1) as nat);
            let all = known_names(ids, b.names@, ids.len());
            known_names_grow(ids, b.names@, (i + 1) as nat, ids.len());
            known_names_are_few(ids, b.names@, (i + 1) as nat);
            if b.names@.contains_key(ids[i]) {
                assert(head[head.len() - 1] == b.names@[ids[i]]@);
                assert(all.take(head.len() as int)[head.len() - 1] == head[head.len() - 1]);
                assert(all[head.len() - 1] == b.names@[ids[i]]@);
            }
            if forall|k: int| 0 <= k <= i ==> b.names@.contains_key(#[trigger] ids[k]) {
                all_named(ids, b.names@, (i + 1) as nat);
            }
        }
    }
}

proof fn known_names_are_few(ids: Seq<u32>, names: Map<u32, String>, n: nat)
    ensures
        known_names(ids, names, n).len() <= n,
    decreases n,
{
    if n > 0 {
        known_names_are_few(ids, names, (n - 1) as nat);
    }
}

proof fn all_named(ids: Seq<u32>, names: Map<u32, String>, n: nat)
    requires
        forall|k: int| 0 <= k < n ==> names.contains_key(#[trigger] ids[k]),
    ensures
        known_names(ids, names, n).len() == n,
    decreases n,
{
    if n > 0 {
        all_named(ids, names, (n - 1) as nat);
        assert(names.contains_key(ids[n - 1]));
    }
}

/// Whether two answers make a batch of tags: both must have come, and one without a single app counts
/// as a failure.
pub open spec fn is_batch(
    items: Result<HashMap<u32, Vec<u32>>, ()>,
    names: Result<HashMap<u32, String>, ()>,
) -> bool {
    items is Ok && names is Ok && (items->Ok_0)@.len() > 0
}

/// Neither answer makes a batch without the other, nor does one that has no app; two that came do.
pub proof fn a_batch_takes_both_answers(
    items: Result<HashMap<u32, Vec<u32>>, ()>,
    names: Result<HashMap<u32, String>, ()>,
)
    ensures
        items is Err ==> !is_batch(items, names),
        names is Err ==> !is_batch(items, names),
        items matches Ok(i) ==> i@.len() == 0 ==> !is_batch(items, names),
        (items matches Ok(i) && i@.len() != 0) && names is Ok ==> is_batch(items, names),
{
}

/// A batch of tags, if it can be used.
pub fn fetch_tag_batch(
    items: Result<HashMap<u32, Vec<u32>>, ()>,
    names: Result<HashMap<u32, String>, ()>,
) -> (r: Option<TagBatch>)
    ensures
        match r {
            Some(b) => is_batch(items, names) && Ok::<_, ()>(b.items) == items && Ok::<_, ()>(b.names)
                == names,
            None => !is_batch(items, names),
        },
{
    match (items, names) {
        (Ok(items), Ok(names)) => if items.len() == 0 {
            None
        } else {
            Some(TagBatch { items, names })
        },
        _ => None,
    }
}

// ---- Adult games ------------------------------------------------------------------------------

/// Whether a descriptor marks a game as adult.
pub open spec fn is_adult_id(id: u32) -> bool {
    id == 3 || id == 4
}

/// Whether an app's page marks it as adult.
pub open spec fn is_adult(detail: Option<DetailView>) -> bool {
    detail matches Some(d) && exists|i: int|
        0 <= i < d.content_descriptor_ids.len() && is_adult_id(
            #[trigger] d.content_descriptor_ids[i],
        )
}

/// A page marks its app as adult exactly if it has one of the two descriptors of adult sexual content.
pub proof fn two_descriptors_mark_an_adult_game(d: DetailView, i: int)
    ensures
        !is_adult(None),
        0 <= i < d.content_descriptor_ids.len() && (d.content_descriptor_ids[i] == 3
            || d.content_descriptor_ids[i] == 4) ==> is_adult(Some(d)),
        (forall|k: int|
            0 <= k < d.content_descriptor_ids.len() ==> #[trigger] d.content_descriptor_ids[k] != 3
                && d.content_descriptor_ids[k] != 4) ==> !is_adult(Some(d)),
{
    if 0 <= i < d.content_descriptor_ids.len() && (d.content_descriptor_ids[i] == 3
        || d.content_descriptor_ids[i] == 4) {
        assert(is_adult_id(d.content_descriptor_ids[i]));
    }
}

/// Whether an app's page marks it as adult.
pub fn has_adult_descriptors(detail: &Option<SteamAppDetail>) -> (r: bool)
    ensures
        r == is_adult(
            match *detail {
                Some(d) => Some(d@),
                None => None,
            },
        ),
{
    match detail {
        Some(d) => {
            for i in 0..d.content_descriptor_ids.len()
                invariant
                    *detail == Some(*d),
                    forall|j: int|
                        0 <= j < i ==> !is_adult_id(#[trigger] d.content_descriptor_ids@[j]),
            {
                let id: u32 = d.content_descriptor_ids[i];
                if id == 3 || id == 4 {
                    assert(is_adult_id(d@.content_descriptor_ids[i as int]));
                    return true;
                }
            }
            false
        },
        None => false,
    }
}

} // verus!
