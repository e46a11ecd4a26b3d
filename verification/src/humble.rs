//! The store that the keys come from: its orders, its errors, and what each outcome of a call means
//! for a claim.
use vstd::prelude::*;
use crate::select::{selected, selected_is_exact};
use crate::text::{chars_of, holds, views};

verus! {

/// A key of an order.
#[derive(Debug, PartialEq, Eq)]
pub struct KeyEntry {
    pub machine_name: String,
    pub human_name: String,
    pub key_type: String,
    pub redeemed: bool,
    pub expired: bool,
    pub giftable: bool,
    pub keyindex: u32,
    pub redeemed_key_val: Option<String>,
    pub steam_app_id: Option<u32>,
    pub is_gift: Option<bool>,
}

/// An order: the keys that one purchase has yielded so far.
#[derive(Debug, PartialEq, Eq)]
pub struct Order {
    pub gamekey: String,
    pub bundle_name: String,
    pub product_machine_name: String,
    pub keys: Vec<KeyEntry>,
}

/// A gift link, as the store hands it out.
#[derive(Debug, PartialEq, Eq)]
pub struct GiftUrl(pub String);

/// A key in the clear.
#[derive(Debug, PartialEq, Eq)]
pub struct RevealedKey(pub String);

/// How a call to the store can fail.
#[derive(Debug, PartialEq, Eq)]
pub enum HumbleError {
    /// The key has been redeemed before: the one definite sign that it is gone.
    AlreadyRedeemed,
    /// The session cookie is dead.
    Unauthorized,
    /// A write was refused at the authentication layer, while reads may still work.
    RedeemAuthRejected { status: u16, csrf_minted: bool },
    /// The extra login for the secure area did not complete.
    SecureAreaStepUpFailed { reason: String },
    LoginFailed { reason: String },
    /// The monthly pick was refused.
    ChooseFailed { reason: String },
    RedeemRefused { msg: String, code: Option<String> },
    /// The key has expired for good.
    KeyExpired { msg: String, code: Option<String> },
    AmbiguousRedeem,
    RateLimited,
    Api(u16),
    Network,
    Parse,
    /// The order came without its keys.
    TpkdDictAbsent,
}

/// What the outcome of a call means for the claim.
#[derive(Debug, Clone, Copy, PartialEq, Eq, Structural)]
pub enum Decision {
    /// It worked: record it durably, then flip the game.
    Record,
    /// Definitely burned already: return the slot, list the game again.
    Compensate,
    /// Dead session cookie: park, flag the cookie, tell the operator.
    ParkCookieDead,
    /// Ambiguous or refused: park the claim for a later look at the order.
    Park,
    /// The key is dead for good: fail the claim, return the slot, retire the game.
    DeadKey,
}

/// What a failed redemption means. Only a key that is known to be gone gives the slot back.
pub open spec fn error_decision(err: HumbleError) -> Decision {
    match err {
        HumbleError::AlreadyRedeemed => Decision::Compensate,
        HumbleError::Unauthorized => Decision::ParkCookieDead,
        HumbleError::KeyExpired { .. } => Decision::DeadKey,
        _ => Decision::Park,
    }
}

/// What the outcome of a redemption means.
pub open spec fn outcome_decision<T>(outcome: Result<T, HumbleError>) -> Decision {
    match outcome {
        Ok(_) => Decision::Record,
        Err(err) => error_decision(err),
    }
}

/// What the outcome of a monthly pick means.
pub open spec fn pick_decision(outcome: Result<(), HumbleError>) -> Decision {
    match outcome {
        Ok(_) => Decision::Record,
        Err(HumbleError::Unauthorized) => Decision::ParkCookieDead,
        Err(_) => Decision::Park,
    }
}

/// What a failed gift or reveal means. Every error is named, so that a new one must be judged.
pub fn gift_error_decision(err: &HumbleError) -> (r: Decision)
    ensures
        r == error_decision(*err),
{
    match err {
        HumbleError::AlreadyRedeemed => Decision::Compensate,
        HumbleError::Unauthorized => Decision::ParkCookieDead,
        HumbleError::RedeemAuthRejected { .. } => Decision::Park,
        HumbleError::SecureAreaStepUpFailed { .. } => Decision::Park,
        HumbleError::LoginFailed { .. } => Decision::Park,
        HumbleError::ChooseFailed { .. } => Decision::Park,
        HumbleError::RedeemRefused { .. } => Decision::Park,
        HumbleError::KeyExpired { .. } => Decision::DeadKey,
        HumbleError::AmbiguousRedeem => Decision::Park,
        HumbleError::RateLimited => Decision::Park,
        HumbleError::Api(_) => Decision::Park,
        HumbleError::Network => Decision::Park,
        HumbleError::Parse => Decision::Park,
        HumbleError::TpkdDictAbsent => Decision::Park,
    }
}

/// What the outcome of a gift redemption means.
pub fn gift_decision(outcome: &Result<GiftUrl, HumbleError>) -> (r: Decision)
    ensures
        r == outcome_decision(*outcome),
{
    match outcome {
        Ok(_) => Decision::Record,
        Err(err) => gift_error_decision(err),
    }
}

/// What the outcome of a reveal means: the same as for a gift.
pub fn reveal_decision(outcome: &Result<RevealedKey, HumbleError>) -> (r: Decision)
    ensures
        r == outcome_decision(*outcome),
{
    match outcome {
        Ok(_) => Decision::Record,
        Err(err) => gift_error_decision(err),
    }
}

/// What the outcome of a monthly pick means. It never gives the slot back: an outcome cannot prove
/// that no pick was spent.
pub fn choose_decision(outcome: &Result<(), HumbleError>) -> (r: Decision)
    ensures
        r == pick_decision(*outcome),
{
    match outcome {
        Ok(_) => Decision::Record,
        Err(err) => match err {
            HumbleError::Unauthorized => Decision::ParkCookieDead,
            HumbleError::SecureAreaStepUpFailed { .. } => Decision::Park,
            HumbleError::ChooseFailed { .. } => Decision::Park,
            HumbleError::RateLimited => Decision::Park,
            HumbleError::Api(_) => Decision::Park,
            HumbleError::Network => Decision::Park,
            HumbleError::Parse => Decision::Park,
            HumbleError::LoginFailed { .. } => Decision::Park,
            HumbleError::AlreadyRedeemed => Decision::Park,
            HumbleError::RedeemAuthRejected { .. } => Decision::Park,
            HumbleError::RedeemRefused { .. } => Decision::Park,
            HumbleError::KeyExpired { .. } => Decision::Park,
            HumbleError::AmbiguousRedeem => Decision::Park,
            HumbleError::TpkdDictAbsent => Decision::Park,
        },
    }
}

/// No outcome of a monthly pick gives the slot back or retires the key.
pub proof fn a_pick_never_compensates(outcome: Result<(), HumbleError>)
    ensures
        pick_decision(outcome) != Decision::Compensate,
        pick_decision(outcome) != Decision::DeadKey,
{
}

/// The slot goes back only where the key is known to be gone, the key is retired only where it has
/// expired, the cookie is blamed only for a dead session, and success alone is recorded. An error
/// means the same for a gift as for a reveal.
pub proof fn each_decision_has_one_cause(
    gift: Result<GiftUrl, HumbleError>,
    reveal: Result<RevealedKey, HumbleError>,
)
    ensures
        outcome_decision(gift) == Decision::Record <==> gift is Ok,
        outcome_decision(gift) == Decision::Compensate <==> gift
            == Err::<GiftUrl, HumbleError>(HumbleError::AlreadyRedeemed),
        outcome_decision(gift) == Decision::ParkCookieDead <==> gift
            == Err::<GiftUrl, HumbleError>(HumbleError::Unauthorized),
        outcome_decision(gift) == Decision::DeadKey <==> (gift matches Err(
            HumbleError::KeyExpired { .. },
        )),
        (gift is Err && reveal is Err && gift->Err_0 == reveal->Err_0) ==> outcome_decision(gift)
            == outcome_decision(reveal),
{
}

/// A pick counts as spent only where the store said so, and the cookie is blamed only for a dead
/// session; anything else waits for a later look.
pub proof fn only_a_pick_that_was_made_is_recorded(outcome: Result<(), HumbleError>)
    ensures
        pick_decision(outcome) == Decision::Record <==> outcome is Ok,
        pick_decision(outcome) == Decision::ParkCookieDead <==> (outcome matches Err(e) && e
            is Unauthorized),
        pick_decision(outcome) == Decision::Park <==> (outcome matches Err(e) && !(e is Unauthorized)),
{
}

// ---- Which key a pick has yielded -------------------------------------------------------------

/// A letter in lower case, if it is one of the 26.
pub open spec fn ascii_lower(c: char) -> char {
    if 'A' <= c && c <= 'Z' {
        ((c as u8) + 32) as u8 as char
    } else {
        c
    }
}

/// Whether two texts differ in the case of ASCII letters at most.
pub open spec fn same_ignoring_case(a: Seq<char>, b: Seq<char>) -> bool {
    &&& a.len() == b.len()
    &&& forall|i: int| 0 <= i < a.len() ==> ascii_lower(a[i]) == ascii_lower(b[i])
}

fn ascii_lower_of(c: char) -> (r: char)
    ensures
        r == ascii_lower(c),
{
    if 'A' <= c && c <= 'Z' {
        ((c as u8) + 32) as char
    } else {
        c
    }
}

/// Whether two texts differ in the case of ASCII letters at most.
pub fn is_same_ignoring_case(a: &str, b: &str) -> (r: bool)
    ensures
        r == same_ignoring_case(a@, b@),
{
    let x = chars_of(a);
    let y = chars_of(b);
    if x.len() != y.len() {
        return false;
    }
    for i in 0..x.len()
        invariant
            x@ == a@,
            y@ == b@,
            x@.len() == y@.len(),
            forall|j: int| 0 <= j < i ==> ascii_lower(a@[j]) == ascii_lower(b@[j]),
    {
        if ascii_lower_of(x[i]) != ascii_lower_of(y[i]) {
            return false;
        }
    }
    true
}

/// The key that a monthly pick has yielded, as far as the order can tell.
#[derive(Debug, PartialEq, Eq)]
pub enum TpkPick<'a> {
    /// One key alone is in question.
    Unique(&'a KeyEntry),
    /// No new key is there.
    Absent,
    /// Several keys are new, and the title does not tell which it is.
    Ambiguous,
}

/// The same over positions in the order.
pub enum Pick {
    Unique(int),
    Absent,
    Ambiguous,
}

/// The positions, below `n`, of the keys whose names are not in `pre`.
pub open spec fn new_keys(keys: Seq<KeyEntry>, pre: Seq<Seq<char>>, n: nat) -> Seq<int> {
    selected(n, |i: int| !pre.contains(keys[i].machine_name@))
}

/// Those of the positions `at`, the first `n` of them, whose keys bear the title.
pub open spec fn titled(keys: Seq<KeyEntry>, at: Seq<int>, title: Seq<char>, n: nat) -> Seq<int> {
    selected(n, |i: int| same_ignoring_case(keys[at[i]].human_name@, title))
}

/// One new key is the one. Of several, the only one that bears the title exactly, save for case.
pub open spec fn new_pick(keys: Seq<KeyEntry>, pre: Seq<Seq<char>>, title: Seq<char>) -> Pick {
    let new = new_keys(keys, pre, keys.len());
    let exact = titled(keys, new, title, new.len());
    if new.len() == 0 {
        Pick::Absent
    } else if new.len() == 1 {
        Pick::Unique(new[0])
    } else if exact.len() == 1 {
        Pick::Unique(new[exact[0]])
    } else {
        Pick::Ambiguous
    }
}

/// Whether `r` is what `p` says of `keys`.
pub open spec fn is_pick(r: TpkPick<'_>, p: Pick, keys: Seq<KeyEntry>) -> bool {
    match p {
        Pick::Unique(i) => 0 <= i < keys.len() && r == TpkPick::Unique(&keys[i]),
        Pick::Absent => r is Absent,
        Pick::Ambiguous => r is Ambiguous,
    }
}

/// Finds the key that a pick has just yielded: what the order holds now and `pre` did not.
pub fn find_new_tpk<'a>(order: &'a Order, pre: &Vec<String>, title: &str) -> (r: TpkPick<'a>)
    ensures
        is_pick(r, new_pick(order.keys@, views(pre@), title@), order.keys@),
{
    let ghost keys = order.keys@;
    let ghost old = views(pre@);
    let mut new: Vec<usize> = Vec::new();
    for i in 0..order.keys.len()
        invariant
            keys == order.keys@,
            old == views(pre@),
            new@.len() == new_keys(keys, old, i as nat).len(),
            forall|k: int| 0 <= k < new@.len() ==> new@[k] == new_keys(keys, old, i as nat)[k],
    {
        if !holds(pre, order.keys[i].machine_name.as_str()) {
            new.push(i);
        }
    }
    let ghost at = new_keys(keys, old, keys.len());
    proof {
        selected_is_exact(keys.len(), |i: int| !old.contains(keys[i].machine_name@));
    }
    if new.len() == 0 {
        return TpkPick::Absent;
    }
    if new.len() == 1 {
        return TpkPick::Unique(&order.keys[new[0]]);
    }
    let mut exact: Vec<usize> = Vec::new();
    for i in 0..new.len()
        invariant
            keys == order.keys@,
            at.len() == new@.len(),
            forall|k: int| 0 <= k < new@.len() ==> 0 <= #[trigger] new@[k] < keys.len() && new@[k] == at[k],
            exact@.len() == titled(keys, at, title@, i as nat).len(),
            forall|k: int|
                0 <= k < exact@.len() ==> exact@[k] == titled(keys, at, title@, i as nat)[k],
    {
        if is_same_ignoring_case(order.keys[new[i]].human_name.as_str(), title) {
            exact.push(i);
        }
    }
    proof {
        selected_is_exact(at.len(), |i: int| same_ignoring_case(keys[at[i]].human_name@, title@));
    }
    if exact.len() == 1 {
        TpkPick::Unique(&order.keys[new[exact[0]]])
    } else {
        TpkPick::Ambiguous
    }
}

/// A key that is picked was not there before; and nothing is picked exactly where nothing is new.
pub proof fn a_picked_key_is_new(keys: Seq<KeyEntry>, pre: Seq<Seq<char>>, title: Seq<char>)
    ensures
        new_pick(keys, pre, title) matches Pick::Unique(i) ==> 0 <= i < keys.len()
            && !pre.contains(keys[i].machine_name@),
        new_pick(keys, pre, title) is Absent <==> (forall|i: int|
            0 <= i < keys.len() ==> pre.contains((#[trigger] keys[i]).machine_name@)),
{
    let p = |i: int| !pre.contains(keys[i].machine_name@);
    let new = new_keys(keys, pre, keys.len());
    selected_is_exact(keys.len(), p);
    selected_is_exact(new.len(), |i: int| same_ignoring_case(keys[new[i]].human_name@, title));
    if new.len() == 0 {
        assert forall|i: int| 0 <= i < keys.len() implies pre.contains(
            (#[trigger] keys[i]).machine_name@,
        ) by {
            if p(i) {
                assert(new.contains(i));
            }
        }
    } else {
        assert(p(new[0]));
        assert(!pre.contains(keys[new[0]].machine_name@));
    }
}

} // verus!
