//! How the operator is reached, and what is posted there.
use vstd::prelude::*;
use vstd::string::*;
use crate::card::{plain_post, Card};
use crate::model::{Claim, ClaimState, Game, SELF_LINK_TOKEN};
use crate::operator_message::{posts, OperatorMessage};
use crate::protocol::{FulfillRequest, FulfillResponse};
use crate::text::{opt_is, opt_view, same, views};

verus! {

// ---- Secrets ----------------------------------------------------------------------------------

/// What a read of a secret has found.
#[derive(Debug, Clone, PartialEq, Eq)]
pub enum SecretRead {
    Resolved(String),
    /// Not there, empty, or marked as unset: all on purpose.
    DeliberatelyOff,
    /// The read failed, which says nothing of what was meant.
    ReadFailed,
}

/// What a read of a secret has found.
pub open spec fn found(value: Result<Option<String>, ()>) -> SecretRead {
    match value {
        Ok(Some(v)) => if v@.len() > 0 && v@ != "UNSET"@ {
            SecretRead::Resolved(v)
        } else {
            SecretRead::DeliberatelyOff
        },
        Ok(None) => SecretRead::DeliberatelyOff,
        Err(_) => SecretRead::ReadFailed,
    }
}

/// A secret is what came back, unless that is nothing, empty, or the mark of one that is unset. Only a
/// read that failed is a failure.
pub proof fn a_secret_is_what_came_back(v: String)
    ensures
        found(Err(())) == SecretRead::ReadFailed,
        found(Ok(None)) == SecretRead::DeliberatelyOff,
        v@ == ""@ || v@ == "UNSET"@ ==> found(Ok(Some(v))) == SecretRead::DeliberatelyOff,
        v@ != ""@ && v@ != "UNSET"@ ==> found(Ok(Some(v))) == SecretRead::Resolved(v),
{
    reveal_strlit("");
    if v@.len() == 0 {
        assert(v@ =~= ""@);
    }
}

/// What a read of a secret has found, from the value that came back or from the failure to get one.
pub fn secret_read(value: Result<Option<String>, ()>) -> (r: SecretRead)
    ensures
        r == found(value),
{
    match value {
        Ok(Some(v)) => if !v.as_str().is_empty() && !same(v.as_str(), "UNSET") {
            SecretRead::Resolved(v)
        } else {
            SecretRead::DeliberatelyOff
        },
        Ok(None) => SecretRead::DeliberatelyOff,
        Err(_) => SecretRead::ReadFailed,
    }
}

/// The value of a secret, if it was found.
pub fn secret_value(r: SecretRead) -> (v: Option<String>)
    ensures
        v == match r {
            SecretRead::Resolved(s) => Some(s),
            _ => None,
        },
{
    match r {
        SecretRead::Resolved(v) => Some(v),
        _ => None,
    }
}

/// How the operator is reached.
#[derive(Debug, Clone, PartialEq, Eq)]
pub enum Notify {
    Webhook(String),
    /// Not at all, on purpose.
    Disabled,
    /// Not at all, because the address could not be read.
    Unresolved,
}

/// How the operator is reached.
pub open spec fn reach(read: SecretRead, disabled: bool) -> Notify {
    if disabled {
        Notify::Disabled
    } else {
        match read {
            SecretRead::Resolved(u) => Notify::Webhook(u),
            SecretRead::DeliberatelyOff => Notify::Disabled,
            SecretRead::ReadFailed => Notify::Unresolved,
        }
    }
}

/// The operator is reached exactly if an address was found and nobody asks for silence; that the address
/// is not known is said exactly if it could not be read and nobody does.
pub proof fn silence_is_not_a_failure(read: SecretRead, disabled: bool)
    ensures
        reach(read, disabled) is Webhook <==> read is Resolved && !disabled,
        reach(read, disabled) matches Notify::Webhook(u) ==> read == SecretRead::Resolved(u),
        reach(read, disabled) is Unresolved <==> read is ReadFailed && !disabled,
        disabled ==> reach(read, disabled) is Disabled,
{
}

impl Notify {
    /// How the operator is reached. Whoever asks for silence gets it, whatever the read has found;
    /// otherwise a failed read is told apart from one that was switched off.
    pub fn resolve(read: SecretRead, disabled: bool) -> (r: Notify)
        ensures
            r == reach(read, disabled),
    {
        match (read, disabled) {
            (SecretRead::Resolved(_), true) => Notify::Disabled,
            (SecretRead::Resolved(u), false) => Notify::Webhook(u),
            (SecretRead::DeliberatelyOff, true) => Notify::Disabled,
            (SecretRead::DeliberatelyOff, false) => Notify::Disabled,
            (SecretRead::ReadFailed, true) => Notify::Disabled,
            (SecretRead::ReadFailed, false) => Notify::Unresolved,
        }
    }
}

// ---- Posts ------------------------------------------------------------------------------------

/// What every post to the operator starts with.
pub const PING_PREFIX: &'static str = "🐱 bendobundles: ";

/// The texts of some posts.
pub open spec fn contents(cards: Seq<Card>) -> Seq<Seq<char>> {
    Seq::new(cards.len(), |i: int| cards[i].content@)
}

/// The posts that a message to the operator is sent as: none where there is no address.
pub fn ping_msg(notify: &Notify, msg: &OperatorMessage) -> (r: Vec<Card>)
    ensures
        contents(r@) == if *notify is Webhook {
            posts(PING_PREFIX@, msg@)
        } else {
            Seq::empty()
        },
        forall|i: int| 0 <= i < r@.len() ==> (#[trigger] r@[i]).calls_nobody() && r@[i].embeds@.len()
            == 0,
{
    let mut out: Vec<Card> = Vec::new();
    if let Notify::Webhook(_) = notify {
        let chunks = msg.chunks(PING_PREFIX);
        for i in 0..chunks.len()
            invariant
                out@.len() == i,
                forall|j: int|
                    0 <= j < i ==> (#[trigger] out@[j]).content@ == chunks@[j]@
                        && out@[j].calls_nobody() && out@[j].embeds@.len() == 0,
        {
            out.push(plain_post(chunks[i].as_str()));
        }
        assert(contents(out@) =~= views(chunks@));
    } else {
        assert(contents(out@) =~= Seq::empty());
    }
    out
}

/// How many posts have failed: one, unless there was an answer and it says that all is well.
pub open spec fn failed_posts(status: Option<u16>) -> u32 {
    if status matches Some(s) && 200 <= s < 300 {
        0u32
    } else {
        1u32
    }
}

/// A post that was not answered has failed, and so has one that was refused.
pub proof fn only_a_post_that_was_taken_counts(s: u16)
    ensures
        failed_posts(None) == 1,
        s / 100 == 2 ==> failed_posts(Some(s)) == 0,
        s / 100 != 2 ==> failed_posts(Some(s)) == 1,
{
}

/// How many posts have failed. A refusal is an answer too.
pub fn deliver(status: Option<u16>) -> (r: u32)
    ensures
        r == failed_posts(status),
{
    match status {
        Some(s) => if 200 <= s && s < 300 {
            0
        } else {
            1
        },
        None => 1,
    }
}

// ---- Requests ---------------------------------------------------------------------------------

/// What an invocation asks for: what its payload says, or a sync if the scheduler has sent it; nothing
/// if neither holds.
pub open spec fn asked(parsed: Option<FulfillRequest>, source: Option<Seq<char>>) -> Option<FulfillRequest> {
    match parsed {
        Some(req) => Some(req),
        None => if source == Some("aws.events"@) {
            Some(FulfillRequest::Sync)
        } else {
            None
        },
    }
}

/// A payload that says what it asks for is taken at its word, whoever sent it; one that does not is a
/// sync if the scheduler sent it, and refused otherwise.
pub proof fn a_payload_is_taken_at_its_word(req: FulfillRequest, source: Option<Seq<char>>)
    ensures
        asked(Some(req), source) == Some(req),
        asked(None, source) is Some <==> (source matches Some(s) && s == "aws.events"@),
        asked(None, source) matches Some(r) ==> r is Sync,
{
}

/// What an invocation asks for. One that asks for nothing is answered with an error.
pub fn recognize(parsed: Option<FulfillRequest>, source: &Option<String>) -> (r: Result<
    FulfillRequest,
    FulfillResponse,
>)
    ensures
        match asked(parsed, opt_view(*source)) {
            Some(req) => r == Ok::<FulfillRequest, FulfillResponse>(req),
            None => r matches Err(FulfillResponse::Error { message }) && message@
                == "unrecognized invocation payload"@,
        },
{
    match parsed {
        Some(req) => Ok(req),
        None => if opt_is(source, "aws.events") {
            Ok(FulfillRequest::Sync)
        } else {
            Err(
                FulfillResponse::Error {
                    message: String::from_str("unrecognized invocation payload"),
                },
            )
        },
    }
}

// ---- Failing a claim by hand ------------------------------------------------------------------

/// Why a claim must not be failed by hand.
#[derive(Debug, Clone, Copy, PartialEq, Eq, Structural)]
pub enum Refusal {
    NotSelf,
    NotPending,
    WrongGame,
    NotPointedAt,
}

impl Refusal {
    pub open spec fn text(self) -> Seq<char> {
        match self {
            Refusal::NotSelf =>
                "refusing: not a SELF claim — friend-link claims have budget semantics this bin does not handle"@,
            Refusal::NotPending =>
                "refusing: claim is not Pending — its fate is already decided"@,
            Refusal::WrongGame =>
                "refusing: claim.game_id does not match GAME_ID — wrong patient"@,
            Refusal::NotPointedAt =>
                "refusing: game.claim_id does not point back at this claim"@,
        }
    }

    /// The reason in words.
    pub fn words(self) -> (r: &'static str)
        ensures
            r@ == self.text(),
    {
        match self {
            Refusal::NotSelf =>
                "refusing: not a SELF claim — friend-link claims have budget semantics this bin does not handle",
            Refusal::NotPending => "refusing: claim is not Pending — its fate is already decided",
            Refusal::WrongGame => "refusing: claim.game_id does not match GAME_ID — wrong patient",
            Refusal::NotPointedAt => "refusing: game.claim_id does not point back at this claim",
        }
    }
}

/// Why a claim must not be failed by hand: it must be the owner's, pending, and bound to the game
/// both ways.
pub open spec fn refusal(
    claim: Claim,
    game: Game,
    claim_id: Seq<char>,
    game_id: Seq<char>,
) -> Option<Refusal> {
    if claim.link_token@ != SELF_LINK_TOKEN@ {
        Some(Refusal::NotSelf)
    } else if claim.state != ClaimState::Pending {
        Some(Refusal::NotPending)
    } else if claim.game_id@ != game_id {
        Some(Refusal::WrongGame)
    } else if opt_view(game.claim_id) != Some(claim_id) {
        Some(Refusal::NotPointedAt)
    } else {
        None
    }
}

/// A claim may be failed by hand exactly if it is the owner's and pending, and it and the game name each
/// other. A friend's claim is refused as such, whatever else is wrong with it.
pub proof fn only_the_owners_own_claim_is_failed(
    claim: Claim,
    game: Game,
    claim_id: Seq<char>,
    game_id: Seq<char>,
)
    ensures
        refusal(claim, game, claim_id, game_id) is None <==> claim.link_token@ == "SELF"@
            && claim.state is Pending && claim.game_id@ == game_id && (
        game.claim_id matches Some(c) && c@ == claim_id),
        claim.link_token@ != "SELF"@ ==> refusal(claim, game, claim_id, game_id) == Some(
            Refusal::NotSelf,
        ),
        claim.link_token@ == "SELF"@ && !(claim.state is Pending) ==> refusal(
            claim,
            game,
            claim_id,
            game_id,
        ) == Some(Refusal::NotPending),
        claim.link_token@ == "SELF"@ && claim.state is Pending && claim.game_id@ != game_id
            ==> refusal(claim, game, claim_id, game_id) == Some(Refusal::WrongGame),
{
}

/// Why a claim must not be failed by hand.
pub fn stuck_claim_refusal(claim: &Claim, game: &Game, claim_id: &str, game_id: &str) -> (r: Option<
    Refusal,
>)
    ensures
        r == refusal(*claim, *game, claim_id@, game_id@),
{
    if !same(claim.link_token.as_str(), SELF_LINK_TOKEN) {
        Some(Refusal::NotSelf)
    } else if !matches!(claim.state, ClaimState::Pending) {
        Some(Refusal::NotPending)
    } else if !same(claim.game_id.as_str(), game_id) {
        Some(Refusal::WrongGame)
    } else if !opt_is(&game.claim_id, claim_id) {
        Some(Refusal::NotPointedAt)
    } else {
        None
    }
}

} // verus!
