//! What the service is asked, and what it answers.
use vstd::prelude::*;
use vstd::string::*;
use crate::model::ClaimState;

verus! {

/// A request to the service.
#[derive(Debug, PartialEq, Eq)]
pub enum FulfillRequest {
    /// Turn a claim into a gift link.
    Gift {
        claim_id: String,
        link_token: String,
        game_id: String,
        gamekey: String,
        /// The key's name in its order; for a monthly pick, the id of the game on offer.
        machine_name: String,
        keyindex: u32,
        /// A monthly pick has to be spent before there is a key.
        requires_choice: bool,
    },
    /// Reveal a key to the owner.
    SelfClaim {
        claim_id: String,
        game_id: String,
        gamekey: String,
        machine_name: String,
        keyindex: u32,
        requires_choice: bool,
    },
    Sync,
    ValidateCookie,
}

/// An answer of the service.
#[derive(Debug, PartialEq, Eq)]
pub enum FulfillResponse {
    GiftUrl { url: String },
    RevealedKey { key: String },
    /// The key was redeemed before: the claim is compensated, another game should be picked.
    AlreadyRedeemed,
    /// The key is dead: the claim is failed, the slot returned, the game retired.
    KeyDead,
    /// The claim stays pending.
    Parked { reason: String },
    SyncDone,
    CookieStatus { ok: bool },
    Error { message: String },
}

/// Why a redemption is left to a later look at the order.
#[derive(Debug, Clone, Copy, PartialEq, Eq, Structural)]
pub enum Inconclusive {
    Refused,
    Ambiguous,
    RateLimited,
    AuthRejected,
    StepUpFailed,
    Transient,
}

impl Inconclusive {
    pub open spec fn text(self) -> Seq<char> {
        match self {
            Inconclusive::Refused => "refused"@,
            Inconclusive::Ambiguous => "ambiguous"@,
            Inconclusive::RateLimited => "rate-limited"@,
            Inconclusive::AuthRejected => "redeem-auth-rejected"@,
            Inconclusive::StepUpFailed => "secure-area-step-up-failed"@,
            Inconclusive::Transient => "transient"@,
        }
    }

    fn name(self) -> (r: &'static str)
        ensures
            r@ == self.text(),
    {
        match self {
            Inconclusive::Refused => "refused",
            Inconclusive::Ambiguous => "ambiguous",
            Inconclusive::RateLimited => "rate-limited",
            Inconclusive::AuthRejected => "redeem-auth-rejected",
            Inconclusive::StepUpFailed => "secure-area-step-up-failed",
            Inconclusive::Transient => "transient",
        }
    }
}

/// Why a monthly pick is left to a later look at the order.
#[derive(Debug, Clone, Copy, PartialEq, Eq, Structural)]
pub enum PickInconclusive {
    Refused,
    StepUpFailed,
    RateLimited,
    Api,
    Network,
    Parse,
    Transient,
}

impl PickInconclusive {
    pub open spec fn text(self) -> Seq<char> {
        match self {
            PickInconclusive::Refused => "choose-refused"@,
            PickInconclusive::StepUpFailed => "secure-area-step-up-failed"@,
            PickInconclusive::RateLimited => "rate-limited"@,
            PickInconclusive::Api => "ambiguous-api"@,
            PickInconclusive::Network => "ambiguous-network"@,
            PickInconclusive::Parse => "ambiguous-parse"@,
            PickInconclusive::Transient => "transient"@,
        }
    }

    fn name(self) -> (r: &'static str)
        ensures
            r@ == self.text(),
    {
        match self {
            PickInconclusive::Refused => "choose-refused",
            PickInconclusive::StepUpFailed => "secure-area-step-up-failed",
            PickInconclusive::RateLimited => "rate-limited",
            PickInconclusive::Api => "ambiguous-api",
            PickInconclusive::Network => "ambiguous-network",
            PickInconclusive::Parse => "ambiguous-parse",
            PickInconclusive::Transient => "transient",
        }
    }
}

/// Where on its way a claim with a monthly pick was left.
#[derive(Debug, Clone, Copy, PartialEq, Eq, Structural)]
pub enum ChoicePoint {
    GameMissing,
    PreRead,
    ResumeIntentWrite,
    AlreadyClaimedRedeemed,
    IntentWrite,
    ReRead,
    NoTpkYet,
    AmbiguousTpk,
}

impl ChoicePoint {
    pub open spec fn text(self) -> Seq<char> {
        match self {
            ChoicePoint::GameMissing => "game-missing"@,
            ChoicePoint::PreRead => "pre-read"@,
            ChoicePoint::ResumeIntentWrite => "resume-intent-write"@,
            ChoicePoint::AlreadyClaimedRedeemed => "already-claimed-redeemed"@,
            ChoicePoint::IntentWrite => "intent-write"@,
            ChoicePoint::ReRead => "re-read"@,
            ChoicePoint::NoTpkYet => "no-tpk-yet"@,
            ChoicePoint::AmbiguousTpk => "ambiguous-tpk"@,
        }
    }

    fn name(self) -> (r: &'static str)
        ensures
            r@ == self.text(),
    {
        match self {
            ChoicePoint::GameMissing => "game-missing",
            ChoicePoint::PreRead => "pre-read",
            ChoicePoint::ResumeIntentWrite => "resume-intent-write",
            ChoicePoint::AlreadyClaimedRedeemed => "already-claimed-redeemed",
            ChoicePoint::IntentWrite => "intent-write",
            ChoicePoint::ReRead => "re-read",
            ChoicePoint::NoTpkYet => "no-tpk-yet",
            ChoicePoint::AmbiguousTpk => "ambiguous-tpk",
        }
    }
}

/// Why a claim stays pending.
pub enum Park {
    ClaimNotFound,
    ClaimReadFailed(String),
    ClaimTerminal(ClaimState),
    LinkageMismatch,
    GameMissing,
    GameReadFailed(String),
    GamekeyDrift,
    KeyDrift,
    SessionDead,
    RedeemInconclusive(Inconclusive),
    RevealInconclusive(Inconclusive),
    PickInconclusive(PickInconclusive),
    Choice(ChoicePoint),
    ChoiceAlreadyRedeemed,
    DeadKeyUnrecorded,
    RecoverReadFailed,
    NoRecoverableKey,
}

impl Park {
    /// The reason in words.
    pub open spec fn text(self) -> Seq<char> {
        match self {
            Park::ClaimNotFound => "pre-redeem gate: claim not found"@,
            Park::ClaimReadFailed(e) => "pre-redeem gate: claim read failed: "@ + e@,
            Park::ClaimTerminal(s) => "pre-redeem gate: claim state "@ + s.text()
                + " is terminal — refusing to touch a key"@,
            Park::LinkageMismatch => "pre-redeem gate: claim/game linkage mismatch"@,
            Park::GameMissing => "pre-redeem gate: game record missing"@,
            Park::GameReadFailed(e) => "pre-redeem gate: game read failed: "@ + e@,
            Park::GamekeyDrift => "pre-redeem gate: gamekey drift since claim"@,
            Park::KeyDrift => "pre-redeem gate: key coordinates drifted since claim"@,
            Park::SessionDead => "humble session needs attention"@,
            Park::RedeemInconclusive(d) => "humble call inconclusive: park for reconcile ("@
                + d.text() + ")"@,
            Park::RevealInconclusive(d) => "self-claim reveal inconclusive: park for reconcile ("@
                + d.text() + ")"@,
            Park::PickInconclusive(d) => "choice choose inconclusive: park for reconcile ("@
                + d.text() + ")"@,
            Park::Choice(p) => "choice fulfillment inconclusive: park for reconcile ("@ + p.text()
                + ")"@,
            Park::ChoiceAlreadyRedeemed =>
                "choice key already redeemed — parked for human recovery"@,
            Park::DeadKeyUnrecorded => "dead key detected but recording failed — will retry"@,
            Park::RecoverReadFailed => "recover re-read failed: park for reconcile"@,
            Park::NoRecoverableKey => "already-redeemed with no recoverable key value"@,
        }
    }

    /// The reason in words.
    pub fn reason(self) -> (r: String)
        ensures
            r@ == self.text(),
    {
        match self {
            Park::ClaimNotFound => String::from_str("pre-redeem gate: claim not found"),
            Park::ClaimReadFailed(e) => String::from_str(
                "pre-redeem gate: claim read failed: ",
            ).concat(e.as_str()),
            Park::ClaimTerminal(s) => String::from_str("pre-redeem gate: claim state ").concat(
                s.name(),
            ).concat(" is terminal — refusing to touch a key"),
            Park::LinkageMismatch => String::from_str(
                "pre-redeem gate: claim/game linkage mismatch",
            ),
            Park::GameMissing => String::from_str("pre-redeem gate: game record missing"),
            Park::GameReadFailed(e) => String::from_str(
                "pre-redeem gate: game read failed: ",
            ).concat(e.as_str()),
            Park::GamekeyDrift => String::from_str("pre-redeem gate: gamekey drift since claim"),
            Park::KeyDrift => String::from_str(
                "pre-redeem gate: key coordinates drifted since claim",
            ),
            Park::SessionDead => String::from_str("humble session needs attention"),
            Park::RedeemInconclusive(d) => String::from_str(
                "humble call inconclusive: park for reconcile (",
            ).concat(d.name()).concat(")"),
            Park::RevealInconclusive(d) => String::from_str(
                "self-claim reveal inconclusive: park for reconcile (",
            ).concat(d.name()).concat(")"),
            Park::PickInconclusive(d) => String::from_str(
                "choice choose inconclusive: park for reconcile (",
            ).concat(d.name()).concat(")"),
            Park::Choice(p) => String::from_str(
                "choice fulfillment inconclusive: park for reconcile (",
            ).concat(p.name()).concat(")"),
            Park::ChoiceAlreadyRedeemed => String::from_str(
                "choice key already redeemed — parked for human recovery",
            ),
            Park::DeadKeyUnrecorded => String::from_str(
                "dead key detected but recording failed — will retry",
            ),
            Park::RecoverReadFailed => String::from_str(
                "recover re-read failed: park for reconcile",
            ),
            Park::NoRecoverableKey => String::from_str(
                "already-redeemed with no recoverable key value",
            ),
        }
    }
}

/// What was won but could not be recorded.
#[derive(Debug, Clone, Copy, PartialEq, Eq, Structural)]
pub enum Unrecorded {
    Gift,
    Key,
    Compensation,
}

impl Unrecorded {
    pub open spec fn text(self) -> Seq<char> {
        match self {
            Unrecorded::Gift => "gift generated but recording failed — flagged for ben"@,
            Unrecorded::Key => "key revealed but recording failed — flagged for ben"@,
            Unrecorded::Compensation => "recording failed — flagged for ben"@,
        }
    }

    fn message(self) -> (r: &'static str)
        ensures
            r@ == self.text(),
    {
        match self {
            Unrecorded::Gift => "gift generated but recording failed — flagged for ben",
            Unrecorded::Key => "key revealed but recording failed — flagged for ben",
            Unrecorded::Compensation => "recording failed — flagged for ben",
        }
    }
}

/// How a claim's run has ended.
pub enum Answer {
    GiftUrl(String),
    RevealedKey(String),
    AlreadyRedeemed,
    KeyDead,
    Parked(Park),
    Unrecorded(Unrecorded),
}

impl Answer {
    /// Whether `r` puts this ending into words.
    pub open spec fn reads(self, r: FulfillResponse) -> bool {
        match self {
            Answer::GiftUrl(u) => r matches FulfillResponse::GiftUrl { url } && url@ == u@,
            Answer::RevealedKey(k) => r matches FulfillResponse::RevealedKey { key } && key@ == k@,
            Answer::AlreadyRedeemed => r is AlreadyRedeemed,
            Answer::KeyDead => r is KeyDead,
            Answer::Parked(p) => r matches FulfillResponse::Parked { reason } && reason@
                == p.text(),
            Answer::Unrecorded(u) => r matches FulfillResponse::Error { message } && message@
                == u.text(),
        }
    }

    /// The answer that is sent.
    pub fn response(self) -> (r: FulfillResponse)
        ensures
            self.reads(r),
    {
        match self {
            Answer::GiftUrl(url) => FulfillResponse::GiftUrl { url },
            Answer::RevealedKey(key) => FulfillResponse::RevealedKey { key },
            Answer::AlreadyRedeemed => FulfillResponse::AlreadyRedeemed,
            Answer::KeyDead => FulfillResponse::KeyDead,
            Answer::Parked(Park::Choice(p)) => parked_choice(p.name()),
            Answer::Parked(p) => FulfillResponse::Parked { reason: p.reason() },
            Answer::Unrecorded(u) => FulfillResponse::Error {
                message: String::from_str(u.message()),
            },
        }
    }
}

/// The answer for a claim with a monthly pick that is left pending at the point named `detail`.
pub fn parked_choice(detail: &str) -> (r: FulfillResponse)
    ensures
        r matches FulfillResponse::Parked { reason } && reason@
            == "choice fulfillment inconclusive: park for reconcile ("@ + detail@ + ")"@,
{
    FulfillResponse::Parked {
        reason: String::from_str("choice fulfillment inconclusive: park for reconcile (").concat(
            detail,
        ).concat(")"),
    }
}

} // verus!
