//! What the store of record keeps: games, links, claims. Points in time are nanoseconds since the
//! Unix epoch.
use vstd::prelude::*;
use vstd::string::*;

verus! {

/// The link token of a claim that the owner makes for themself.
pub const SELF_LINK_TOKEN: &'static str = "SELF";

/// Where a game stands.
#[derive(Debug, Clone, Copy, PartialEq, Eq, Structural)]
pub enum GameStatus {
    Available,
    Pending,
    Gifted,
    BenRedeemed,
    Expired,
}

/// Where a game's Steam app id comes from.
#[derive(Debug, Clone, Copy, PartialEq, Eq, Structural)]
pub enum AppidSource {
    Humble,
    Title,
    Manual,
}

/// A game on the shelf.
#[derive(Debug, PartialEq, Eq)]
pub struct Game {
    pub id: String,
    pub title: String,
    pub bundle: String,
    pub gamekey: String,
    pub machine_name: String,
    pub key_type: String,
    pub giftable: bool,
    pub hidden: bool,
    pub status: GameStatus,
    pub claim_id: Option<String>,
    pub artwork_url: Option<String>,
    pub keyindex: u32,
    pub requires_choice: bool,
    pub steam_app_id: Option<u32>,
    pub appid_source: Option<AppidSource>,
    pub owned_by_ben: bool,
}

/// Where a claim stands.
#[derive(Debug, Clone, Copy, PartialEq, Eq, Structural)]
pub enum ClaimState {
    Pending,
    Fulfilled,
    Compensated,
    Failed,
}

impl ClaimState {
    /// The name of the state.
    pub open spec fn text(self) -> Seq<char> {
        match self {
            ClaimState::Pending => "Pending"@,
            ClaimState::Fulfilled => "Fulfilled"@,
            ClaimState::Compensated => "Compensated"@,
            ClaimState::Failed => "Failed"@,
        }
    }

    /// The name of the state.
    pub fn name(self) -> (r: &'static str)
        ensures
            r@ == self.text(),
    {
        match self {
            ClaimState::Pending => "Pending",
            ClaimState::Fulfilled => "Fulfilled",
            ClaimState::Compensated => "Compensated",
            ClaimState::Failed => "Failed",
        }
    }
}

/// Somebody's claim on a game.
#[derive(Debug, PartialEq, Eq)]
pub struct Claim {
    pub id: String,
    pub link_token: String,
    pub game_id: String,
    pub state: ClaimState,
    pub created_at: i128,
    /// The keys that the order held before a monthly pick was spent on this claim.
    pub choice_pre_tpks: Option<Vec<String>>,
}

/// A door to the shelf, made for somebody.
#[derive(Debug, PartialEq, Eq)]
pub struct Link {
    pub token: String,
    pub label: String,
    /// The note of thanks that came back.
    pub thank_note: Option<String>,
    pub claims_allowed: u32,
    pub claims_used: u32,
    pub revoked: bool,
    pub expires_at: Option<i128>,
    /// When the gift may be opened.
    pub unlock_at: Option<i128>,
    /// The games that are promised; without them the whole shelf is open.
    pub curated_game_ids: Option<Vec<String>>,
    pub friend_id: Option<String>,
    pub created_at: i128,
}

/// The earliest point in time, at the start of the year -9999.
pub const MIN_INSTANT: i128 = -377_705_116_800_000_000_000;

/// The latest point in time, at the end of the year 9999.
pub const MAX_INSTANT: i128 = 253_402_300_799_999_999_999;

/// Whether a number of nanoseconds is a point in time.
pub open spec fn is_instant(t: i128) -> bool {
    MIN_INSTANT <= t <= MAX_INSTANT
}

/// The id of the game behind a key of an order.
pub open spec fn game_id_text(gamekey: Seq<char>, machine_name: Seq<char>) -> Seq<char> {
    gamekey + ":"@ + machine_name
}

/// The id of the game behind a key of an order.
pub fn game_id(gamekey: &str, machine_name: &str) -> (r: String)
    ensures
        r@ == game_id_text(gamekey@, machine_name@),
{
    String::from_str(gamekey).concat(":").concat(machine_name)
}

} // verus!
