//! The wording of what the operator is told. A `{}` is filled in when it is sent.
use vstd::prelude::*;

verus! {

/// The service could not log in.
pub const LOGIN_FAILED: &'static str =
    "humble self-login FAILED ({}) — session still dead; break-glass: update the humble-cookie SSM param directly (AWS console/CLI)";

/// A gift link could not be recorded.
pub const URL_UNSAVED: &'static str =
    "fulfill after redeem failed for claim {}: {} — gift URL was generated but not recorded — recover it from humble's gift history page (purchases → the order → gift link)";

/// A gift link behind a monthly pick could not be recorded.
pub const CHOICE_URL_UNSAVED: &'static str =
    "fulfill after choice redeem failed for claim {}: {} — gift URL was generated but not recorded — recover it from humble's gift history page (purchases → the order → gift link)";

/// A revealed key could not be recorded.
pub const KEY_UNSAVED: &'static str =
    "self-claim fulfill failed for claim {}: {} — the key was revealed but not recorded; it is still readable in humble's library keys page.";

/// A slot could not be given back.
pub const COMPENSATE_FAILED: &'static str =
    "compensate failed for claim {}: {}";

/// The secure-area login failed: a friend's claim.
pub const GIFT_STEP_UP_FAILED: &'static str =
    "gift redeem for claim {} ({}) needed humble's secure-area step-up and it did not complete: {}. Check the humble password + TOTP seed in SSM (or the account may be locked / rate-limited). The key was NOT redeemed — the claim is parked and will re-list on reconcile.";

/// The secure-area login failed: a friend's claim with a monthly pick.
pub const CHOICE_GIFT_STEP_UP_FAILED: &'static str =
    "choice gift redeem for claim {} ({}) needed humble's secure-area step-up and it did not complete: {}. The key was NOT redeemed — the claim is parked and reconcile will finish it.";

/// The secure-area login failed: the owner's claim.
pub const SELF_STEP_UP_FAILED: &'static str =
    "self-claim reveal for claim {} ({}) needed humble's secure-area step-up and it did not complete: {}. The key was NOT revealed — the claim is parked and reconcile will finish it.";

/// The secure-area login failed: the owner's claim with a monthly pick.
pub const CHOICE_SELF_STEP_UP_FAILED: &'static str =
    "choice self-claim reveal for claim {} ({}) needed humble's secure-area step-up and it did not complete: {}. The key was NOT revealed — the claim is parked and reconcile will finish it.";

/// A write was refused: a friend's claim.
pub const GIFT_AUTH_REJECTED: &'static str =
    "gift redeem for claim {} ({}) was blocked at humble's auth layer (status {}). {}. The session cookie is fine (reads work) — refreshing the session won't help. The claim is parked; reconcile will re-list the key if unredeemed, so this repeats on the next claim until the write path is fixed.";

/// A write was refused: a friend's claim with a monthly pick.
pub const CHOICE_GIFT_AUTH_REJECTED: &'static str =
    "choice gift redeem for claim {} ({}) was blocked at humble's auth layer (status {}). {}. The session cookie is fine (reads work). The claim is parked; reconcile will finish it once the write path is fixed.";

/// A write was refused: the owner's claim with a monthly pick.
pub const CHOICE_SELF_AUTH_REJECTED: &'static str =
    "choice self-claim reveal for claim {} ({}) was blocked at humble's auth layer (status {}). {}. The session cookie is fine (reads work). The claim is parked; reconcile will finish it once the write path is fixed.";

/// A key turned out to be dead.
pub const KEY_DEAD: &'static str =
    "claim {} ({}) hit a DEAD key — humble says: \"{}\". The claim is failed (reason recorded on the claim), the game is retired as expired and will not re-list, and the slot was returned. Nothing retries this.";

/// The key of a friend's monthly pick turned out to be dead.
pub const CHOICE_GIFT_KEY_DEAD: &'static str =
    "claim {} ({}) hit a DEAD key — humble says: \"{}\". The claim is failed (reason recorded on the claim), the game is retired as expired and will not re-list, and the slot was returned. Nothing retries this. The monthly pick was already spent and is stranded -- the dead key was the pick's product.";

/// The key of the owner's monthly pick turned out to be dead.
pub const CHOICE_SELF_KEY_DEAD: &'static str =
    "claim {} ({}) hit a DEAD key — humble says: \"{}\". The claim is failed (reason recorded on the claim), the game is retired as expired and will not re-list, and the slot was returned. Nothing retries this. If this was a choice claim, its spent pick is stranded.";

/// The order marks a key as expired.
pub const KEY_MARKED_EXPIRED: &'static str =
    "claim {} ({}) sits on a key humble marks expired ({}) — failed terminally without a redeem attempt. Reason recorded, slot returned, game retired. If this was a choice claim, its spent pick is stranded.";

/// A dead key's claim could not be failed.
pub const RETIRE_FAILED: &'static str =
    "dead-key fail-claim write for {} failed: {} — still pending, reconcile retries";

/// An expired key's claim could not be failed.
pub const MARKED_RETIRE_FAILED: &'static str =
    "dead-key (structural) fail-claim write for {} failed: {} — still pending, reconcile retries";

/// A pick was spent, and its key redeemed, before the run.
pub const PICK_ALREADY_REDEEMED: &'static str =
    "choice claim {} ({}): this game's pick appears already claimed AND redeemed on humble — no re-choose was attempted. Recover the gift URL from humble's gift-history page; the claim is parked.";

/// The key of a pick was redeemed before.
pub const CHOICE_ALREADY_REDEEMED: &'static str =
    "choice claim {} redeem returned already-redeemed — the monthly pick was already spent, so this claim was NOT compensated (re-listing would strand the pick). Recover the gift URL from humble's gift-history page; claim parked.";

/// A key was redeemed before, and the order does not have its value.
pub const NO_KEY_VALUE: &'static str =
    "self-claim {} ({}): humble says already-redeemed but the order carries no key value — it may have been gifted out-of-band. Parked for review; nothing was compensated.";

/// The secure-area login failed: a pick.
pub const PICK_STEP_UP_FAILED: &'static str =
    "choice claim {} ({}): choosecontent needed humble's secure-area step-up and it did not complete: {}. No pick was spent — the claim is parked.";

/// A pick was refused.
pub const PICK_REFUSED: &'static str =
    "choice claim {} ({}): humble refused the pick (choosecontent success=false): {}. No pick was spent this attempt — the claim is parked (reconcile will compensate if the order confirms nothing was claimed).";

/// A pick has yielded no key yet.
pub const NO_TPK_YET: &'static str =
    "choice claim {} ({}): the monthly pick was spent but the new key hasn't appeared in the order yet — parked, reconcile will finish it. No pick will be spent twice.";

/// A pick has yielded more keys than one.
pub const AMBIGUOUS_TPK: &'static str =
    "choice claim {} ({}): several new keys appeared after the choose and the title can't single one out (a concurrent sibling claim on this month?) — parked for review. No key was burned.";

/// A slot went back: no pick was spent.
pub const CHOICE_COMPENSATED: &'static str =
    "reconcile compensated choice claim {} ({}) — no choose intent was ever recorded, so the monthly pick was NOT spent — slot returned, game re-listed.";

/// No snapshot, and a revealed key that bears the title.
pub const UNSNAPPED_REVEALED: &'static str =
    "choice claim {} ({}) has no intent snapshot, but humble shows a key for this title (`{}`) already revealed — a pick was spent outside the app's writes. Cannot attribute it to this claim (no snapshot = no arrival-order evidence). Left pending for review.";

/// No snapshot, and a key that bears the title.
pub const UNSNAPPED_UNREDEEMED: &'static str =
    "choice claim {} ({}) has no intent snapshot, but humble shows an unredeemed key for this title (`{}`). Cannot attribute it to this claim. Left pending for review.";

/// No snapshot, and several keys that bear the title.
pub const UNSNAPPED_SEVERAL: &'static str =
    "choice claim {} ({}) has no intent snapshot and multiple keys on humble could match the title. Left pending for review.";

/// A snapshot, and no new key.
pub const SNAPSHOT_NO_KEY: &'static str =
    "choice claim {} ({}) has an intent snapshot but no new key on humble — NOT auto-compensating: a snapshot can hide a pick spent out of band. Left pending for review.";

/// A key was recovered from its order.
pub const RECOVERED: &'static str =
    "reconcile recovered the already-revealed key for self claim {} ({}) from the order — claim completed autonomously; the key was redeemed out of band{}.";

/// The key of a pick was redeemed, and no gift link recorded.
pub const CHOICE_URL_LOST: &'static str =
    "choice claim {} ({}) shows its key already redeemed on humble but no gift URL was recorded — recover it manually from humble's gift-history page. Claim left pending.";

/// A snapshot, and several new keys.
pub const RECONCILE_AMBIGUOUS: &'static str =
    "choice claim {} ({}) has multiple new keys on humble that the title can't disambiguate (a concurrent claim on this month?) — left pending for review.";

/// The owner's Steam library cannot be read.
pub const LIBRARY_PRIVATE: &'static str =
    "your steam 'game details' privacy or the key's account changed — owned badges are frozen until fixed";

/// Many games were pulled from the shelf.
pub const AUDIT_SUMMARY: &'static str =
    "shelf audit: pulled {} listed games whose keys are spent on humble: {}";

/// A game was pulled from the shelf.
pub const AUDIT_PULLED: &'static str =
    "shelf audit: pulled {} ({}) — key {} on humble{}";

/// A claim has been pending for days.
pub const STILL_PENDING: &'static str =
    "claim {} ({}) is STILL PENDING after ~{}d. Reconcile retries it every sync (or cannot reach it — see logs for this run). It will nag daily until it completes, compensates, or fails.";

/// A key was redeemed, and no gift link recorded.
pub const URL_LOST: &'static str =
    "parked claim {} ({} / {}) shows redeemed on humble but no gift URL was recorded — recover manually via humble's gift-history page";

/// A slot went back: the key was not redeemed.
pub const COMPENSATED: &'static str =
    "reconcile compensated parked claim {} ({} / {}) as not-redeemed — slot returned, game re-listed. No key can be double-spent (humble refuses re-redeem of a burned key); but IF this key was actually gifted, its gift URL is lost — recover it from humble's gift-history page.";

/// Nothing can be done about a claim without a person.
pub const STUCK: &'static str =
    "parked claim {} (game_id {}) has been stuck ~{}h and reconcile cannot act on it: {}. Nothing self-heals this — the link slot stays consumed until someone looks. Fix the claim/game_id by hand (or compensate it) to free the slot.";

/// The write was refused with a token that the service had made up.
pub const CSRF_MINTED: &'static str =
    "csrf capture FAILED (minted fallback used) — the preflight isn't yielding a cookie";

/// The write was refused with the token that the key store had handed out.
pub const CSRF_CAPTURED: &'static str =
    "humble rejected its own captured csrf token — the write dance needs a look";

} // verus!
