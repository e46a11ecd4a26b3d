//! The rules of a game-key gift service: how a claim is redeemed, how the shelf is kept true to the
//! store it mirrors, and what is said to the people on either side.
#![allow(unused_imports)]

pub mod text;
pub mod operator_message;
pub mod message_laws;
pub mod select;
pub mod humble;
pub mod model;
pub mod session;
pub mod protocol;
pub mod claim_flow;
pub mod wording;
pub mod notice;
pub mod claim_laws;
pub mod claim_outcomes;
pub mod reconcile;
pub mod reconcile_outcomes;
pub mod calendar;
pub mod shelf;
pub mod shelf_laws;
pub mod discovery;
pub mod discovery_outcomes;
pub mod sync;
pub mod sync_outcomes;
pub mod steam;
pub mod app_set;
pub mod enrich;
pub mod enrich_outcomes;
pub mod ownership;
pub mod heal_pairs;
pub mod card;
pub mod bell;
pub mod order;
pub mod whisper;
pub mod whisper_card;
pub mod whisper_card_laws;
pub mod lantern;
pub mod lantern_laws;
pub mod notify;
pub mod enrich_pass;
pub mod backfill_pass;
pub mod pass_outcomes;
