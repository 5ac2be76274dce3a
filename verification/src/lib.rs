//! Reconciliation and aggregation engine for an alliance-shared universe
//! database: idempotent upserts that merge untrusted, partial scan and report
//! snapshots into canonical entities, plus the derived views (score deltas,
//! activity statistics, leaderboard maxima, distances, freshness windows)
//! served to clients.

pub mod access;
pub mod aggregate;
pub mod botfmt;
pub mod clock;
pub mod empire;
pub mod empire_laws;
pub mod errors;
pub mod export;
pub mod flows;
pub mod i18n;
pub mod laws;
pub mod listings;
pub mod models;
pub mod reports;
pub mod requests;
pub mod response;
pub mod rowseq;
pub mod scan;
pub mod scan_laws;
pub mod stats;
pub mod store;
pub mod textutil;

use vstd::prelude::*;

verus! {

/// Process configuration, passed explicitly to the functions that read it.
pub struct Config {
    pub database_url: String,
    pub log_level: String,
    pub host: String,
    pub port: u16,
    pub bot_token: Option<String>,
    pub bot_ally_id: u32,
    pub bot_admin_role_ids: Vec<u64>,
    pub bot_user_role_ids: Vec<u64>,
    pub bot_spy_channel_id: Option<u64>,
    pub bot_channel_id: Option<u64>,
    pub bot_language: String,
}

} // verus!
