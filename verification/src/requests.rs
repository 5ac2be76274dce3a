//! The ingestion payloads accepted at the boundary, already parsed into
//! plain values by the transport layer.

use vstd::prelude::*;
use vstd::string::StringExecFns;
use crate::models::CountMap;

verus! {

// Planets

pub struct CreatePlanetRequest {
    pub coordinates: String,
    pub player_id: i64,
    pub planet_name: Option<String>,
    pub moon_name: Option<String>,
}

pub struct BuildingsRequest {
    pub coordinates: String,
    pub kind: String,
    pub buildings: CountMap,
}

pub struct FleetRequest {
    pub coordinates: String,
    pub kind: String,
    pub fleet: CountMap,
}

pub struct DefenseRequest {
    pub coordinates: String,
    pub kind: String,
    pub defense: CountMap,
}

pub struct ResourcesRequest {
    pub coordinates: String,
    pub kind: String,
    pub resources: CountMap,
}

// Players

pub struct GetStatsRequest {
    pub ids: Vec<i64>,
}

pub struct ResearchInput {
    pub id: i64,
    pub level: i64,
}

pub struct ResearchRequest {
    pub research: Vec<ResearchInput>,
}

pub struct OverviewRequest {
    pub galaxy: i64,
    pub system: i64,
    pub planet: i64,
    pub own_planets: Vec<String>,
}

pub struct UpdateLanguageRequest {
    pub language: String,
}

// Reports

pub struct SpyReportQuery {
    pub kind: String,
    pub lines: i64,
}

/// The default report kind of a report query.
pub fn default_type() -> (r: String)
    ensures
        r@ == "PLANET"@,
{
    String::from_str("PLANET")
}

/// The default listing length of a report query.
pub fn default_lines() -> (r: i64)
    ensures
        r == 10,
{
    10
}

/// The default page of a paginated query.
pub fn default_page() -> (r: i64)
    ensures
        r == 1,
{
    1
}

pub struct CreateSpyReportRequest {
    pub id: i64,
    pub galaxy: i64,
    pub system: i64,
    pub planet: i64,
    pub kind: String,
    pub report_time: Option<i64>,
    pub resources: Option<CountMap>,
    pub buildings: Option<CountMap>,
    pub research: Option<CountMap>,
    pub fleet: Option<CountMap>,
    pub defense: Option<CountMap>,
}

pub struct CreateBattleReportRequest {
    pub id: i64,
    pub galaxy: i64,
    pub system: i64,
    pub planet: i64,
    pub kind: String,
    pub report_time: Option<i64>,
    pub attacker_lost: i64,
    pub defender_lost: i64,
    pub metal: i64,
    pub crystal: i64,
    pub deuterium: i64,
    pub debris_metal: i64,
    pub debris_crystal: i64,
}

pub struct BattleReportQuery {
    pub lines: i64,
}

pub struct CreateExpeditionReportRequest {
    pub id: i64,
    pub message: Option<String>,
    pub kind: Option<String>,
    pub report_time: Option<i64>,
    pub resources: Option<CountMap>,
    pub fleet: Option<CountMap>,
}

pub struct CreateRecycleReportRequest {
    pub id: i64,
    pub galaxy: i64,
    pub system: i64,
    pub planet: i64,
    pub report_time: Option<i64>,
    pub metal: i64,
    pub crystal: i64,
    pub metal_tf: i64,
    pub crystal_tf: i64,
}

pub struct CreateHostileSpyingRequest {
    pub id: i64,
    pub attacker_coordinates: Option<String>,
    pub target_coordinates: Option<String>,
    pub report_time: Option<i64>,
}

pub struct HostileSpyingQuery {
    pub search: Option<String>,
    pub page: i64,
}

pub struct HostileSpyingOverviewQuery {
    pub attacker: Option<String>,
    pub target: Option<String>,
    pub time_from: Option<i64>,
    pub time_to: Option<i64>,
    pub page: i64,
}

// Messages

pub struct CheckMessagesRequest {
    pub message_ids: Vec<i64>,
}

// Admin

pub struct CreateUserRequest {
    pub player_id: Option<i64>,
    pub player_name: Option<String>,
    pub alliance_id: Option<i64>,
}

pub struct UpdateRoleRequest {
    pub role: String,
}

pub struct ApiKeyResponse {
    pub api_key: String,
}

pub struct UpdateConfigRequest {
    pub galaxies: Option<i64>,
    pub systems: Option<i64>,
    pub galaxy_wrapped: Option<bool>,
}

} // verus!
