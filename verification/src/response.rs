//! The wire shapes served to clients and accepted from the scraper, and
//! the conversions from stored rows.  Timestamps travel as unix seconds;
//! the dynamically shaped maps travel as typed count mappings.

use vstd::prelude::*;
use vstd::string::StringExecFns;
use crate::aggregate::ActivityStats;
use crate::models::{
    clone_opt_count_map, opt_map_view, CountMap, Planet, PlanetType, ScoreSnapshot, ScoresInfo,
};
use crate::textutil::{coords_string, coordinates_text};

verus! {

// ===========================================================================
// Players
// ===========================================================================

pub struct AllianceInfo {
    pub id: i64,
    pub name: String,
    pub tag: String,
}

pub struct CombatStats {
    pub total: i64,
    pub won: i64,
    pub draw: i64,
    pub lost: i64,
    pub units_shot: i64,
    pub units_lost: i64,
}

pub struct PlayerStatus {
    pub is_deleted: bool,
    pub inactive_since: Option<i64>,
    pub vacation_since: Option<i64>,
}

pub struct PlayerResponse {
    pub id: i64,
    pub name: String,
    pub alliance: Option<AllianceInfo>,
    pub main_coordinates: Option<String>,
    pub research: Option<CountMap>,
    pub scores: Option<ScoresInfo>,
    pub combat_stats: CombatStats,
    pub status: PlayerStatus,
}

// ===========================================================================
// Planets
// ===========================================================================

pub struct PlanetResponse {
    pub id: i64,
    pub coordinates: String,
    pub kind: String,
    pub buildings: Option<CountMap>,
    pub fleet: Option<CountMap>,
    pub defense: Option<CountMap>,
    pub resources: Option<CountMap>,
}

/// Converts a stored planet row to its wire shape: the coordinate triple
/// serialized, the kind spelled out, the four state maps carried over.
pub fn planet_to_response(p: &Planet) -> (r: PlanetResponse)
    ensures
        r.id == p.id,
        r.coordinates@ == coords_string(p.galaxy as int, p.system as int, p.position as int),
        p.kind == PlanetType::Planet ==> r.kind@ == "PLANET"@,
        p.kind == PlanetType::Moon ==> r.kind@ == "MOON"@,
        opt_map_view(r.buildings) == opt_map_view(p.buildings),
        opt_map_view(r.fleet) == opt_map_view(p.fleet),
        opt_map_view(r.defense) == opt_map_view(p.defense),
        opt_map_view(r.resources) == opt_map_view(p.resources),
{
    PlanetResponse {
        id: p.id,
        coordinates: coordinates_text(p.galaxy, p.system, p.position),
        kind: (match p.kind {
            PlanetType::Planet => String::from_str("PLANET"),
            PlanetType::Moon => String::from_str("MOON"),
        }),
        buildings: clone_opt_count_map(&p.buildings),
        fleet: clone_opt_count_map(&p.fleet),
        defense: clone_opt_count_map(&p.defense),
        resources: clone_opt_count_map(&p.resources),
    }
}

// ===========================================================================
// Charts
// ===========================================================================

pub struct ChartPoint {
    pub recorded_at: i64,
    pub score_total: i64,
    pub score_economy: i64,
    pub score_research: i64,
    pub score_military: i64,
    pub score_defense: i64,
}

pub struct ChartResponse {
    pub scores: Vec<ChartPoint>,
}

/// Converts one score history record to a chart point.
pub fn score_to_chart_point(s: &ScoreSnapshot) -> (r: ChartPoint)
    ensures
        r.recorded_at == s.recorded_at,
        r.score_total == s.score_total,
        r.score_economy == s.score_economy,
        r.score_research == s.score_research,
        r.score_military == s.score_military,
        r.score_defense == s.score_defense,
{
    ChartPoint {
        recorded_at: s.recorded_at,
        score_total: s.score_total,
        score_economy: s.score_economy,
        score_research: s.score_research,
        score_military: s.score_military,
        score_defense: s.score_defense,
    }
}

// ===========================================================================
// Galaxy
// ===========================================================================

pub struct GalaxyPlanetInfo {
    pub id: i64,
    pub name: Option<String>,
    pub player_id: i64,
    pub coordinates: String,
    pub planet: i64,
    pub kind: String,
    pub planet_id: Option<i64>,
}

pub struct GalaxySpyReport {
    pub planet: i64,
    pub kind: String,
    pub resources: Option<CountMap>,
    pub report_time: Option<i64>,
    pub created_at: Option<i64>,
}

pub struct GalaxySystemResponse {
    pub planets: Vec<GalaxyPlanetInfo>,
    pub spy_reports: Vec<GalaxySpyReport>,
    pub last_scan_at: Option<i64>,
}

// ===========================================================================
// Hub
// ===========================================================================

pub struct HubPlanetInfo {
    pub player_id: i64,
    pub player_name: String,
    pub coordinates: String,
    pub buildings: Option<CountMap>,
    pub points: i64,
}

pub struct HubPlanetsResponse {
    pub planets: Vec<HubPlanetInfo>,
}

pub struct HubResearchInfo {
    pub id: i64,
    pub name: String,
    pub research: Option<CountMap>,
}

pub struct HubResearchResponse {
    pub players: Vec<HubResearchInfo>,
}

pub struct MaxResearchInfo {
    pub max_level: i64,
    pub player_name: String,
}

pub struct HubMaxResearchResponse {
    pub research: Vec<(u64, MaxResearchInfo)>,
}

pub struct HubFleetInfo {
    pub id: i64,
    pub name: String,
    pub fleet: CountMap,
    pub score_fleet: Option<i64>,
}

pub struct HubFleetResponse {
    pub players: Vec<HubFleetInfo>,
    pub total: CountMap,
}

pub struct GalaxySystemInfo {
    pub galaxy: i64,
    pub system: i64,
    pub last_scan_at: Option<i64>,
    pub age_hours: Option<i64>,
}

pub struct HubGalaxyResponse {
    pub systems: Vec<GalaxySystemInfo>,
}

pub struct StatViewInfo {
    pub stat_type: String,
    pub last_sync_at: Option<i64>,
    pub is_synced: bool,
}

pub struct HubStatViewResponse {
    pub stat_views: Vec<StatViewInfo>,
}

pub struct HubScoresResponse {
    pub scores: Vec<ChartPoint>,
}

pub struct MaxBuildingInfo {
    pub max_level: i64,
    pub player_name: String,
}

pub struct HubBuildingsResponse {
    pub buildings: Vec<(u64, MaxBuildingInfo)>,
}

pub struct HubConfigResponse {
    pub galaxies: i64,
    pub systems: i64,
    pub galaxy_wrapped: bool,
}

pub struct OwnStats {
    pub expos: ActivityStats,
    pub raids: ActivityStats,
    pub recycling: ActivityStats,
}

pub struct PlayerStats {
    pub id: i64,
    pub name: String,
    pub expos: ActivityStats,
    pub raids: ActivityStats,
    pub recycling: ActivityStats,
}

pub struct HubStatsResponse {
    pub own_stats: OwnStats,
    pub alliance_stats: Option<Vec<PlayerStats>>,
}

pub struct HubOverviewPlanet {
    pub id: i64,
    pub planet_id: Option<i64>,
    pub coordinates: String,
    pub galaxy: i64,
    pub system: i64,
    pub planet: i64,
    pub player_id: i64,
    pub player_name: String,
    pub alliance_id: Option<i64>,
    pub alliance_tag: Option<String>,
    pub notice: Option<String>,
    pub score_total: Option<i64>,
    pub score_buildings: Option<i64>,
    pub score_research: Option<i64>,
    pub score_fleet: Option<i64>,
    pub score_defense: Option<i64>,
    pub diff06: Option<i64>,
    pub diff12: Option<i64>,
    pub diff18: Option<i64>,
    pub diff24: Option<i64>,
    pub inactive_since: Option<i64>,
    pub vacation_since: Option<i64>,
    pub last_spy_report: Option<i64>,
    pub last_battle_report: Option<i64>,
    pub spy_metal: Option<i64>,
    pub spy_crystal: Option<i64>,
    pub spy_deuterium: Option<i64>,
}

pub struct HubOverviewResponse {
    pub planets: Vec<HubOverviewPlanet>,
}

// ===========================================================================
// Reports
// ===========================================================================

pub struct SpyReportInfo {
    pub id: i64,
    pub created_at: i64,
    pub resources: Option<CountMap>,
    pub buildings: Option<CountMap>,
    pub research: Option<CountMap>,
    pub fleet: Option<CountMap>,
    pub defense: Option<CountMap>,
}

pub struct SpyReportsResponse {
    pub coordinates: String,
    pub kind: String,
    pub reports: Vec<SpyReportInfo>,
}

pub struct SpyReportHistoryItem {
    pub id: i64,
    pub created_at: i64,
    pub reporter_name: Option<String>,
    pub resources: Option<CountMap>,
    pub buildings: Option<CountMap>,
    pub research: Option<CountMap>,
    pub fleet: Option<CountMap>,
    pub defense: Option<CountMap>,
}

pub struct SpyReportHistoryResponse {
    pub coordinates: String,
    pub kind: String,
    pub reports: Vec<SpyReportHistoryItem>,
}

pub struct BattleReportHistoryItem {
    pub id: i64,
    pub report_id: String,
    pub created_at: i64,
    pub reporter_name: Option<String>,
    pub attacker_lost: i64,
    pub defender_lost: i64,
    pub metal: i64,
    pub crystal: i64,
    pub deuterium: i64,
    pub debris_metal: i64,
    pub debris_crystal: i64,
}

pub struct BattleReportHistoryResponse {
    pub coordinates: String,
    pub reports: Vec<BattleReportHistoryItem>,
}

pub struct HostileSpyingInfo {
    pub id: i64,
    pub attacker_coordinates: Option<String>,
    pub target_coordinates: Option<String>,
    pub report_time: Option<i64>,
}

pub struct HostileSpyingResponse {
    pub data: Vec<HostileSpyingInfo>,
    pub page: i64,
    pub total_pages: i64,
}

pub struct HostileSpyingOverviewInfo {
    pub attacker_coordinates: String,
    pub attacker_name: Option<String>,
    pub attacker_alliance_tag: Option<String>,
    pub spy_count: i64,
    pub last_spy_time: Option<i64>,
    pub targets: Vec<String>,
}

pub struct HostileSpyingOverviewResponse {
    pub data: Vec<HostileSpyingOverviewInfo>,
    pub page: i64,
    pub total_pages: i64,
}

// ===========================================================================
// Generic, login, player data
// ===========================================================================

pub struct SuccessResponse {
    pub success: bool,
}

pub struct MessageCheckResponse {
    pub new_ids: Vec<i64>,
}

pub struct LoginUserInfo {
    pub id: i64,
    pub player_id: Option<i64>,
    pub alliance_id: Option<i64>,
    pub language: String,
}

pub struct LoginResponse {
    pub success: bool,
    pub user: LoginUserInfo,
}

pub struct PlayerDataResponse {
    pub player: Option<PlayerResponse>,
    pub planets: Vec<PlanetResponse>,
    pub research: Option<CountMap>,
}

pub struct PlayersStatsResponse {
    pub success: bool,
    pub updated: u64,
}

pub struct ResearchResponse {
    pub success: bool,
    pub research: CountMap,
}

pub struct PlanetsNewResponse {
    pub success: bool,
    pub created: i64,
    pub deleted: i64,
}

// ===========================================================================
// Overview
// ===========================================================================

pub struct OverviewPlayerInfo {
    pub id: i64,
    pub name: String,
}

pub struct OverviewSpyReport {
    pub id: i64,
    pub created_at: i64,
    pub resources: Option<CountMap>,
}

pub struct OverviewPlanetInfo {
    pub coordinates: String,
    pub distance: i64,
    pub player: Option<OverviewPlayerInfo>,
    pub last_spy_report: Option<OverviewSpyReport>,
    pub resources: Option<CountMap>,
}

pub struct OverviewResponse {
    pub planets: Vec<OverviewPlanetInfo>,
}

// ===========================================================================
// Admin
// ===========================================================================

pub struct AdminUserInfo {
    pub id: i64,
    pub player_id: Option<i64>,
    pub player_name: Option<String>,
    pub alliance_id: Option<i64>,
    pub alliance_name: Option<String>,
    pub language: String,
    pub role: String,
    pub last_activity_at: Option<i64>,
    pub created_at: Option<i64>,
}

pub struct AdminUsersResponse {
    pub users: Vec<AdminUserInfo>,
}

pub struct AdminUserCreatedResponse {
    pub success: bool,
    pub user_id: i64,
    pub api_key: String,
}

pub struct AdminCheckResponse {
    pub is_admin: bool,
}

} // verus!
