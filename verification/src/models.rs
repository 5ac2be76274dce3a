//! The canonical entities of the reconciled universe model.
//!
//! All timestamps are unix seconds (UTC).  The dynamically shaped
//! buildings/fleet/defense/resources objects of the snapshot payloads are
//! modelled as explicit mappings from a numeric identifier to an integer
//! count (`CountMap`), not as free-form encoded text.

use vstd::prelude::*;

verus! {

/// Lifecycle status of a planet or moon row.
#[derive(Clone, Copy, Debug, PartialEq, Eq, Structural)]
pub enum Status {
    New,
    Seen,
    Deleted,
}

/// Kind of a body occupying a position: at most one of each per position.
#[derive(Clone, Copy, Debug, PartialEq, Eq, Structural)]
pub enum PlanetType {
    Planet,
    Moon,
}

/// Access-control role of an API user.
#[derive(Clone, Copy, Debug, PartialEq, Eq, Structural)]
pub enum UserRole {
    Admin,
    User,
}

impl UserRole {
    /// The storage and wire spelling of the role.
    pub fn as_str(&self) -> (r: &'static str)
        ensures
            *self == UserRole::Admin ==> r@ == "admin"@,
            *self == UserRole::User ==> r@ == "user"@,
    {
        match self {
            UserRole::Admin => "admin",
            UserRole::User => "user",
        }
    }
}

impl Default for UserRole {
    fn default() -> (r: Self)
        ensures
            r == UserRole::User,
    {
        UserRole::User
    }
}

/// One coordinate triple addressing a location in the universe.
#[derive(Clone, Copy, Debug, PartialEq, Eq, Structural)]
pub struct Coordinates {
    pub galaxy: u8,
    pub system: u16,
    pub planet: u8,
}

impl Coordinates {
    pub fn new(galaxy: u8, system: u16, planet: u8) -> (r: Self)
        ensures
            r.galaxy == galaxy && r.system == system && r.planet == planet,
    {
        Self { galaxy, system, planet }
    }
}

/// One entry of a typed count mapping (tech, building, ship or defense id
/// to level or count; resource id to amount).
#[derive(Clone, Copy, Debug, PartialEq, Eq, Structural)]
pub struct CountEntry {
    pub id: u64,
    pub n: i64,
}

/// A typed mapping from a numeric identifier to an integer count.
pub type CountMap = Vec<CountEntry>;

/// The value that `m` assigns to `id`, if any (first entry wins).
pub open spec fn count_of(m: Seq<CountEntry>, id: u64) -> Option<i64>
    decreases m.len(),
{
    if m.len() == 0 {
        None
    } else if m[0].id == id {
        Some(m[0].n)
    } else {
        count_of(m.skip(1), id)
    }
}

/// Looks up `id` in a count mapping; the first entry with that id wins.
pub fn count_map_get(m: &CountMap, id: u64) -> (r: Option<i64>)
    ensures
        r == count_of(m@, id),
{
    let mut i: usize = 0;
    proof {
        assert(m@.skip(0) =~= m@);
    }
    while i < m.len()
        invariant
            0 <= i <= m@.len(),
            count_of(m@, id) == count_of(m@.skip(i as int), id),
        decreases m@.len() - i,
    {
        proof {
            assert(m@.skip(i as int)[0] == m@[i as int]);
            assert(m@.skip(i as int).skip(1) =~= m@.skip(i + 1));
        }
        if m[i].id == id {
            return Some(m[i].n);
        }
        i = i + 1;
    }
    proof {
        assert(m@.skip(i as int) =~= Seq::<CountEntry>::empty());
    }
    None
}

/// The five score categories of a statistics page, with their ranks.
#[derive(Clone, Copy, Debug, PartialEq, Eq, Structural)]
pub struct ScoresInfo {
    pub total: i64,
    pub economy: i64,
    pub research: i64,
    pub military: i64,
    pub defense: i64,
}

/// Clones a vector of copyable entries; the view is kept exactly.
pub fn clone_vec_copy<T: Copy>(v: &Vec<T>) -> (r: Vec<T>)
    ensures
        r@ == v@,
{
    let mut r: Vec<T> = Vec::new();
    let mut i: usize = 0;
    while i < v.len()
        invariant
            0 <= i <= v@.len(),
            r@ == v@.take(i as int),
        decreases v@.len() - i,
    {
        r.push(v[i]);
        proof {
            assert(v@.take(i + 1) =~= v@.take(i as int).push(v@[i as int]));
        }
        i = i + 1;
    }
    proof {
        assert(v@.take(v@.len() as int) =~= v@);
    }
    r
}

/// Clones an optional count mapping; the view is kept exactly.
pub fn clone_opt_count_map(m: &Option<CountMap>) -> (r: Option<CountMap>)
    ensures
        opt_map_view(r) == opt_map_view(*m),
{
    match m {
        Some(v) => Some(clone_vec_copy(v)),
        None => None,
    }
}

/// Clones an optional string; both the value and the view are kept.
pub fn clone_opt_string(o: &Option<String>) -> (r: Option<String>)
    ensures
        r == *o,
{
    match o {
        Some(s) => Some(s.clone()),
        None => None,
    }
}

/// The deep (view-level) value of an optional string.
pub open spec fn opt_str_view(o: Option<String>) -> Option<Seq<char>> {
    match o {
        Some(s) => Some(s@),
        None => None,
    }
}

/// The deep (view-level) value of an optional count mapping.
pub open spec fn opt_map_view(o: Option<CountMap>) -> Option<Seq<CountEntry>> {
    match o {
        Some(m) => Some(m@),
        None => None,
    }
}

// ===========================================================================
// Alliances
// ===========================================================================

/// An alliance row: created lazily the first time any source supplies an
/// id and tag; the tag is the most reliable field from scans.
pub struct Alliance {
    pub id: i64,
    pub name: String,
    pub tag: String,
    pub created_at: i64,
    pub updated_at: i64,
}

/// Mathematical value of an alliance row.
#[verifier::ext_equal]
pub ghost struct AllianceModel {
    pub id: i64,
    pub name: Seq<char>,
    pub tag: Seq<char>,
    pub created_at: i64,
    pub updated_at: i64,
}

impl View for Alliance {
    type V = AllianceModel;

    open spec fn view(&self) -> AllianceModel {
        AllianceModel {
            id: self.id,
            name: self.name@,
            tag: self.tag@,
            created_at: self.created_at,
            updated_at: self.updated_at,
        }
    }
}

// ===========================================================================
// Players
// ===========================================================================

/// A player row: created on first sighting, never hard-deleted.
pub struct Player {
    pub id: i64,
    pub name: String,
    pub alliance_id: Option<i64>,
    pub main_coordinates: Option<String>,
    pub is_deleted: bool,
    pub inactive_since: Option<i64>,
    pub vacation_since: Option<i64>,
    pub research: Option<CountMap>,
    pub scores: Option<ScoresInfo>,
    pub notice: Option<String>,
    pub combats_total: i64,
    pub combats_won: i64,
    pub combats_draw: i64,
    pub combats_lost: i64,
    pub units_shot: i64,
    pub units_lost: i64,
    pub score_buildings: Option<i64>,
    pub score_buildings_rank: Option<i64>,
    pub score_research: Option<i64>,
    pub score_research_rank: Option<i64>,
    pub score_fleet: Option<i64>,
    pub score_fleet_rank: Option<i64>,
    pub score_defense: Option<i64>,
    pub score_defense_rank: Option<i64>,
    pub score_total: Option<i64>,
    pub score_total_rank: Option<i64>,
    pub honorpoints: Option<i64>,
    pub honorpoints_rank: Option<i64>,
    pub fights_honorable: Option<i64>,
    pub fights_dishonorable: Option<i64>,
    pub fights_neutral: Option<i64>,
    pub destruction_units_killed: Option<i64>,
    pub destruction_units_lost: Option<i64>,
    pub destruction_recycled_metal: Option<i64>,
    pub destruction_recycled_crystal: Option<i64>,
    pub real_destruction_units_killed: Option<i64>,
    pub real_destruction_units_lost: Option<i64>,
    pub real_destruction_recycled_metal: Option<i64>,
    pub real_destruction_recycled_crystal: Option<i64>,
    pub created_at: i64,
    pub updated_at: i64,
}

/// Mathematical value of a player row.
#[verifier::ext_equal]
pub ghost struct PlayerModel {
    pub id: i64,
    pub name: Seq<char>,
    pub alliance_id: Option<i64>,
    pub main_coordinates: Option<Seq<char>>,
    pub is_deleted: bool,
    pub inactive_since: Option<i64>,
    pub vacation_since: Option<i64>,
    pub research: Option<Seq<CountEntry>>,
    pub scores: Option<ScoresInfo>,
    pub notice: Option<Seq<char>>,
    pub combats_total: i64,
    pub combats_won: i64,
    pub combats_draw: i64,
    pub combats_lost: i64,
    pub units_shot: i64,
    pub units_lost: i64,
    pub score_buildings: Option<i64>,
    pub score_buildings_rank: Option<i64>,
    pub score_research: Option<i64>,
    pub score_research_rank: Option<i64>,
    pub score_fleet: Option<i64>,
    pub score_fleet_rank: Option<i64>,
    pub score_defense: Option<i64>,
    pub score_defense_rank: Option<i64>,
    pub score_total: Option<i64>,
    pub score_total_rank: Option<i64>,
    pub honorpoints: Option<i64>,
    pub honorpoints_rank: Option<i64>,
    pub fights_honorable: Option<i64>,
    pub fights_dishonorable: Option<i64>,
    pub fights_neutral: Option<i64>,
    pub destruction_units_killed: Option<i64>,
    pub destruction_units_lost: Option<i64>,
    pub destruction_recycled_metal: Option<i64>,
    pub destruction_recycled_crystal: Option<i64>,
    pub real_destruction_units_killed: Option<i64>,
    pub real_destruction_units_lost: Option<i64>,
    pub real_destruction_recycled_metal: Option<i64>,
    pub real_destruction_recycled_crystal: Option<i64>,
    pub created_at: i64,
    pub updated_at: i64,
}

impl View for Player {
    type V = PlayerModel;

    open spec fn view(&self) -> PlayerModel {
        PlayerModel {
            id: self.id,
            name: self.name@,
            alliance_id: self.alliance_id,
            main_coordinates: opt_str_view(self.main_coordinates),
            is_deleted: self.is_deleted,
            inactive_since: self.inactive_since,
            vacation_since: self.vacation_since,
            research: opt_map_view(self.research),
            scores: self.scores,
            notice: opt_str_view(self.notice),
            combats_total: self.combats_total,
            combats_won: self.combats_won,
            combats_draw: self.combats_draw,
            combats_lost: self.combats_lost,
            units_shot: self.units_shot,
            units_lost: self.units_lost,
            score_buildings: self.score_buildings,
            score_buildings_rank: self.score_buildings_rank,
            score_research: self.score_research,
            score_research_rank: self.score_research_rank,
            score_fleet: self.score_fleet,
            score_fleet_rank: self.score_fleet_rank,
            score_defense: self.score_defense,
            score_defense_rank: self.score_defense_rank,
            score_total: self.score_total,
            score_total_rank: self.score_total_rank,
            honorpoints: self.honorpoints,
            honorpoints_rank: self.honorpoints_rank,
            fights_honorable: self.fights_honorable,
            fights_dishonorable: self.fights_dishonorable,
            fights_neutral: self.fights_neutral,
            destruction_units_killed: self.destruction_units_killed,
            destruction_units_lost: self.destruction_units_lost,
            destruction_recycled_metal: self.destruction_recycled_metal,
            destruction_recycled_crystal: self.destruction_recycled_crystal,
            real_destruction_units_killed: self.real_destruction_units_killed,
            real_destruction_units_lost: self.real_destruction_units_lost,
            real_destruction_recycled_metal: self.real_destruction_recycled_metal,
            real_destruction_recycled_crystal: self.real_destruction_recycled_crystal,
            created_at: self.created_at,
            updated_at: self.updated_at,
        }
    }
}

impl PlayerModel {
    /// The minimal row that a first sighting creates.
    pub open spec fn minimal(id: i64, name: Seq<char>, now: i64) -> PlayerModel {
        PlayerModel {
            id,
            name,
            alliance_id: None,
            main_coordinates: None,
            is_deleted: false,
            inactive_since: None,
            vacation_since: None,
            research: None,
            scores: None,
            notice: None,
            combats_total: 0,
            combats_won: 0,
            combats_draw: 0,
            combats_lost: 0,
            units_shot: 0,
            units_lost: 0,
            score_buildings: None,
            score_buildings_rank: None,
            score_research: None,
            score_research_rank: None,
            score_fleet: None,
            score_fleet_rank: None,
            score_defense: None,
            score_defense_rank: None,
            score_total: None,
            score_total_rank: None,
            honorpoints: None,
            honorpoints_rank: None,
            fights_honorable: None,
            fights_dishonorable: None,
            fights_neutral: None,
            destruction_units_killed: None,
            destruction_units_lost: None,
            destruction_recycled_metal: None,
            destruction_recycled_crystal: None,
            real_destruction_units_killed: None,
            real_destruction_units_lost: None,
            real_destruction_recycled_metal: None,
            real_destruction_recycled_crystal: None,
            created_at: now,
            updated_at: now,
        }
    }
}

impl Player {
    /// Builds the minimal row that a first sighting creates.
    pub fn minimal(id: i64, name: String, now: i64) -> (r: Player)
        ensures
            r@ == PlayerModel::minimal(id, name@, now),
    {
        Player {
            id,
            name,
            alliance_id: None,
            main_coordinates: None,
            is_deleted: false,
            inactive_since: None,
            vacation_since: None,
            research: None,
            scores: None,
            notice: None,
            combats_total: 0,
            combats_won: 0,
            combats_draw: 0,
            combats_lost: 0,
            units_shot: 0,
            units_lost: 0,
            score_buildings: None,
            score_buildings_rank: None,
            score_research: None,
            score_research_rank: None,
            score_fleet: None,
            score_fleet_rank: None,
            score_defense: None,
            score_defense_rank: None,
            score_total: None,
            score_total_rank: None,
            honorpoints: None,
            honorpoints_rank: None,
            fights_honorable: None,
            fights_dishonorable: None,
            fights_neutral: None,
            destruction_units_killed: None,
            destruction_units_lost: None,
            destruction_recycled_metal: None,
            destruction_recycled_crystal: None,
            real_destruction_units_killed: None,
            real_destruction_units_lost: None,
            real_destruction_recycled_metal: None,
            real_destruction_recycled_crystal: None,
            created_at: now,
            updated_at: now,
        }
    }
}

// ===========================================================================
// Planets and moons
// ===========================================================================

/// A planet or moon row, uniquely keyed by (galaxy, system, position, kind).
/// Position 0 of a system is the synthetic system marker.
pub struct Planet {
    pub id: i64,
    pub player_id: i64,
    pub galaxy: i64,
    pub system: i64,
    pub position: i64,
    pub kind: PlanetType,
    pub name: Option<String>,
    pub planet_id: Option<i64>,
    pub fields_used: i64,
    pub fields_max: i64,
    pub temperature: i64,
    pub points: i64,
    pub metal_prod_h: i64,
    pub crystal_prod_h: i64,
    pub deut_prod_h: i64,
    pub energy_used: i64,
    pub energy_max: i64,
    pub resources: Option<CountMap>,
    pub buildings: Option<CountMap>,
    pub fleet: Option<CountMap>,
    pub defense: Option<CountMap>,
    pub status: Status,
    pub created_at: i64,
    pub updated_at: i64,
}

/// Mathematical value of a planet row.
#[verifier::ext_equal]
pub ghost struct PlanetModel {
    pub id: i64,
    pub player_id: i64,
    pub galaxy: i64,
    pub system: i64,
    pub position: i64,
    pub kind: PlanetType,
    pub name: Option<Seq<char>>,
    pub planet_id: Option<i64>,
    pub fields_used: i64,
    pub fields_max: i64,
    pub temperature: i64,
    pub points: i64,
    pub metal_prod_h: i64,
    pub crystal_prod_h: i64,
    pub deut_prod_h: i64,
    pub energy_used: i64,
    pub energy_max: i64,
    pub resources: Option<Seq<CountEntry>>,
    pub buildings: Option<Seq<CountEntry>>,
    pub fleet: Option<Seq<CountEntry>>,
    pub defense: Option<Seq<CountEntry>>,
    pub status: Status,
    pub created_at: i64,
    pub updated_at: i64,
}

impl View for Planet {
    type V = PlanetModel;

    open spec fn view(&self) -> PlanetModel {
        PlanetModel {
            id: self.id,
            player_id: self.player_id,
            galaxy: self.galaxy,
            system: self.system,
            position: self.position,
            kind: self.kind,
            name: opt_str_view(self.name),
            planet_id: self.planet_id,
            fields_used: self.fields_used,
            fields_max: self.fields_max,
            temperature: self.temperature,
            points: self.points,
            metal_prod_h: self.metal_prod_h,
            crystal_prod_h: self.crystal_prod_h,
            deut_prod_h: self.deut_prod_h,
            energy_used: self.energy_used,
            energy_max: self.energy_max,
            resources: opt_map_view(self.resources),
            buildings: opt_map_view(self.buildings),
            fleet: opt_map_view(self.fleet),
            defense: opt_map_view(self.defense),
            status: self.status,
            created_at: self.created_at,
            updated_at: self.updated_at,
        }
    }
}

// ===========================================================================
// Score history
// ===========================================================================

/// One append-only score history record for a player.
#[derive(Clone, Copy, Debug, PartialEq, Eq, Structural)]
pub struct ScoreSnapshot {
    pub player_id: i64,
    pub score_total: i64,
    pub score_economy: i64,
    pub score_research: i64,
    pub score_military: i64,
    pub score_defense: i64,
    pub rank_total: Option<i64>,
    pub recorded_at: i64,
}

// ===========================================================================
// Users
// ===========================================================================

/// An access-control principal: API credential, optional player and
/// alliance links, role and language preference.
pub struct User {
    pub id: i64,
    pub api_key: String,
    pub player_id: Option<i64>,
    pub alliance_id: Option<i64>,
    pub language: String,
    pub role: UserRole,
    pub last_activity_at: Option<i64>,
    pub created_at: i64,
    pub updated_at: i64,
}

/// Mathematical value of a user row.
#[verifier::ext_equal]
pub ghost struct UserModel {
    pub id: i64,
    pub api_key: Seq<char>,
    pub player_id: Option<i64>,
    pub alliance_id: Option<i64>,
    pub language: Seq<char>,
    pub role: UserRole,
    pub last_activity_at: Option<i64>,
    pub created_at: i64,
    pub updated_at: i64,
}

impl View for User {
    type V = UserModel;

    open spec fn view(&self) -> UserModel {
        UserModel {
            id: self.id,
            api_key: self.api_key@,
            player_id: self.player_id,
            alliance_id: self.alliance_id,
            language: self.language@,
            role: self.role,
            last_activity_at: self.last_activity_at,
            created_at: self.created_at,
            updated_at: self.updated_at,
        }
    }
}

// ===========================================================================
// Universe configuration
// ===========================================================================

/// Universe parameters read by the aggregation engine.
#[derive(Clone, Copy, Debug, PartialEq, Eq, Structural)]
pub struct UniverseConfig {
    pub galaxies: i64,
    pub systems: i64,
    pub galaxy_wrapped: bool,
}

impl Default for UniverseConfig {
    /// The defaults assumed when no configuration was stored.
    fn default() -> (r: Self)
        ensures
            r.galaxies == 9 && r.systems == 499 && r.galaxy_wrapped,
    {
        UniverseConfig { galaxies: 9, systems: 499, galaxy_wrapped: true }
    }
}

} // verus!
