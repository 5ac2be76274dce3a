//! The reconciled relational state and the entity resolver.
//!
//! The store holds the canonical tables and guarantees, as its invariant,
//! the identity keys the engine's idempotence rests on: player, alliance and
//! user ids are unique, a position holds at most one planet and at most one
//! moon, report rows are unique per external id, and a planet row never
//! references a player that does not exist.  All writes are expressed as
//! explicit read-then-conditionally-write merge policies over these tables.

use vstd::prelude::*;
use crate::models::{
    Alliance, AllianceModel, CountEntry, CountMap, Planet, PlanetModel, PlanetType, Player,
    PlayerModel, ScoreSnapshot, ScoresInfo, Status, UniverseConfig, User, UserModel, UserRole,
    opt_map_view, opt_str_view,
};
use crate::rowseq::{
    lemma_update_first_found, lemma_update_first_none, lemma_upsert_found,
    lemma_upsert_len, lemma_upsert_none, no_match, update_first, upsert_seq,
};

verus! {

/// The view of a whole table: the sequence of its rows' views.
pub open spec fn views_of<T: View>(s: Seq<T>) -> Seq<T::V> {
    s.map_values(|t: T| t.view())
}

// ===========================================================================
// Reports (rows without text are their own model)
// ===========================================================================

/// A spy report: keyed and deduplicated by its external id.
pub struct SpyReport {
    pub id: i64,
    pub external_id: i64,
    pub galaxy: i64,
    pub system: i64,
    pub position: i64,
    pub kind: PlanetType,
    pub resources: Option<CountMap>,
    pub buildings: Option<CountMap>,
    pub research: Option<CountMap>,
    pub fleet: Option<CountMap>,
    pub defense: Option<CountMap>,
    pub reported_by: Option<i64>,
    pub report_time: Option<i64>,
    pub created_at: i64,
}

/// Mathematical value of a spy report row.
#[verifier::ext_equal]
pub ghost struct SpyReportModel {
    pub id: i64,
    pub external_id: i64,
    pub galaxy: i64,
    pub system: i64,
    pub position: i64,
    pub kind: PlanetType,
    pub resources: Option<Seq<CountEntry>>,
    pub buildings: Option<Seq<CountEntry>>,
    pub research: Option<Seq<CountEntry>>,
    pub fleet: Option<Seq<CountEntry>>,
    pub defense: Option<Seq<CountEntry>>,
    pub reported_by: Option<i64>,
    pub report_time: Option<i64>,
    pub created_at: i64,
}

impl View for SpyReport {
    type V = SpyReportModel;

    open spec fn view(&self) -> SpyReportModel {
        SpyReportModel {
            id: self.id,
            external_id: self.external_id,
            galaxy: self.galaxy,
            system: self.system,
            position: self.position,
            kind: self.kind,
            resources: opt_map_view(self.resources),
            buildings: opt_map_view(self.buildings),
            research: opt_map_view(self.research),
            fleet: opt_map_view(self.fleet),
            defense: opt_map_view(self.defense),
            reported_by: self.reported_by,
            report_time: self.report_time,
            created_at: self.created_at,
        }
    }
}

/// A battle report: keyed and deduplicated by its external id.
#[derive(Clone, Copy, Debug, PartialEq, Eq, Structural)]
pub struct BattleReport {
    pub id: i64,
    pub external_id: i64,
    pub galaxy: i64,
    pub system: i64,
    pub position: i64,
    pub kind: PlanetType,
    pub attacker_lost: i64,
    pub defender_lost: i64,
    pub metal: i64,
    pub crystal: i64,
    pub deuterium: i64,
    pub debris_metal: i64,
    pub debris_crystal: i64,
    pub report_time: Option<i64>,
    pub reported_by: Option<i64>,
    pub created_at: i64,
}

impl View for BattleReport {
    type V = BattleReport;

    open spec fn view(&self) -> BattleReport {
        *self
    }
}

/// An expedition report: keyed and deduplicated by its external id.
pub struct ExpeditionReport {
    pub id: i64,
    pub external_id: i64,
    pub message: Option<String>,
    pub outcome: Option<String>,
    pub resources: Option<CountMap>,
    pub fleet: Option<CountMap>,
    pub report_time: Option<i64>,
    pub reported_by: Option<i64>,
    pub created_at: i64,
}

/// Mathematical value of an expedition report row.
#[verifier::ext_equal]
pub ghost struct ExpeditionReportModel {
    pub id: i64,
    pub external_id: i64,
    pub message: Option<Seq<char>>,
    pub outcome: Option<Seq<char>>,
    pub resources: Option<Seq<CountEntry>>,
    pub fleet: Option<Seq<CountEntry>>,
    pub report_time: Option<i64>,
    pub reported_by: Option<i64>,
    pub created_at: i64,
}

impl View for ExpeditionReport {
    type V = ExpeditionReportModel;

    open spec fn view(&self) -> ExpeditionReportModel {
        ExpeditionReportModel {
            id: self.id,
            external_id: self.external_id,
            message: opt_str_view(self.message),
            outcome: opt_str_view(self.outcome),
            resources: opt_map_view(self.resources),
            fleet: opt_map_view(self.fleet),
            report_time: self.report_time,
            reported_by: self.reported_by,
            created_at: self.created_at,
        }
    }
}

/// A recycle report: keyed and deduplicated by its external id.
#[derive(Clone, Copy, Debug, PartialEq, Eq, Structural)]
pub struct RecycleReport {
    pub id: i64,
    pub external_id: i64,
    pub galaxy: i64,
    pub system: i64,
    pub position: i64,
    pub metal: i64,
    pub crystal: i64,
    pub metal_tf: i64,
    pub crystal_tf: i64,
    pub report_time: Option<i64>,
    pub reported_by: Option<i64>,
    pub created_at: i64,
}

impl View for RecycleReport {
    type V = RecycleReport;

    open spec fn view(&self) -> RecycleReport {
        *self
    }
}

/// A hostile-spying record: raw coordinate strings kept for display.
pub struct HostileSpying {
    pub id: i64,
    pub external_id: i64,
    pub attacker_coordinates: Option<String>,
    pub target_coordinates: Option<String>,
    pub report_time: Option<i64>,
    pub created_at: i64,
}

/// Mathematical value of a hostile-spying row.
#[verifier::ext_equal]
pub ghost struct HostileSpyingModel {
    pub id: i64,
    pub external_id: i64,
    pub attacker_coordinates: Option<Seq<char>>,
    pub target_coordinates: Option<Seq<char>>,
    pub report_time: Option<i64>,
    pub created_at: i64,
}

impl View for HostileSpying {
    type V = HostileSpyingModel;

    open spec fn view(&self) -> HostileSpyingModel {
        HostileSpyingModel {
            id: self.id,
            external_id: self.external_id,
            attacker_coordinates: opt_str_view(self.attacker_coordinates),
            target_coordinates: opt_str_view(self.target_coordinates),
            report_time: self.report_time,
            created_at: self.created_at,
        }
    }
}

/// The category of a leaderboard statistics page.
#[derive(Clone, Copy, Debug, PartialEq, Eq, Structural)]
pub enum StatType {
    Total,
    Fleet,
    Research,
    Buildings,
    Defense,
    Honor,
}

/// One tracked periodic-sync kind with its last sync time.
#[derive(Clone, Copy, Debug, PartialEq, Eq, Structural)]
pub struct StatView {
    pub stat_type: StatType,
    pub last_sync_at: Option<i64>,
    pub synced_by: Option<i64>,
}

// ===========================================================================
// The store
// ===========================================================================

/// The whole reconciled state.
pub struct Store {
    pub players: Vec<Player>,
    pub alliances: Vec<Alliance>,
    pub planets: Vec<Planet>,
    pub next_planet_id: i64,
    pub score_history: Vec<ScoreSnapshot>,
    pub spy_reports: Vec<SpyReport>,
    pub battle_reports: Vec<BattleReport>,
    pub expedition_reports: Vec<ExpeditionReport>,
    pub recycle_reports: Vec<RecycleReport>,
    pub hostile_spying: Vec<HostileSpying>,
    pub next_report_id: i64,
    pub users: Vec<User>,
    pub next_user_id: i64,
    pub messages: Vec<i64>,
    pub config: UniverseConfig,
    pub stat_views: Vec<StatView>,
}

/// Mathematical value of the whole store.
#[verifier::ext_equal]
pub ghost struct StoreModel {
    pub players: Seq<PlayerModel>,
    pub alliances: Seq<AllianceModel>,
    pub planets: Seq<PlanetModel>,
    pub next_planet_id: i64,
    pub score_history: Seq<ScoreSnapshot>,
    pub spy_reports: Seq<SpyReportModel>,
    pub battle_reports: Seq<BattleReport>,
    pub expedition_reports: Seq<ExpeditionReportModel>,
    pub recycle_reports: Seq<RecycleReport>,
    pub hostile_spying: Seq<HostileSpyingModel>,
    pub next_report_id: i64,
    pub users: Seq<UserModel>,
    pub next_user_id: i64,
    pub messages: Seq<i64>,
    pub config: UniverseConfig,
    pub stat_views: Seq<StatView>,
}

impl View for Store {
    type V = StoreModel;

    open spec fn view(&self) -> StoreModel {
        StoreModel {
            players: views_of(self.players@),
            alliances: views_of(self.alliances@),
            planets: views_of(self.planets@),
            next_planet_id: self.next_planet_id,
            score_history: self.score_history@,
            spy_reports: views_of(self.spy_reports@),
            battle_reports: self.battle_reports@,
            expedition_reports: views_of(self.expedition_reports@),
            recycle_reports: self.recycle_reports@,
            hostile_spying: views_of(self.hostile_spying@),
            next_report_id: self.next_report_id,
            users: views_of(self.users@),
            next_user_id: self.next_user_id,
            messages: self.messages@,
            config: self.config,
            stat_views: self.stat_views@,
        }
    }
}

// ===========================================================================
// Keys
// ===========================================================================

/// Key predicate: the player with a given id.
pub open spec fn player_key(id: i64) -> spec_fn(PlayerModel) -> bool {
    |p: PlayerModel| p.id == id
}

/// Key predicate: the alliance with a given id.
pub open spec fn alliance_key(id: i64) -> spec_fn(AllianceModel) -> bool {
    |a: AllianceModel| a.id == id
}

/// Key predicate: the body at (galaxy, system, position) of the given kind.
pub open spec fn planet_key(g: i64, s: i64, pos: i64, kind: PlanetType) -> spec_fn(PlanetModel) -> bool {
    |p: PlanetModel| p.galaxy == g && p.system == s && p.position == pos && p.kind == kind
}

/// Key predicate: the user with a given id.
pub open spec fn user_key(id: i64) -> spec_fn(UserModel) -> bool {
    |u: UserModel| u.id == id
}

impl StoreModel {
    /// Some player row carries this id.
    pub open spec fn has_player(self, id: i64) -> bool {
        exists|i: int| 0 <= i < self.players.len() && self.players[i].id == id
    }

    /// Some alliance row carries this id.
    pub open spec fn has_alliance(self, id: i64) -> bool {
        exists|i: int| 0 <= i < self.alliances.len() && self.alliances[i].id == id
    }

    /// Some body occupies (galaxy, system, position) with the given kind.
    pub open spec fn has_planet(self, g: i64, s: i64, pos: i64, kind: PlanetType) -> bool {
        exists|i: int|
            0 <= i < self.planets.len() && planet_key(g, s, pos, kind)(self.planets[i])
    }

    /// Player ids are unique.
    pub open spec fn players_unique(self) -> bool {
        forall|i: int, j: int|
            0 <= i < j < self.players.len() ==> self.players[i].id != self.players[j].id
    }

    /// Alliance ids are unique.
    pub open spec fn alliances_unique(self) -> bool {
        forall|i: int, j: int|
            0 <= i < j < self.alliances.len() ==> self.alliances[i].id != self.alliances[j].id
    }

    /// A position holds at most one planet and at most one moon, and the
    /// rows' own ids are unique and below the id counter.
    pub open spec fn planets_unique(self) -> bool {
        &&& forall|i: int, j: int|
            0 <= i < j < self.planets.len() ==> !(self.planets[i].galaxy == self.planets[j].galaxy
                && self.planets[i].system == self.planets[j].system && self.planets[i].position
                == self.planets[j].position && self.planets[i].kind == self.planets[j].kind)
        &&& forall|i: int, j: int|
            0 <= i < j < self.planets.len() ==> self.planets[i].id != self.planets[j].id
        &&& forall|i: int| 0 <= i < self.planets.len() ==> #[trigger] self.planets[i].id < self.next_planet_id
        &&& 0 < self.next_planet_id
    }

    /// A planet row never references a nonexistent player, and a player's
    /// alliance link never references a nonexistent alliance.
    pub open spec fn foreign_keys_ok(self) -> bool {
        &&& forall|i: int|
            0 <= i < self.planets.len() ==> self.has_player(#[trigger] self.planets[i].player_id)
        &&& forall|i: int|
            0 <= i < self.players.len() ==> match #[trigger] self.players[i].alliance_id {
                Some(a) => self.has_alliance(a),
                None => true,
            }
    }

    /// User ids are unique and below the id counter.
    pub open spec fn users_unique(self) -> bool {
        &&& forall|i: int, j: int|
            0 <= i < j < self.users.len() ==> self.users[i].id != self.users[j].id
        &&& forall|i: int| 0 <= i < self.users.len() ==> #[trigger] self.users[i].id < self.next_user_id
        &&& 0 < self.next_user_id
    }

    /// Report rows are unique per external id, separately per report kind.
    pub open spec fn reports_unique(self) -> bool {
        &&& forall|i: int, j: int|
            0 <= i < j < self.spy_reports.len() ==> self.spy_reports[i].external_id
                != self.spy_reports[j].external_id
        &&& forall|i: int, j: int|
            0 <= i < j < self.battle_reports.len() ==> self.battle_reports[i].external_id
                != self.battle_reports[j].external_id
        &&& forall|i: int, j: int|
            0 <= i < j < self.expedition_reports.len() ==> self.expedition_reports[i].external_id
                != self.expedition_reports[j].external_id
        &&& forall|i: int, j: int|
            0 <= i < j < self.recycle_reports.len() ==> self.recycle_reports[i].external_id
                != self.recycle_reports[j].external_id
        &&& forall|i: int, j: int|
            0 <= i < j < self.hostile_spying.len() ==> self.hostile_spying[i].external_id
                != self.hostile_spying[j].external_id
    }

    /// Observed message ids are recorded at most once.
    pub open spec fn messages_unique(self) -> bool {
        forall|i: int, j: int|
            0 <= i < j < self.messages.len() ==> self.messages[i] != self.messages[j]
    }

    /// Tracked periodic-sync kinds are recorded at most once.
    pub open spec fn stat_views_unique(self) -> bool {
        forall|i: int, j: int|
            0 <= i < j < self.stat_views.len() ==> self.stat_views[i].stat_type
                != self.stat_views[j].stat_type
    }

    /// The store's whole invariant.
    pub open spec fn wf(self) -> bool {
        &&& self.players_unique()
        &&& self.alliances_unique()
        &&& self.planets_unique()
        &&& self.foreign_keys_ok()
        &&& self.users_unique()
        &&& self.reports_unique()
        &&& self.messages_unique()
        &&& self.stat_views_unique()
    }
}

impl Store {
    /// The store's whole invariant.
    pub open spec fn wf(self) -> bool {
        self@.wf()
    }

    /// An empty store, well formed.
    pub fn new() -> (r: Store)
        ensures
            r.wf(),
            r@.players.len() == 0,
            r@.alliances.len() == 0,
            r@.planets.len() == 0,
            r@.score_history.len() == 0,
            r@.spy_reports.len() == 0,
            r@.battle_reports.len() == 0,
            r@.expedition_reports.len() == 0,
            r@.recycle_reports.len() == 0,
            r@.hostile_spying.len() == 0,
            r@.users.len() == 0,
            r@.messages.len() == 0,
            r@.stat_views.len() == 0,
            r@.config == (UniverseConfig { galaxies: 9, systems: 499, galaxy_wrapped: true }),
    {
        Store {
            players: Vec::new(),
            alliances: Vec::new(),
            planets: Vec::new(),
            next_planet_id: 1,
            score_history: Vec::new(),
            spy_reports: Vec::new(),
            battle_reports: Vec::new(),
            expedition_reports: Vec::new(),
            recycle_reports: Vec::new(),
            hostile_spying: Vec::new(),
            next_report_id: 1,
            users: Vec::new(),
            next_user_id: 1,
            messages: Vec::new(),
            config: UniverseConfig { galaxies: 9, systems: 499, galaxy_wrapped: true },
            stat_views: Vec::new(),
        }
    }

    /// Index of the player row with this id, if any.
    pub fn find_player(&self, id: i64) -> (r: Option<usize>)
        ensures
            (match r {
                Some(i) => i < self@.players.len() && self@.players[i as int].id == id && (forall|
                    j: int| 0 <= j < i ==> self@.players[j].id != id),
                None => !self@.has_player(id),
            }),
    {
        let mut i: usize = 0;
        while i < self.players.len()
            invariant
                i <= self@.players.len(),
                forall|j: int| 0 <= j < i ==> self@.players[j].id != id,
            decreases self.players.len() - i,
        {
            if self.players[i].id == id {
                return Some(i);
            }
            i = i + 1;
        }
        None
    }

    /// Index of the alliance row with this id, if any.
    pub fn find_alliance(&self, id: i64) -> (r: Option<usize>)
        ensures
            (match r {
                Some(i) => i < self@.alliances.len() && self@.alliances[i as int].id == id && (
                forall|j: int| 0 <= j < i ==> self@.alliances[j].id != id),
                None => !self@.has_alliance(id),
            }),
    {
        let mut i: usize = 0;
        while i < self.alliances.len()
            invariant
                i <= self@.alliances.len(),
                forall|j: int| 0 <= j < i ==> self@.alliances[j].id != id,
            decreases self.alliances.len() - i,
        {
            if self.alliances[i].id == id {
                return Some(i);
            }
            i = i + 1;
        }
        None
    }

    /// Index of the body at (galaxy, system, position) of this kind, if any.
    pub fn find_planet(&self, g: i64, s: i64, pos: i64, kind: PlanetType) -> (r: Option<usize>)
        ensures
            (match r {
                Some(i) => i < self@.planets.len() && planet_key(g, s, pos, kind)(
                    self@.planets[i as int],
                ) && (forall|j: int| 0 <= j < i ==> !planet_key(g, s, pos, kind)(self@.planets[j])),
                None => !self@.has_planet(g, s, pos, kind),
            }),
    {
        let mut i: usize = 0;
        while i < self.planets.len()
            invariant
                i <= self@.planets.len(),
                forall|j: int| 0 <= j < i ==> !planet_key(g, s, pos, kind)(self@.planets[j]),
            decreases self.planets.len() - i,
        {
            let p = &self.planets[i];
            if p.galaxy == g && p.system == s && p.position == pos && p.kind == kind {
                return Some(i);
            }
            i = i + 1;
        }
        None
    }
}

// ===========================================================================
// Invariant preservation, one lemma per write shape
// ===========================================================================

/// The invariant is kept when one player row is replaced by a row with the
/// same id whose alliance link points to a known alliance.
pub proof fn lemma_wf_player_update(m: StoreModel, i: int, x: PlayerModel)
    requires
        m.wf(),
        0 <= i < m.players.len(),
        x.id == m.players[i].id,
        (match x.alliance_id {
            Some(a) => m.has_alliance(a),
            None => true,
        }),
    ensures
        (StoreModel { players: m.players.update(i, x), ..m }).wf(),
{
    let m1 = StoreModel { players: m.players.update(i, x), ..m };
    assert forall|k: int| 0 <= k < m1.planets.len() implies m1.has_player(
        #[trigger] m1.planets[k].player_id,
    ) by {
        assert(m.has_player(m.planets[k].player_id));
        let w = choose|w: int|
            0 <= w < m.players.len() && m.players[w].id == m.planets[k].player_id;
        assert(m1.players[w].id == m.planets[k].player_id);
    }
    assert forall|k: int| 0 <= k < m1.players.len() implies (match #[trigger] m1.players[k].alliance_id {
        Some(a) => m1.has_alliance(a),
        None => true,
    }) by {
        if m1.players[k].alliance_id is Some {
            let a = m1.players[k].alliance_id->0;
            if k != i {
                assert(m1.players[k] == m.players[k]);
                assert(match m.players[k].alliance_id {
                    Some(b) => m.has_alliance(b),
                    None => true,
                });
            }
            assert(m.has_alliance(a));
            let w = choose|w: int| 0 <= w < m.alliances.len() && m.alliances[w].id == a;
            assert(m1.alliances[w].id == a);
        }
    }
}

/// The invariant is kept when a player row with an unknown id is appended,
/// its alliance link, if any, pointing to a known alliance.
pub proof fn lemma_wf_player_push(m: StoreModel, x: PlayerModel)
    requires
        m.wf(),
        !m.has_player(x.id),
        (match x.alliance_id {
            Some(a) => m.has_alliance(a),
            None => true,
        }),
    ensures
        (StoreModel { players: m.players.push(x), ..m }).wf(),
{
    let m1 = StoreModel { players: m.players.push(x), ..m };
    assert forall|i: int, j: int| 0 <= i < j < m1.players.len() implies m1.players[i].id
        != m1.players[j].id by {
        if j < m.players.len() {
            assert(m.players[i].id != m.players[j].id);
        } else {
            assert(m1.players[j] == x);
            assert(m1.players[i] == m.players[i]);
        }
    }
    assert forall|k: int| 0 <= k < m1.planets.len() implies m1.has_player(
        #[trigger] m1.planets[k].player_id,
    ) by {
        assert(m.has_player(m.planets[k].player_id));
        let w = choose|w: int|
            0 <= w < m.players.len() && m.players[w].id == m.planets[k].player_id;
        assert(m1.players[w].id == m.planets[k].player_id);
    }
    assert forall|k: int| 0 <= k < m1.players.len() implies (match #[trigger] m1.players[k].alliance_id {
        Some(a) => m1.has_alliance(a),
        None => true,
    }) by {
        if m1.players[k].alliance_id is Some {
            let a = m1.players[k].alliance_id->0;
            if k < m.players.len() {
                assert(match m.players[k].alliance_id {
                    Some(b) => m.has_alliance(b),
                    None => true,
                });
            }
            assert(m.has_alliance(a));
            let w = choose|w: int| 0 <= w < m.alliances.len() && m.alliances[w].id == a;
            assert(m1.alliances[w].id == a);
        }
    }
}

/// The invariant is kept when one alliance row is replaced by a row with
/// the same id.
pub proof fn lemma_wf_alliance_update(m: StoreModel, i: int, x: AllianceModel)
    requires
        m.wf(),
        0 <= i < m.alliances.len(),
        x.id == m.alliances[i].id,
    ensures
        (StoreModel { alliances: m.alliances.update(i, x), ..m }).wf(),
{
    let m1 = StoreModel { alliances: m.alliances.update(i, x), ..m };
    assert forall|k: int| 0 <= k < m1.players.len() implies (match #[trigger] m1.players[k].alliance_id {
        Some(a) => m1.has_alliance(a),
        None => true,
    }) by {
        if m1.players[k].alliance_id is Some {
            let a = m1.players[k].alliance_id->0;
            assert(match m.players[k].alliance_id {
                Some(b) => m.has_alliance(b),
                None => true,
            });
            let w = choose|w: int| 0 <= w < m.alliances.len() && m.alliances[w].id == a;
            assert(m1.alliances[w].id == a);
        }
    }
}

/// The invariant is kept when an alliance row with an unknown id is
/// appended.
pub proof fn lemma_wf_alliance_push(m: StoreModel, x: AllianceModel)
    requires
        m.wf(),
        !m.has_alliance(x.id),
    ensures
        (StoreModel { alliances: m.alliances.push(x), ..m }).wf(),
{
    let m1 = StoreModel { alliances: m.alliances.push(x), ..m };
    assert forall|i: int, j: int| 0 <= i < j < m1.alliances.len() implies m1.alliances[i].id
        != m1.alliances[j].id by {
        if j < m.alliances.len() {
            assert(m.alliances[i].id != m.alliances[j].id);
        } else {
            assert(m1.alliances[j] == x);
            assert(m1.alliances[i] == m.alliances[i]);
        }
    }
    assert forall|k: int| 0 <= k < m1.players.len() implies (match #[trigger] m1.players[k].alliance_id {
        Some(a) => m1.has_alliance(a),
        None => true,
    }) by {
        if m1.players[k].alliance_id is Some {
            let a = m1.players[k].alliance_id->0;
            assert(match m.players[k].alliance_id {
                Some(b) => m.has_alliance(b),
                None => true,
            });
            let w = choose|w: int| 0 <= w < m.alliances.len() && m.alliances[w].id == a;
            assert(m1.alliances[w].id == a);
        }
    }
}

/// The invariant is kept when one planet row is replaced by a row at the
/// same coordinates, of the same kind, with the same row id, owned by a
/// known player.
pub proof fn lemma_wf_planet_update(m: StoreModel, i: int, x: PlanetModel)
    requires
        m.wf(),
        0 <= i < m.planets.len(),
        x.id == m.planets[i].id,
        x.galaxy == m.planets[i].galaxy,
        x.system == m.planets[i].system,
        x.position == m.planets[i].position,
        x.kind == m.planets[i].kind,
        m.has_player(x.player_id),
    ensures
        (StoreModel { planets: m.planets.update(i, x), ..m }).wf(),
{
    let m1 = StoreModel { planets: m.planets.update(i, x), ..m };
    assert forall|k: int, l: int| 0 <= k < l < m1.planets.len() implies !(m1.planets[k].galaxy
        == m1.planets[l].galaxy && m1.planets[k].system == m1.planets[l].system
        && m1.planets[k].position == m1.planets[l].position && m1.planets[k].kind
        == m1.planets[l].kind) by {
        assert(!(m.planets[k].galaxy == m.planets[l].galaxy && m.planets[k].system
            == m.planets[l].system && m.planets[k].position == m.planets[l].position
            && m.planets[k].kind == m.planets[l].kind));
        if k != i {
            assert(m1.planets[k] == m.planets[k]);
        }
        if l != i {
            assert(m1.planets[l] == m.planets[l]);
        }
    }
    assert forall|k: int, l: int| 0 <= k < l < m1.planets.len() implies m1.planets[k].id
        != m1.planets[l].id by {
        assert(m.planets[k].id != m.planets[l].id);
    }
    assert forall|k: int| 0 <= k < m1.planets.len() implies #[trigger] m1.planets[k].id
        < m1.next_planet_id by {
        assert(m.planets[k].id < m.next_planet_id);
    }
    assert forall|k: int| 0 <= k < m1.planets.len() implies m1.has_player(
        #[trigger] m1.planets[k].player_id,
    ) by {
        if k != i {
            assert(m1.planets[k] == m.planets[k]);
        }
        assert(m.has_player(m1.planets[k].player_id));
        let w = choose|w: int|
            0 <= w < m.players.len() && m.players[w].id == m1.planets[k].player_id;
        assert(m1.players[w].id == m1.planets[k].player_id);
    }
    assert forall|k: int| 0 <= k < m1.players.len() implies (match #[trigger] m1.players[k].alliance_id {
        Some(a) => m1.has_alliance(a),
        None => true,
    }) by {
        if m1.players[k].alliance_id is Some {
            let a = m1.players[k].alliance_id->0;
            assert(match m.players[k].alliance_id {
                Some(b) => m.has_alliance(b),
                None => true,
            });
            let w = choose|w: int| 0 <= w < m.alliances.len() && m.alliances[w].id == a;
            assert(m1.alliances[w].id == a);
        }
    }
}

/// The invariant is kept when a planet row at unoccupied coordinates is
/// appended, carrying the next row id and a known owner.
pub proof fn lemma_wf_planet_push(m: StoreModel, x: PlanetModel)
    requires
        m.wf(),
        !m.has_planet(x.galaxy, x.system, x.position, x.kind),
        x.id == m.next_planet_id,
        m.next_planet_id < 0x7fff_ffff_ffff_ffff,
        m.has_player(x.player_id),
    ensures
        (StoreModel {
            planets: m.planets.push(x),
            next_planet_id: (m.next_planet_id + 1) as i64,
            ..m
        }).wf(),
{
    let m1 = StoreModel {
        planets: m.planets.push(x),
        next_planet_id: (m.next_planet_id + 1) as i64,
        ..m
    };
    assert forall|i: int, j: int| 0 <= i < j < m1.planets.len() implies !(m1.planets[i].galaxy
        == m1.planets[j].galaxy && m1.planets[i].system == m1.planets[j].system
        && m1.planets[i].position == m1.planets[j].position && m1.planets[i].kind
        == m1.planets[j].kind) by {
        if j < m.planets.len() {
            assert(!(m.planets[i].galaxy == m.planets[j].galaxy && m.planets[i].system
                == m.planets[j].system && m.planets[i].position == m.planets[j].position
                && m.planets[i].kind == m.planets[j].kind));
        } else {
            assert(m1.planets[j] == x);
            assert(m1.planets[i] == m.planets[i]);
            assert(!planet_key(x.galaxy, x.system, x.position, x.kind)(m.planets[i]));
        }
    }
    assert forall|i: int, j: int| 0 <= i < j < m1.planets.len() implies m1.planets[i].id
        != m1.planets[j].id by {
        if j < m.planets.len() {
            assert(m.planets[i].id != m.planets[j].id);
        } else {
            assert(m1.planets[j] == x);
            assert(m1.planets[i] == m.planets[i]);
            assert(m.planets[i].id < m.next_planet_id);
        }
    }
    assert forall|k: int| 0 <= k < m1.planets.len() implies #[trigger] m1.planets[k].id
        < m1.next_planet_id by {
        if k < m.planets.len() {
            assert(m.planets[k].id < m.next_planet_id);
        }
    }
    assert forall|k: int| 0 <= k < m1.planets.len() implies m1.has_player(
        #[trigger] m1.planets[k].player_id,
    ) by {
        if k < m.planets.len() {
            assert(m1.planets[k] == m.planets[k]);
        }
        assert(m.has_player(m1.planets[k].player_id));
        let w = choose|w: int|
            0 <= w < m.players.len() && m.players[w].id == m1.planets[k].player_id;
        assert(m1.players[w].id == m1.planets[k].player_id);
    }
    assert forall|k: int| 0 <= k < m1.players.len() implies (match #[trigger] m1.players[k].alliance_id {
        Some(a) => m1.has_alliance(a),
        None => true,
    }) by {
        if m1.players[k].alliance_id is Some {
            let a = m1.players[k].alliance_id->0;
            assert(match m.players[k].alliance_id {
                Some(b) => m.has_alliance(b),
                None => true,
            });
            let w = choose|w: int| 0 <= w < m.alliances.len() && m.alliances[w].id == a;
            assert(m1.alliances[w].id == a);
        }
    }
}

// ===========================================================================
// Entity resolver: players and alliances must exist, and be linked, before
// any dependent write
// ===========================================================================

/// What `ensure_player` does: inserts a minimal row if the id is unknown,
/// and never overwrites an existing row.
pub open spec fn ensure_player_spec(m: StoreModel, id: i64, name: Seq<char>, now: i64) -> StoreModel {
    StoreModel {
        players: upsert_seq(
            m.players,
            player_key(id),
            |p: PlayerModel| p,
            PlayerModel::minimal(id, name, now),
        ),
        ..m
    }
}

/// The tag overwrite that `ensure_alliance` applies to a known alliance.
pub open spec fn alliance_merge(tag: Seq<char>, now: i64) -> spec_fn(AllianceModel) -> AllianceModel {
    |a: AllianceModel| AllianceModel { tag: tag, updated_at: now, ..a }
}

/// The row that `ensure_alliance` creates for an unknown alliance: the tag
/// stands in for the name until a richer name is known.
pub open spec fn alliance_fresh(id: i64, tag: Seq<char>, now: i64) -> AllianceModel {
    AllianceModel { id: id, name: tag, tag: tag, created_at: now, updated_at: now }
}

/// What `ensure_alliance` does: inserts (name and tag both set to the tag)
/// if the id is unknown; otherwise overwrites the tag only.
pub open spec fn ensure_alliance_spec(m: StoreModel, id: i64, tag: Seq<char>, now: i64) -> StoreModel {
    StoreModel {
        alliances: upsert_seq(
            m.alliances,
            alliance_key(id),
            alliance_merge(tag, now),
            alliance_fresh(id, tag, now),
        ),
        ..m
    }
}

/// The alliance link written onto a player row.
pub open spec fn link_merge(aid: i64, now: i64) -> spec_fn(PlayerModel) -> PlayerModel {
    |p: PlayerModel| PlayerModel { alliance_id: Some(aid), updated_at: now, ..p }
}

/// What `link_player_alliance` does: sets a player's alliance only if the
/// alliance row already exists; otherwise nothing changes.
pub open spec fn link_player_alliance_spec(m: StoreModel, pid: i64, aid: i64, now: i64) -> StoreModel {
    if m.has_alliance(aid) {
        StoreModel { players: update_first(m.players, player_key(pid), link_merge(aid, now)), ..m }
    } else {
        m
    }
}

impl Store {
    /// Inserts a minimal player row if absent; never overwrites an existing
    /// name.  Idempotent and non-destructive.
    pub fn ensure_player(&mut self, id: i64, name: String, now: i64)
        requires
            old(self).wf(),
        ensures
            final(self).wf(),
            final(self)@ == ensure_player_spec(old(self)@, id, name@, now),
            final(self)@.has_player(id),
    {
        let ghost m0 = self@;
        let ghost keyf = player_key(id);
        let ghost idf = |p: PlayerModel| p;
        let ghost fresh = PlayerModel::minimal(id, name@, now);
        match self.find_player(id) {
            Some(i) => {
                proof {
                    lemma_upsert_found(m0.players, keyf, idf, fresh, i as int);
                    assert(m0.players.update(i as int, m0.players[i as int]) =~= m0.players);
                    assert(self@ =~= ensure_player_spec(m0, id, name@, now));
                    assert(m0.players[i as int].id == id);
                }
            },
            None => {
                let row = Player::minimal(id, name, now);
                proof {
                    assert(no_match(m0.players, keyf));
                    lemma_upsert_none(m0.players, keyf, idf, fresh);
                    lemma_wf_player_push(m0, fresh);
                }
                self.players.push(row);
                proof {
                    assert(views_of(self.players@) =~= m0.players.push(fresh));
                    assert(self@ =~= ensure_player_spec(m0, id, name@, now));
                    assert(self@ =~= (StoreModel { players: m0.players.push(fresh), ..m0 }));
                    assert(self@.players[self@.players.len() - 1].id == id);
                }
            },
        }
    }

    /// Inserts an alliance row if absent (the tag standing in for the
    /// name); on conflict overwrites the tag, the most reliable field.
    pub fn ensure_alliance(&mut self, id: i64, tag: String, now: i64)
        requires
            old(self).wf(),
        ensures
            final(self).wf(),
            final(self)@ == ensure_alliance_spec(old(self)@, id, tag@, now),
            final(self)@.has_alliance(id),
    {
        let ghost m0 = self@;
        let ghost keyf = alliance_key(id);
        let ghost mergef = alliance_merge(tag@, now);
        let ghost fresh = alliance_fresh(id, tag@, now);
        match self.find_alliance(id) {
            Some(i) => {
                let old_row = &self.alliances[i];
                let merged = Alliance {
                    id: old_row.id,
                    name: old_row.name.clone(),
                    tag: tag,
                    created_at: old_row.created_at,
                    updated_at: now,
                };
                proof {
                    assert(merged@ =~~= mergef(m0.alliances[i as int]));
                    lemma_upsert_found(m0.alliances, keyf, mergef, fresh, i as int);
                    lemma_wf_alliance_update(m0, i as int, merged@);
                }
                self.alliances.set(i, merged);
                proof {
                    assert(views_of(self.alliances@) =~= m0.alliances.update(
                        i as int,
                        mergef(m0.alliances[i as int]),
                    ));
                    assert(self@ =~= ensure_alliance_spec(m0, id, tag@, now));
                    assert(self@ =~= (StoreModel {
                        alliances: m0.alliances.update(i as int, mergef(m0.alliances[i as int])),
                        ..m0
                    }));
                    assert(self@.alliances[i as int].id == id);
                }
            },
            None => {
                let row = Alliance {
                    id: id,
                    name: tag.clone(),
                    tag: tag,
                    created_at: now,
                    updated_at: now,
                };
                proof {
                    assert(no_match(m0.alliances, keyf));
                    lemma_upsert_none(m0.alliances, keyf, mergef, fresh);
                    assert(row@ =~~= fresh);
                    lemma_wf_alliance_push(m0, fresh);
                }
                self.alliances.push(row);
                proof {
                    assert(views_of(self.alliances@) =~= m0.alliances.push(fresh));
                    assert(self@ =~= ensure_alliance_spec(m0, id, tag@, now));
                    assert(self@ =~= (StoreModel { alliances: m0.alliances.push(fresh), ..m0 }));
                    assert(self@.alliances[self@.alliances.len() - 1].id == id);
                }
            },
        }
    }

    /// Sets a player's alliance only if the alliance row already exists
    /// (referential-integrity guard); silently does nothing otherwise.
    pub fn link_player_alliance(&mut self, player_id: i64, alliance_id: i64, now: i64)
        requires
            old(self).wf(),
        ensures
            final(self).wf(),
            final(self)@ == link_player_alliance_spec(old(self)@, player_id, alliance_id, now),
    {
        let ghost m0 = self@;
        let ghost keyf = player_key(player_id);
        let ghost mergef = link_merge(alliance_id, now);
        if let Some(ai) = self.find_alliance(alliance_id) {
            proof {
                assert(m0.alliances[ai as int].id == alliance_id);
                assert(m0.has_alliance(alliance_id));
            }
            match self.find_player(player_id) {
                Some(i) => {
                    let old_row = &self.players[i];
                    let mut merged = clone_player(old_row);
                    merged.alliance_id = Some(alliance_id);
                    merged.updated_at = now;
                    proof {
                        assert(merged@ =~~= mergef(m0.players[i as int]));
                        lemma_update_first_found(m0.players, keyf, mergef, i as int);
                        lemma_wf_player_update(m0, i as int, merged@);
                    }
                    self.players.set(i, merged);
                    proof {
                        assert(views_of(self.players@) =~= m0.players.update(
                            i as int,
                            mergef(m0.players[i as int]),
                        ));
                        assert(self@ =~= link_player_alliance_spec(m0, player_id, alliance_id, now));
                        assert(self@ =~= (StoreModel {
                            players: m0.players.update(i as int, mergef(m0.players[i as int])),
                            ..m0
                        }));
                    }
                },
                None => {
                    proof {
                        lemma_update_first_none(m0.players, keyf, mergef);
                        assert(self@ =~= link_player_alliance_spec(m0, player_id, alliance_id, now));
                    }
                },
            }
        } else {
            proof {
                assert(self@ =~= link_player_alliance_spec(m0, player_id, alliance_id, now));
            }
        }
    }
}

// ===========================================================================
// Planet upserts
// ===========================================================================

/// The overwrite a galaxy scan applies to a known body: name and owner come
/// from the scan, a previously known external planet id is preserved when
/// the scan does not supply one.
pub open spec fn scan_planet_merge(
    player_id: i64,
    name: Option<Seq<char>>,
    pid: Option<i64>,
    now: i64,
) -> spec_fn(PlanetModel) -> PlanetModel {
    |p: PlanetModel|
        PlanetModel {
            player_id: player_id,
            name: name,
            planet_id: (match pid {
                Some(x) => Some(x),
                None => p.planet_id,
            }),
            updated_at: now,
            ..p
        }
}

/// The row a galaxy scan creates for a newly seen body.
pub open spec fn scan_planet_fresh(
    row_id: i64,
    player_id: i64,
    g: i64,
    s: i64,
    pos: i64,
    kind: PlanetType,
    name: Option<Seq<char>>,
    pid: Option<i64>,
    now: i64,
) -> PlanetModel {
    PlanetModel {
        id: row_id,
        player_id: player_id,
        galaxy: g,
        system: s,
        position: pos,
        kind: kind,
        name: name,
        planet_id: pid,
        fields_used: 0,
        fields_max: 0,
        temperature: 0,
        points: 0,
        metal_prod_h: 0,
        crystal_prod_h: 0,
        deut_prod_h: 0,
        energy_used: 0,
        energy_max: 0,
        resources: None,
        buildings: None,
        fleet: None,
        defense: None,
        status: Status::New,
        created_at: now,
        updated_at: now,
    }
}

/// What `upsert_planet` does: merge into the body at the key, or append a
/// fresh row and advance the id counter.
pub open spec fn upsert_planet_spec(
    m: StoreModel,
    player_id: i64,
    g: i64,
    s: i64,
    pos: i64,
    kind: PlanetType,
    name: Option<Seq<char>>,
    pid: Option<i64>,
    now: i64,
) -> StoreModel {
    if m.has_planet(g, s, pos, kind) {
        StoreModel {
            planets: update_first(
                m.planets,
                planet_key(g, s, pos, kind),
                scan_planet_merge(player_id, name, pid, now),
            ),
            ..m
        }
    } else {
        StoreModel {
            planets: m.planets.push(
                scan_planet_fresh(m.next_planet_id, player_id, g, s, pos, kind, name, pid, now),
            ),
            next_planet_id: (m.next_planet_id + 1) as i64,
            ..m
        }
    }
}

/// The overwrite that marks a body destroyed: the row is kept for history.
pub open spec fn deleted_merge(now: i64) -> spec_fn(PlanetModel) -> PlanetModel {
    |p: PlanetModel| PlanetModel { status: Status::Deleted, updated_at: now, ..p }
}

/// What `mark_planet_deleted` does: flags the matching row `deleted`
/// without removing it; an unknown key changes nothing.
pub open spec fn mark_planet_deleted_spec(
    m: StoreModel,
    g: i64,
    s: i64,
    pos: i64,
    kind: PlanetType,
    now: i64,
) -> StoreModel {
    StoreModel {
        planets: update_first(m.planets, planet_key(g, s, pos, kind), deleted_merge(now)),
        ..m
    }
}

/// The full per-planet payload of an empire snapshot, already parsed.
pub struct PlanetData {
    pub player_id: i64,
    pub external_id: i64,
    pub name: String,
    pub galaxy: i64,
    pub system: i64,
    pub position: i64,
    pub fields_used: i64,
    pub fields_max: i64,
    pub temperature: i64,
    pub points: i64,
    pub metal_prod_h: i64,
    pub crystal_prod_h: i64,
    pub deut_prod_h: i64,
    pub energy_used: i64,
    pub energy_max: i64,
    pub resources: CountMap,
    pub buildings: CountMap,
    pub fleet: CountMap,
    pub defense: CountMap,
}

/// Mathematical value of an empire per-planet payload.
#[verifier::ext_equal]
pub ghost struct PlanetDataModel {
    pub player_id: i64,
    pub external_id: i64,
    pub name: Seq<char>,
    pub galaxy: i64,
    pub system: i64,
    pub position: i64,
    pub fields_used: i64,
    pub fields_max: i64,
    pub temperature: i64,
    pub points: i64,
    pub metal_prod_h: i64,
    pub crystal_prod_h: i64,
    pub deut_prod_h: i64,
    pub energy_used: i64,
    pub energy_max: i64,
    pub resources: Seq<CountEntry>,
    pub buildings: Seq<CountEntry>,
    pub fleet: Seq<CountEntry>,
    pub defense: Seq<CountEntry>,
}

impl View for PlanetData {
    type V = PlanetDataModel;

    open spec fn view(&self) -> PlanetDataModel {
        PlanetDataModel {
            player_id: self.player_id,
            external_id: self.external_id,
            name: self.name@,
            galaxy: self.galaxy,
            system: self.system,
            position: self.position,
            fields_used: self.fields_used,
            fields_max: self.fields_max,
            temperature: self.temperature,
            points: self.points,
            metal_prod_h: self.metal_prod_h,
            crystal_prod_h: self.crystal_prod_h,
            deut_prod_h: self.deut_prod_h,
            energy_used: self.energy_used,
            energy_max: self.energy_max,
            resources: self.resources@,
            buildings: self.buildings@,
            fleet: self.fleet@,
            defense: self.defense@,
        }
    }
}

/// The wholesale overwrite an empire snapshot applies to a planet: the
/// snapshot is authoritative for that planet at that moment.
pub open spec fn empire_planet_merge(d: PlanetDataModel, now: i64) -> spec_fn(PlanetModel) -> PlanetModel {
    |p: PlanetModel|
        PlanetModel {
            player_id: d.player_id,
            name: Some(d.name),
            planet_id: Some(d.external_id),
            fields_used: d.fields_used,
            fields_max: d.fields_max,
            temperature: d.temperature,
            points: d.points,
            metal_prod_h: d.metal_prod_h,
            crystal_prod_h: d.crystal_prod_h,
            deut_prod_h: d.deut_prod_h,
            energy_used: d.energy_used,
            energy_max: d.energy_max,
            resources: Some(d.resources),
            buildings: Some(d.buildings),
            fleet: Some(d.fleet),
            defense: Some(d.defense),
            status: Status::Seen,
            updated_at: now,
            ..p
        }
}

/// The row an empire snapshot creates for a planet not seen before.
pub open spec fn empire_planet_fresh(row_id: i64, d: PlanetDataModel, now: i64) -> PlanetModel {
    PlanetModel {
        id: row_id,
        player_id: d.player_id,
        galaxy: d.galaxy,
        system: d.system,
        position: d.position,
        kind: PlanetType::Planet,
        name: Some(d.name),
        planet_id: Some(d.external_id),
        fields_used: d.fields_used,
        fields_max: d.fields_max,
        temperature: d.temperature,
        points: d.points,
        metal_prod_h: d.metal_prod_h,
        crystal_prod_h: d.crystal_prod_h,
        deut_prod_h: d.deut_prod_h,
        energy_used: d.energy_used,
        energy_max: d.energy_max,
        resources: Some(d.resources),
        buildings: Some(d.buildings),
        fleet: Some(d.fleet),
        defense: Some(d.defense),
        status: Status::Seen,
        created_at: now,
        updated_at: now,
    }
}

/// What `upsert_planet_empire` does.
pub open spec fn upsert_planet_empire_spec(m: StoreModel, d: PlanetDataModel, now: i64) -> StoreModel {
    if m.has_planet(d.galaxy, d.system, d.position, PlanetType::Planet) {
        StoreModel {
            planets: update_first(
                m.planets,
                planet_key(d.galaxy, d.system, d.position, PlanetType::Planet),
                empire_planet_merge(d, now),
            ),
            ..m
        }
    } else {
        StoreModel {
            planets: m.planets.push(empire_planet_fresh(m.next_planet_id, d, now)),
            next_planet_id: (m.next_planet_id + 1) as i64,
            ..m
        }
    }
}

/// Which of the four independently updatable state maps a write targets.
#[derive(Clone, Copy, Debug, PartialEq, Eq, Structural)]
pub enum PlanetComponent {
    Buildings,
    Fleet,
    Defense,
    Resources,
}

/// The overwrite of one state map of a body.
pub open spec fn component_merge(c: PlanetComponent, map: Seq<CountEntry>, now: i64) -> spec_fn(PlanetModel) -> PlanetModel {
    |p: PlanetModel|
        (match c {
            PlanetComponent::Buildings => PlanetModel { buildings: Some(map), updated_at: now, ..p },
            PlanetComponent::Fleet => PlanetModel { fleet: Some(map), updated_at: now, ..p },
            PlanetComponent::Defense => PlanetModel { defense: Some(map), updated_at: now, ..p },
            PlanetComponent::Resources => PlanetModel {
                resources: Some(map),
                updated_at: now,
                ..p
            },
        })
}

/// What `update_planet_component` does: overwrites one state map of the
/// matching row; an unknown key changes nothing.
pub open spec fn update_planet_component_spec(
    m: StoreModel,
    g: i64,
    s: i64,
    pos: i64,
    kind: PlanetType,
    c: PlanetComponent,
    map: Seq<CountEntry>,
    now: i64,
) -> StoreModel {
    StoreModel {
        planets: update_first(m.planets, planet_key(g, s, pos, kind), component_merge(c, map, now)),
        ..m
    }
}

impl Store {
    /// Upserts a body from a galaxy scan: name and owner are overwritten,
    /// a previously known external planet id is preserved when the scan
    /// does not supply one.
    pub fn upsert_planet(
        &mut self,
        player_id: i64,
        g: i64,
        s: i64,
        pos: i64,
        kind: PlanetType,
        name: Option<String>,
        planet_id: Option<i64>,
        now: i64,
    )
        requires
            old(self).wf(),
            old(self)@.has_player(player_id),
            old(self)@.next_planet_id < 0x7fff_ffff_ffff_ffff,
        ensures
            final(self).wf(),
            final(self)@ == upsert_planet_spec(
                old(self)@,
                player_id,
                g,
                s,
                pos,
                kind,
                opt_str_view(name),
                planet_id,
                now,
            ),
            final(self)@.has_planet(g, s, pos, kind),
            old(self)@.next_planet_id <= final(self)@.next_planet_id <= old(self)@.next_planet_id
                + 1,
    {
        let ghost m0 = self@;
        let ghost namev = opt_str_view(name);
        let ghost keyf = planet_key(g, s, pos, kind);
        let ghost mergef = scan_planet_merge(player_id, namev, planet_id, now);
        match self.find_planet(g, s, pos, kind) {
            Some(i) => {
                let old_row = &self.planets[i];
                let merged = Planet {
                    id: old_row.id,
                    player_id: player_id,
                    galaxy: old_row.galaxy,
                    system: old_row.system,
                    position: old_row.position,
                    kind: old_row.kind,
                    name: name,
                    planet_id: (match planet_id {
                        Some(x) => Some(x),
                        None => old_row.planet_id,
                    }),
                    fields_used: old_row.fields_used,
                    fields_max: old_row.fields_max,
                    temperature: old_row.temperature,
                    points: old_row.points,
                    metal_prod_h: old_row.metal_prod_h,
                    crystal_prod_h: old_row.crystal_prod_h,
                    deut_prod_h: old_row.deut_prod_h,
                    energy_used: old_row.energy_used,
                    energy_max: old_row.energy_max,
                    resources: crate::models::clone_opt_count_map(&old_row.resources),
                    buildings: crate::models::clone_opt_count_map(&old_row.buildings),
                    fleet: crate::models::clone_opt_count_map(&old_row.fleet),
                    defense: crate::models::clone_opt_count_map(&old_row.defense),
                    status: old_row.status,
                    created_at: old_row.created_at,
                    updated_at: now,
                };
                proof {
                    assert(merged@ =~~= mergef(m0.planets[i as int]));
                    lemma_update_first_found(m0.planets, keyf, mergef, i as int);
                    lemma_wf_planet_update(m0, i as int, merged@);
                }
                self.planets.set(i, merged);
                proof {
                    assert(views_of(self.planets@) =~= m0.planets.update(
                        i as int,
                        mergef(m0.planets[i as int]),
                    ));
                    assert(self@ =~= (StoreModel {
                        planets: m0.planets.update(i as int, mergef(m0.planets[i as int])),
                        ..m0
                    }));
                    assert(self@ =~= upsert_planet_spec(
                        m0,
                        player_id,
                        g,
                        s,
                        pos,
                        kind,
                        namev,
                        planet_id,
                        now,
                    ));
                    assert(planet_key(g, s, pos, kind)(self@.planets[i as int]));
                }
            },
            None => {
                let row = Planet {
                    id: self.next_planet_id,
                    player_id: player_id,
                    galaxy: g,
                    system: s,
                    position: pos,
                    kind: kind,
                    name: name,
                    planet_id: planet_id,
                    fields_used: 0,
                    fields_max: 0,
                    temperature: 0,
                    points: 0,
                    metal_prod_h: 0,
                    crystal_prod_h: 0,
                    deut_prod_h: 0,
                    energy_used: 0,
                    energy_max: 0,
                    resources: None,
                    buildings: None,
                    fleet: None,
                    defense: None,
                    status: Status::New,
                    created_at: now,
                    updated_at: now,
                };
                proof {
                    assert(row@ =~~= scan_planet_fresh(
                        m0.next_planet_id,
                        player_id,
                        g,
                        s,
                        pos,
                        kind,
                        namev,
                        planet_id,
                        now,
                    ));
                    lemma_wf_planet_push(m0, row@);
                }
                self.planets.push(row);
                self.next_planet_id = self.next_planet_id + 1;
                proof {
                    assert(views_of(self.planets@) =~= m0.planets.push(
                        scan_planet_fresh(
                            m0.next_planet_id,
                            player_id,
                            g,
                            s,
                            pos,
                            kind,
                            namev,
                            planet_id,
                            now,
                        ),
                    ));
                    assert(self@ =~= upsert_planet_spec(
                        m0,
                        player_id,
                        g,
                        s,
                        pos,
                        kind,
                        namev,
                        planet_id,
                        now,
                    ));
                    assert(planet_key(g, s, pos, kind)(self@.planets[self@.planets.len() - 1]));
                }
            },
        }
    }

    /// Marks the body at the key `deleted` without removing it — history
    /// is preserved for audit and for reports that reference it.
    pub fn mark_planet_deleted(&mut self, g: i64, s: i64, pos: i64, kind: PlanetType, now: i64)
        requires
            old(self).wf(),
        ensures
            final(self).wf(),
            final(self)@ == mark_planet_deleted_spec(old(self)@, g, s, pos, kind, now),
    {
        let ghost m0 = self@;
        let ghost keyf = planet_key(g, s, pos, kind);
        let ghost mergef = deleted_merge(now);
        match self.find_planet(g, s, pos, kind) {
            Some(i) => {
                let old_row = &self.planets[i];
                let mut merged = clone_planet(old_row);
                merged.status = Status::Deleted;
                merged.updated_at = now;
                proof {
                    assert(merged@ =~~= mergef(m0.planets[i as int]));
                    lemma_update_first_found(m0.planets, keyf, mergef, i as int);
                    assert(m0.has_player(m0.planets[i as int].player_id));
                    lemma_wf_planet_update(m0, i as int, merged@);
                }
                self.planets.set(i, merged);
                proof {
                    assert(views_of(self.planets@) =~= m0.planets.update(
                        i as int,
                        mergef(m0.planets[i as int]),
                    ));
                    assert(self@ =~= (StoreModel {
                        planets: m0.planets.update(i as int, mergef(m0.planets[i as int])),
                        ..m0
                    }));
                    assert(self@ =~= mark_planet_deleted_spec(m0, g, s, pos, kind, now));
                }
            },
            None => {
                proof {
                    lemma_update_first_none(m0.planets, keyf, mergef);
                    assert(self@ =~= mark_planet_deleted_spec(m0, g, s, pos, kind, now));
                }
            },
        }
    }

    /// Upserts a planet from an empire snapshot: a wholesale overwrite of
    /// planet state, not a merge — the snapshot is authoritative.
    pub fn upsert_planet_empire(&mut self, d: PlanetData, now: i64)
        requires
            old(self).wf(),
            old(self)@.has_player(d.player_id),
            old(self)@.next_planet_id < 0x7fff_ffff_ffff_ffff,
        ensures
            final(self).wf(),
            final(self)@ == upsert_planet_empire_spec(old(self)@, d@, now),
            final(self)@.has_planet(d.galaxy, d.system, d.position, PlanetType::Planet),
            old(self)@.next_planet_id <= final(self)@.next_planet_id <= old(self)@.next_planet_id
                + 1,
    {
        let ghost m0 = self@;
        let ghost dv = d@;
        let ghost keyf = planet_key(d.galaxy, d.system, d.position, PlanetType::Planet);
        let ghost mergef = empire_planet_merge(dv, now);
        match self.find_planet(d.galaxy, d.system, d.position, PlanetType::Planet) {
            Some(i) => {
                let old_row = &self.planets[i];
                let merged = Planet {
                    id: old_row.id,
                    player_id: d.player_id,
                    galaxy: old_row.galaxy,
                    system: old_row.system,
                    position: old_row.position,
                    kind: old_row.kind,
                    name: Some(d.name),
                    planet_id: Some(d.external_id),
                    fields_used: d.fields_used,
                    fields_max: d.fields_max,
                    temperature: d.temperature,
                    points: d.points,
                    metal_prod_h: d.metal_prod_h,
                    crystal_prod_h: d.crystal_prod_h,
                    deut_prod_h: d.deut_prod_h,
                    energy_used: d.energy_used,
                    energy_max: d.energy_max,
                    resources: Some(d.resources),
                    buildings: Some(d.buildings),
                    fleet: Some(d.fleet),
                    defense: Some(d.defense),
                    status: Status::Seen,
                    created_at: old_row.created_at,
                    updated_at: now,
                };
                proof {
                    assert(merged@ =~~= mergef(m0.planets[i as int]));
                    lemma_update_first_found(m0.planets, keyf, mergef, i as int);
                    lemma_wf_planet_update(m0, i as int, merged@);
                }
                self.planets.set(i, merged);
                proof {
                    assert(views_of(self.planets@) =~= m0.planets.update(
                        i as int,
                        mergef(m0.planets[i as int]),
                    ));
                    assert(self@ =~= (StoreModel {
                        planets: m0.planets.update(i as int, mergef(m0.planets[i as int])),
                        ..m0
                    }));
                    assert(self@ =~= upsert_planet_empire_spec(m0, dv, now));
                    assert(planet_key(dv.galaxy, dv.system, dv.position, PlanetType::Planet)(
                        self@.planets[i as int],
                    ));
                }
            },
            None => {
                let row = Planet {
                    id: self.next_planet_id,
                    player_id: d.player_id,
                    galaxy: d.galaxy,
                    system: d.system,
                    position: d.position,
                    kind: PlanetType::Planet,
                    name: Some(d.name),
                    planet_id: Some(d.external_id),
                    fields_used: d.fields_used,
                    fields_max: d.fields_max,
                    temperature: d.temperature,
                    points: d.points,
                    metal_prod_h: d.metal_prod_h,
                    crystal_prod_h: d.crystal_prod_h,
                    deut_prod_h: d.deut_prod_h,
                    energy_used: d.energy_used,
                    energy_max: d.energy_max,
                    resources: Some(d.resources),
                    buildings: Some(d.buildings),
                    fleet: Some(d.fleet),
                    defense: Some(d.defense),
                    status: Status::Seen,
                    created_at: now,
                    updated_at: now,
                };
                proof {
                    assert(row@ =~~= empire_planet_fresh(m0.next_planet_id, dv, now));
                    lemma_wf_planet_push(m0, row@);
                }
                self.planets.push(row);
                self.next_planet_id = self.next_planet_id + 1;
                proof {
                    assert(views_of(self.planets@) =~= m0.planets.push(
                        empire_planet_fresh(m0.next_planet_id, dv, now),
                    ));
                    assert(self@ =~= upsert_planet_empire_spec(m0, dv, now));
                    assert(planet_key(dv.galaxy, dv.system, dv.position, PlanetType::Planet)(
                        self@.planets[self@.planets.len() - 1],
                    ));
                }
            },
        }
    }

    /// Overwrites one of the four state maps of the body at the key; an
    /// unknown key changes nothing.
    pub fn update_planet_component(
        &mut self,
        g: i64,
        s: i64,
        pos: i64,
        kind: PlanetType,
        c: PlanetComponent,
        map: CountMap,
        now: i64,
    )
        requires
            old(self).wf(),
        ensures
            final(self).wf(),
            final(self)@ == update_planet_component_spec(old(self)@, g, s, pos, kind, c, map@, now),
    {
        let ghost m0 = self@;
        let ghost mapv = map@;
        let ghost keyf = planet_key(g, s, pos, kind);
        let ghost mergef = component_merge(c, mapv, now);
        match self.find_planet(g, s, pos, kind) {
            Some(i) => {
                let old_row = &self.planets[i];
                let mut merged = clone_planet(old_row);
                match c {
                    PlanetComponent::Buildings => {
                        merged.buildings = Some(map);
                    },
                    PlanetComponent::Fleet => {
                        merged.fleet = Some(map);
                    },
                    PlanetComponent::Defense => {
                        merged.defense = Some(map);
                    },
                    PlanetComponent::Resources => {
                        merged.resources = Some(map);
                    },
                }
                merged.updated_at = now;
                proof {
                    assert(merged@ =~~= mergef(m0.planets[i as int]));
                    lemma_update_first_found(m0.planets, keyf, mergef, i as int);
                    assert(m0.has_player(m0.planets[i as int].player_id));
                    lemma_wf_planet_update(m0, i as int, merged@);
                }
                self.planets.set(i, merged);
                proof {
                    assert(views_of(self.planets@) =~= m0.planets.update(
                        i as int,
                        mergef(m0.planets[i as int]),
                    ));
                    assert(self@ =~= (StoreModel {
                        planets: m0.planets.update(i as int, mergef(m0.planets[i as int])),
                        ..m0
                    }));
                    assert(self@ =~= update_planet_component_spec(m0, g, s, pos, kind, c, mapv, now));
                }
            },
            None => {
                proof {
                    lemma_update_first_none(m0.planets, keyf, mergef);
                    assert(self@ =~= update_planet_component_spec(m0, g, s, pos, kind, c, mapv, now));
                }
            },
        }
    }
}

// ===========================================================================
// Player writes
// ===========================================================================

/// The invariant is kept when tables other than players, alliances and
/// planets change, provided their own uniqueness conditions hold.
pub proof fn lemma_wf_non_structural(m: StoreModel, m1: StoreModel)
    requires
        m.wf(),
        m1.players == m.players,
        m1.alliances == m.alliances,
        m1.planets == m.planets,
        m1.next_planet_id == m.next_planet_id,
        m1.users == m.users,
        m1.next_user_id == m.next_user_id,
        m1.reports_unique(),
        m1.messages_unique(),
        m1.stat_views_unique(),
    ensures
        m1.wf(),
{
    assert forall|k: int| 0 <= k < m1.planets.len() implies m1.has_player(
        #[trigger] m1.planets[k].player_id,
    ) by {
        assert(m.has_player(m.planets[k].player_id));
        let w = choose|w: int|
            0 <= w < m.players.len() && m.players[w].id == m.planets[k].player_id;
        assert(m1.players[w].id == m1.planets[k].player_id);
    }
    assert forall|k: int| 0 <= k < m1.players.len() implies (match #[trigger] m1.players[k].alliance_id {
        Some(a) => m1.has_alliance(a),
        None => true,
    }) by {
        if m1.players[k].alliance_id is Some {
            let a = m1.players[k].alliance_id->0;
            assert(match m.players[k].alliance_id {
                Some(b) => m.has_alliance(b),
                None => true,
            });
            let w = choose|w: int| 0 <= w < m.alliances.len() && m.alliances[w].id == a;
            assert(m1.alliances[w].id == a);
        }
    }
    assert forall|k: int| 0 <= k < m1.planets.len() implies #[trigger] m1.planets[k].id
        < m1.next_planet_id by {
        assert(m.planets[k].id < m.next_planet_id);
    }
    assert forall|k: int| 0 <= k < m1.users.len() implies #[trigger] m1.users[k].id
        < m1.next_user_id by {
        assert(m.users[k].id < m.next_user_id);
    }
}

/// The full player-card payload of a player upsert.
pub struct PlayerUpsert {
    pub id: i64,
    pub name: String,
    pub alliance_id: Option<i64>,
    pub main_coordinates: Option<String>,
    pub notice: Option<String>,
    pub score_buildings: Option<i64>,
    pub score_buildings_rank: Option<i64>,
    pub score_research: Option<i64>,
    pub score_research_rank: Option<i64>,
    pub score_fleet: Option<i64>,
    pub score_fleet_rank: Option<i64>,
    pub score_defense: Option<i64>,
    pub score_defense_rank: Option<i64>,
    pub score_total: Option<i64>,
    pub score_total_rank: Option<i64>,
    pub combats_won: Option<i64>,
    pub combats_draw: Option<i64>,
    pub combats_lost: Option<i64>,
    pub combats_total: Option<i64>,
    pub honorpoints: Option<i64>,
    pub honorpoints_rank: Option<i64>,
    pub fights_honorable: Option<i64>,
    pub fights_dishonorable: Option<i64>,
    pub fights_neutral: Option<i64>,
    pub destruction_units_killed: Option<i64>,
    pub destruction_units_lost: Option<i64>,
    pub destruction_recycled_metal: Option<i64>,
    pub destruction_recycled_crystal: Option<i64>,
    pub real_destruction_units_killed: Option<i64>,
    pub real_destruction_units_lost: Option<i64>,
    pub real_destruction_recycled_metal: Option<i64>,
    pub real_destruction_recycled_crystal: Option<i64>,
}

/// Mathematical value of a player-card payload.
#[verifier::ext_equal]
pub ghost struct PlayerUpsertModel {
    pub id: i64,
    pub name: Seq<char>,
    pub alliance_id: Option<i64>,
    pub main_coordinates: Option<Seq<char>>,
    pub notice: Option<Seq<char>>,
    pub score_buildings: Option<i64>,
    pub score_buildings_rank: Option<i64>,
    pub score_research: Option<i64>,
    pub score_research_rank: Option<i64>,
    pub score_fleet: Option<i64>,
    pub score_fleet_rank: Option<i64>,
    pub score_defense: Option<i64>,
    pub score_defense_rank: Option<i64>,
    pub score_total: Option<i64>,
    pub score_total_rank: Option<i64>,
    pub combats_won: Option<i64>,
    pub combats_draw: Option<i64>,
    pub combats_lost: Option<i64>,
    pub combats_total: Option<i64>,
    pub honorpoints: Option<i64>,
    pub honorpoints_rank: Option<i64>,
    pub fights_honorable: Option<i64>,
    pub fights_dishonorable: Option<i64>,
    pub fights_neutral: Option<i64>,
    pub destruction_units_killed: Option<i64>,
    pub destruction_units_lost: Option<i64>,
    pub destruction_recycled_metal: Option<i64>,
    pub destruction_recycled_crystal: Option<i64>,
    pub real_destruction_units_killed: Option<i64>,
    pub real_destruction_units_lost: Option<i64>,
    pub real_destruction_recycled_metal: Option<i64>,
    pub real_destruction_recycled_crystal: Option<i64>,
}

impl View for PlayerUpsert {
    type V = PlayerUpsertModel;

    open spec fn view(&self) -> PlayerUpsertModel {
        PlayerUpsertModel {
            id: self.id,
            name: self.name@,
            alliance_id: self.alliance_id,
            main_coordinates: opt_str_view(self.main_coordinates),
            notice: opt_str_view(self.notice),
            score_buildings: self.score_buildings,
            score_buildings_rank: self.score_buildings_rank,
            score_research: self.score_research,
            score_research_rank: self.score_research_rank,
            score_fleet: self.score_fleet,
            score_fleet_rank: self.score_fleet_rank,
            score_defense: self.score_defense,
            score_defense_rank: self.score_defense_rank,
            score_total: self.score_total,
            score_total_rank: self.score_total_rank,
            combats_won: self.combats_won,
            combats_draw: self.combats_draw,
            combats_lost: self.combats_lost,
            combats_total: self.combats_total,
            honorpoints: self.honorpoints,
            honorpoints_rank: self.honorpoints_rank,
            fights_honorable: self.fights_honorable,
            fights_dishonorable: self.fights_dishonorable,
            fights_neutral: self.fights_neutral,
            destruction_units_killed: self.destruction_units_killed,
            destruction_units_lost: self.destruction_units_lost,
            destruction_recycled_metal: self.destruction_recycled_metal,
            destruction_recycled_crystal: self.destruction_recycled_crystal,
            real_destruction_units_killed: self.real_destruction_units_killed,
            real_destruction_units_lost: self.real_destruction_units_lost,
            real_destruction_recycled_metal: self.real_destruction_recycled_metal,
            real_destruction_recycled_crystal: self.real_destruction_recycled_crystal,
        }
    }
}

/// An absent combat figure counts as zero.
pub open spec fn or_zero(v: Option<i64>) -> i64 {
    match v {
        Some(x) => x,
        None => 0,
    }
}

/// The overwrite a full player-card upsert applies: every card field is
/// taken from the payload, absent combat figures counting as zero;
/// lifecycle flags and research are untouched.
pub open spec fn player_full_merge(u: PlayerUpsertModel, now: i64) -> spec_fn(PlayerModel) -> PlayerModel {
    |p: PlayerModel|
        PlayerModel {
            name: u.name,
            alliance_id: u.alliance_id,
            main_coordinates: u.main_coordinates,
            notice: u.notice,
            score_buildings: u.score_buildings,
            score_buildings_rank: u.score_buildings_rank,
            score_research: u.score_research,
            score_research_rank: u.score_research_rank,
            score_fleet: u.score_fleet,
            score_fleet_rank: u.score_fleet_rank,
            score_defense: u.score_defense,
            score_defense_rank: u.score_defense_rank,
            score_total: u.score_total,
            score_total_rank: u.score_total_rank,
            combats_won: or_zero(u.combats_won),
            combats_draw: or_zero(u.combats_draw),
            combats_lost: or_zero(u.combats_lost),
            combats_total: or_zero(u.combats_total),
            honorpoints: u.honorpoints,
            honorpoints_rank: u.honorpoints_rank,
            fights_honorable: u.fights_honorable,
            fights_dishonorable: u.fights_dishonorable,
            fights_neutral: u.fights_neutral,
            destruction_units_killed: u.destruction_units_killed,
            destruction_units_lost: u.destruction_units_lost,
            destruction_recycled_metal: u.destruction_recycled_metal,
            destruction_recycled_crystal: u.destruction_recycled_crystal,
            real_destruction_units_killed: u.real_destruction_units_killed,
            real_destruction_units_lost: u.real_destruction_units_lost,
            real_destruction_recycled_metal: u.real_destruction_recycled_metal,
            real_destruction_recycled_crystal: u.real_destruction_recycled_crystal,
            updated_at: now,
            ..p
        }
}

/// What `upsert_player_full` does when it succeeds.
pub open spec fn upsert_player_full_spec(m: StoreModel, u: PlayerUpsertModel, now: i64) -> StoreModel {
    StoreModel {
        players: upsert_seq(
            m.players,
            player_key(u.id),
            player_full_merge(u, now),
            player_full_merge(u, now)(PlayerModel::minimal(u.id, u.name, now)),
        ),
        ..m
    }
}

/// The overwrite that records a player's name from a statistics page.
pub open spec fn name_merge(name: Seq<char>, now: i64) -> spec_fn(PlayerModel) -> PlayerModel {
    |p: PlayerModel| PlayerModel { name: name, updated_at: now, ..p }
}

/// What `upsert_player_name` does: insert a minimal row, or overwrite the
/// name of the existing one.
pub open spec fn upsert_player_name_spec(m: StoreModel, id: i64, name: Seq<char>, now: i64) -> StoreModel {
    StoreModel {
        players: upsert_seq(
            m.players,
            player_key(id),
            name_merge(name, now),
            PlayerModel::minimal(id, name, now),
        ),
        ..m
    }
}

/// The research overwrite of a player row.
pub open spec fn research_merge(research: Seq<CountEntry>, now: i64) -> spec_fn(PlayerModel) -> PlayerModel {
    |p: PlayerModel| PlayerModel { research: Some(research), updated_at: now, ..p }
}

/// What `update_player_research` does: overwrites the research map of the
/// matching row; an unknown id changes nothing.
pub open spec fn update_player_research_spec(
    m: StoreModel,
    id: i64,
    research: Seq<CountEntry>,
    now: i64,
) -> StoreModel {
    StoreModel { players: update_first(m.players, player_key(id), research_merge(research, now)), ..m }
}

/// The soft-delete overwrite of a player row.
pub open spec fn player_deleted_merge(now: i64) -> spec_fn(PlayerModel) -> PlayerModel {
    |p: PlayerModel| PlayerModel { is_deleted: true, updated_at: now, ..p }
}

/// What `mark_player_deleted` does: soft-flags the row; never removes it.
pub open spec fn mark_player_deleted_spec(m: StoreModel, id: i64, now: i64) -> StoreModel {
    StoreModel { players: update_first(m.players, player_key(id), player_deleted_merge(now)), ..m }
}

/// The inactivity overwrite of a player row: long inactivity stamps
/// `inactive_since` once and keeps the earliest stamp; a player seen
/// active again is cleared; short inactivity leaves the flag as it is.
pub open spec fn inactive_merge(is_inactive: bool, is_long_inactive: bool, now: i64) -> spec_fn(
    PlayerModel,
) -> PlayerModel {
    |p: PlayerModel|
        if is_long_inactive {
            PlayerModel {
                inactive_since: (match p.inactive_since {
                    Some(t) => Some(t),
                    None => Some(now),
                }),
                ..p
            }
        } else if !is_inactive {
            PlayerModel { inactive_since: None, ..p }
        } else {
            p
        }
}

/// What `update_player_inactive` does.
pub open spec fn update_player_inactive_spec(
    m: StoreModel,
    id: i64,
    is_inactive: bool,
    is_long_inactive: bool,
    now: i64,
) -> StoreModel {
    StoreModel {
        players: update_first(
            m.players,
            player_key(id),
            inactive_merge(is_inactive, is_long_inactive, now),
        ),
        ..m
    }
}

/// The overwrite of one score category of a player row.
pub open spec fn score_merge(t: StatType, score: i64, rank: i64, now: i64) -> spec_fn(PlayerModel) -> PlayerModel {
    |p: PlayerModel|
        (match t {
            StatType::Total => PlayerModel {
                score_total: Some(score),
                score_total_rank: Some(rank),
                updated_at: now,
                ..p
            },
            StatType::Fleet => PlayerModel {
                score_fleet: Some(score),
                score_fleet_rank: Some(rank),
                updated_at: now,
                ..p
            },
            StatType::Research => PlayerModel {
                score_research: Some(score),
                score_research_rank: Some(rank),
                updated_at: now,
                ..p
            },
            StatType::Buildings => PlayerModel {
                score_buildings: Some(score),
                score_buildings_rank: Some(rank),
                updated_at: now,
                ..p
            },
            StatType::Defense => PlayerModel {
                score_defense: Some(score),
                score_defense_rank: Some(rank),
                updated_at: now,
                ..p
            },
            StatType::Honor => PlayerModel {
                honorpoints: Some(score),
                honorpoints_rank: Some(rank),
                updated_at: now,
                ..p
            },
        })
}

/// What `update_player_score` does: overwrites one score category of the
/// matching row; an unknown id changes nothing.
pub open spec fn update_player_score_spec(
    m: StoreModel,
    id: i64,
    t: StatType,
    score: i64,
    rank: i64,
    now: i64,
) -> StoreModel {
    StoreModel { players: update_first(m.players, player_key(id), score_merge(t, score, rank, now)), ..m }
}

/// The overwrite that a legacy statistics sync applies: name, alliance and
/// the five-category score snapshot.
pub open spec fn stats_merge(
    name: Seq<char>,
    alliance_id: Option<i64>,
    scores: ScoresInfo,
    now: i64,
) -> spec_fn(PlayerModel) -> PlayerModel {
    |p: PlayerModel|
        PlayerModel { name: name, alliance_id: alliance_id, scores: Some(scores), updated_at: now, ..p }
}

/// What `upsert_player_stats` does when it succeeds.
pub open spec fn upsert_player_stats_spec(
    m: StoreModel,
    id: i64,
    name: Seq<char>,
    alliance_id: Option<i64>,
    scores: ScoresInfo,
    now: i64,
) -> StoreModel {
    StoreModel {
        players: upsert_seq(
            m.players,
            player_key(id),
            stats_merge(name, alliance_id, scores, now),
            stats_merge(name, alliance_id, scores, now)(PlayerModel::minimal(id, name, now)),
        ),
        ..m
    }
}

/// Report tables kept unchanged keep their uniqueness.
pub proof fn lemma_reports_unique_unchanged(m: StoreModel, m1: StoreModel)
    requires
        m.wf(),
        m1.spy_reports == m.spy_reports,
        m1.battle_reports == m.battle_reports,
        m1.expedition_reports == m.expedition_reports,
        m1.recycle_reports == m.recycle_reports,
        m1.hostile_spying == m.hostile_spying,
    ensures
        m1.reports_unique(),
{
    assert forall|i: int, j: int| 0 <= i < j < m1.spy_reports.len() implies m1.spy_reports[i].external_id
        != m1.spy_reports[j].external_id by {
        assert(m.spy_reports[i].external_id != m.spy_reports[j].external_id);
    }
    assert forall|i: int, j: int| 0 <= i < j < m1.battle_reports.len() implies m1.battle_reports[i].external_id
        != m1.battle_reports[j].external_id by {
        assert(m.battle_reports[i].external_id != m.battle_reports[j].external_id);
    }
    assert forall|i: int, j: int| 0 <= i < j < m1.expedition_reports.len() implies m1.expedition_reports[i].external_id
        != m1.expedition_reports[j].external_id by {
        assert(m.expedition_reports[i].external_id != m.expedition_reports[j].external_id);
    }
    assert forall|i: int, j: int| 0 <= i < j < m1.recycle_reports.len() implies m1.recycle_reports[i].external_id
        != m1.recycle_reports[j].external_id by {
        assert(m.recycle_reports[i].external_id != m.recycle_reports[j].external_id);
    }
    assert forall|i: int, j: int| 0 <= i < j < m1.hostile_spying.len() implies m1.hostile_spying[i].external_id
        != m1.hostile_spying[j].external_id by {
        assert(m.hostile_spying[i].external_id != m.hostile_spying[j].external_id);
    }
}

/// A message table kept unchanged keeps its uniqueness; so for stat views.
pub proof fn lemma_aux_unique_unchanged(m: StoreModel, m1: StoreModel)
    requires
        m.wf(),
        m1.messages == m.messages,
        m1.stat_views == m.stat_views,
    ensures
        m1.messages_unique(),
        m1.stat_views_unique(),
{
    assert forall|i: int, j: int| 0 <= i < j < m1.messages.len() implies m1.messages[i]
        != m1.messages[j] by {
        assert(m.messages[i] != m.messages[j]);
    }
    assert forall|i: int, j: int| 0 <= i < j < m1.stat_views.len() implies m1.stat_views[i].stat_type
        != m1.stat_views[j].stat_type by {
        assert(m.stat_views[i].stat_type != m.stat_views[j].stat_type);
    }
}

/// Builds the row that a full player-card upsert stores over `base`.
fn apply_player_full(base: &Player, u: PlayerUpsert, now: i64) -> (r: Player)
    ensures
        r@ == player_full_merge(u@, now)(base@),
{
    let r = Player {
        id: base.id,
        name: u.name,
        alliance_id: u.alliance_id,
        main_coordinates: u.main_coordinates,
        is_deleted: base.is_deleted,
        inactive_since: base.inactive_since,
        vacation_since: base.vacation_since,
        research: crate::models::clone_opt_count_map(&base.research),
        scores: base.scores,
        notice: u.notice,
        combats_total: (match u.combats_total {
            Some(x) => x,
            None => 0,
        }),
        combats_won: (match u.combats_won {
            Some(x) => x,
            None => 0,
        }),
        combats_draw: (match u.combats_draw {
            Some(x) => x,
            None => 0,
        }),
        combats_lost: (match u.combats_lost {
            Some(x) => x,
            None => 0,
        }),
        units_shot: base.units_shot,
        units_lost: base.units_lost,
        score_buildings: u.score_buildings,
        score_buildings_rank: u.score_buildings_rank,
        score_research: u.score_research,
        score_research_rank: u.score_research_rank,
        score_fleet: u.score_fleet,
        score_fleet_rank: u.score_fleet_rank,
        score_defense: u.score_defense,
        score_defense_rank: u.score_defense_rank,
        score_total: u.score_total,
        score_total_rank: u.score_total_rank,
        honorpoints: u.honorpoints,
        honorpoints_rank: u.honorpoints_rank,
        fights_honorable: u.fights_honorable,
        fights_dishonorable: u.fights_dishonorable,
        fights_neutral: u.fights_neutral,
        destruction_units_killed: u.destruction_units_killed,
        destruction_units_lost: u.destruction_units_lost,
        destruction_recycled_metal: u.destruction_recycled_metal,
        destruction_recycled_crystal: u.destruction_recycled_crystal,
        real_destruction_units_killed: u.real_destruction_units_killed,
        real_destruction_units_lost: u.real_destruction_units_lost,
        real_destruction_recycled_metal: u.real_destruction_recycled_metal,
        real_destruction_recycled_crystal: u.real_destruction_recycled_crystal,
        created_at: base.created_at,
        updated_at: now,
    };
    proof {
        assert(r@ =~~= player_full_merge(u@, now)(base@));
    }
    r
}

impl Store {
    /// Upserts a full player card: every card field is overwritten from
    /// the payload; lifecycle flags, research and unit totals are kept.
    pub fn upsert_player_full(&mut self, u: PlayerUpsert, now: i64)
        requires
            old(self).wf(),
            (match u.alliance_id {
                Some(a) => old(self)@.has_alliance(a),
                None => true,
            }),
        ensures
            final(self).wf(),
            final(self)@ == upsert_player_full_spec(old(self)@, u@, now),
            final(self)@.has_player(u.id),
    {
        let ghost m0 = self@;
        let ghost uv = u@;
        let ghost keyf = player_key(u.id);
        let ghost mergef = player_full_merge(uv, now);
        let ghost fresh = mergef(PlayerModel::minimal(uv.id, uv.name, now));
        let id = u.id;
        match self.find_player(id) {
            Some(i) => {
                let merged = apply_player_full(&self.players[i], u, now);
                proof {
                    lemma_upsert_found(m0.players, keyf, mergef, fresh, i as int);
                    lemma_wf_player_update(m0, i as int, merged@);
                }
                self.players.set(i, merged);
                proof {
                    assert(views_of(self.players@) =~= m0.players.update(
                        i as int,
                        mergef(m0.players[i as int]),
                    ));
                    assert(self@ =~= upsert_player_full_spec(m0, uv, now));
                    assert(self@.players[i as int].id == id);
                }
            },
            None => {
                let base = Player::minimal(id, u.name.clone(), now);
                let row = apply_player_full(&base, u, now);
                proof {
                    assert(no_match(m0.players, keyf));
                    lemma_upsert_none(m0.players, keyf, mergef, fresh);
                    assert(row@ == fresh);
                    lemma_wf_player_push(m0, row@);
                }
                self.players.push(row);
                proof {
                    assert(views_of(self.players@) =~= m0.players.push(fresh));
                    assert(self@ =~= upsert_player_full_spec(m0, uv, now));
                    assert(self@.players[self@.players.len() - 1].id == id);
                }
            },
        }
    }

    /// Records a player's name as a statistics page reports it: inserts a
    /// minimal row or overwrites the name of the existing one.
    pub fn upsert_player_name(&mut self, id: i64, name: String, now: i64)
        requires
            old(self).wf(),
        ensures
            final(self).wf(),
            final(self)@ == upsert_player_name_spec(old(self)@, id, name@, now),
            final(self)@.has_player(id),
    {
        let ghost m0 = self@;
        let ghost keyf = player_key(id);
        let ghost mergef = name_merge(name@, now);
        let ghost fresh = PlayerModel::minimal(id, name@, now);
        match self.find_player(id) {
            Some(i) => {
                let mut merged = clone_player(&self.players[i]);
                merged.name = name;
                merged.updated_at = now;
                proof {
                    assert(merged@ =~~= mergef(m0.players[i as int]));
                    lemma_upsert_found(m0.players, keyf, mergef, fresh, i as int);
                    lemma_wf_player_update(m0, i as int, merged@);
                }
                self.players.set(i, merged);
                proof {
                    assert(views_of(self.players@) =~= m0.players.update(
                        i as int,
                        mergef(m0.players[i as int]),
                    ));
                    assert(self@ =~= upsert_player_name_spec(m0, id, name@, now));
                    assert(self@.players[i as int].id == id);
                }
            },
            None => {
                let row = Player::minimal(id, name, now);
                proof {
                    assert(no_match(m0.players, keyf));
                    lemma_upsert_none(m0.players, keyf, mergef, fresh);
                    lemma_wf_player_push(m0, row@);
                }
                self.players.push(row);
                proof {
                    assert(views_of(self.players@) =~= m0.players.push(fresh));
                    assert(self@ =~= upsert_player_name_spec(m0, id, name@, now));
                    assert(self@.players[self@.players.len() - 1].id == id);
                }
            },
        }
    }

    /// Overwrites the research map of the matching player; an unknown id
    /// changes nothing.
    pub fn update_player_research(&mut self, id: i64, research: CountMap, now: i64)
        requires
            old(self).wf(),
        ensures
            final(self).wf(),
            final(self)@ == update_player_research_spec(old(self)@, id, research@, now),
    {
        let ghost m0 = self@;
        let ghost keyf = player_key(id);
        let ghost mergef = research_merge(research@, now);
        match self.find_player(id) {
            Some(i) => {
                let mut merged = clone_player(&self.players[i]);
                merged.research = Some(research);
                merged.updated_at = now;
                proof {
                    assert(merged@ =~~= mergef(m0.players[i as int]));
                    lemma_update_first_found(m0.players, keyf, mergef, i as int);
                    lemma_wf_player_update(m0, i as int, merged@);
                }
                self.players.set(i, merged);
                proof {
                    assert(views_of(self.players@) =~= m0.players.update(
                        i as int,
                        mergef(m0.players[i as int]),
                    ));
                    assert(self@ =~= update_player_research_spec(m0, id, research@, now));
                }
            },
            None => {
                proof {
                    lemma_update_first_none(m0.players, keyf, mergef);
                    assert(self@ =~= update_player_research_spec(m0, id, research@, now));
                }
            },
        }
    }

    /// Soft-flags the matching player deleted; the row is never removed.
    pub fn mark_player_deleted(&mut self, id: i64, now: i64)
        requires
            old(self).wf(),
        ensures
            final(self).wf(),
            final(self)@ == mark_player_deleted_spec(old(self)@, id, now),
    {
        let ghost m0 = self@;
        let ghost keyf = player_key(id);
        let ghost mergef = player_deleted_merge(now);
        match self.find_player(id) {
            Some(i) => {
                let mut merged = clone_player(&self.players[i]);
                merged.is_deleted = true;
                merged.updated_at = now;
                proof {
                    assert(merged@ =~~= mergef(m0.players[i as int]));
                    lemma_update_first_found(m0.players, keyf, mergef, i as int);
                    lemma_wf_player_update(m0, i as int, merged@);
                }
                self.players.set(i, merged);
                proof {
                    assert(views_of(self.players@) =~= m0.players.update(
                        i as int,
                        mergef(m0.players[i as int]),
                    ));
                    assert(self@ =~= mark_player_deleted_spec(m0, id, now));
                }
            },
            None => {
                proof {
                    lemma_update_first_none(m0.players, keyf, mergef);
                    assert(self@ =~= mark_player_deleted_spec(m0, id, now));
                }
            },
        }
    }

    /// Applies a statistics page's inactivity information: long inactivity
    /// stamps `inactive_since` once (the earliest stamp is kept), a player
    /// no longer inactive is cleared, short inactivity changes nothing.
    pub fn update_player_inactive(
        &mut self,
        id: i64,
        is_inactive: bool,
        is_long_inactive: bool,
        now: i64,
    )
        requires
            old(self).wf(),
        ensures
            final(self).wf(),
            final(self)@ == update_player_inactive_spec(
                old(self)@,
                id,
                is_inactive,
                is_long_inactive,
                now,
            ),
    {
        let ghost m0 = self@;
        let ghost keyf = player_key(id);
        let ghost mergef = inactive_merge(is_inactive, is_long_inactive, now);
        match self.find_player(id) {
            Some(i) => {
                let mut merged = clone_player(&self.players[i]);
                if is_long_inactive {
                    if merged.inactive_since.is_none() {
                        merged.inactive_since = Some(now);
                    }
                } else if !is_inactive {
                    merged.inactive_since = None;
                }
                proof {
                    assert(merged@ =~~= mergef(m0.players[i as int]));
                    lemma_update_first_found(m0.players, keyf, mergef, i as int);
                    lemma_wf_player_update(m0, i as int, merged@);
                }
                self.players.set(i, merged);
                proof {
                    assert(views_of(self.players@) =~= m0.players.update(
                        i as int,
                        mergef(m0.players[i as int]),
                    ));
                    assert(self@ =~= update_player_inactive_spec(
                        m0,
                        id,
                        is_inactive,
                        is_long_inactive,
                        now,
                    ));
                }
            },
            None => {
                proof {
                    lemma_update_first_none(m0.players, keyf, mergef);
                    assert(self@ =~= update_player_inactive_spec(
                        m0,
                        id,
                        is_inactive,
                        is_long_inactive,
                        now,
                    ));
                }
            },
        }
    }

    /// Overwrites one score category (value and rank) of the matching
    /// player; an unknown id changes nothing.
    pub fn update_player_score(&mut self, id: i64, t: StatType, score: i64, rank: i64, now: i64)
        requires
            old(self).wf(),
        ensures
            final(self).wf(),
            final(self)@ == update_player_score_spec(old(self)@, id, t, score, rank, now),
    {
        let ghost m0 = self@;
        let ghost keyf = player_key(id);
        let ghost mergef = score_merge(t, score, rank, now);
        match self.find_player(id) {
            Some(i) => {
                let mut merged = clone_player(&self.players[i]);
                match t {
                    StatType::Total => {
                        merged.score_total = Some(score);
                        merged.score_total_rank = Some(rank);
                    },
                    StatType::Fleet => {
                        merged.score_fleet = Some(score);
                        merged.score_fleet_rank = Some(rank);
                    },
                    StatType::Research => {
                        merged.score_research = Some(score);
                        merged.score_research_rank = Some(rank);
                    },
                    StatType::Buildings => {
                        merged.score_buildings = Some(score);
                        merged.score_buildings_rank = Some(rank);
                    },
                    StatType::Defense => {
                        merged.score_defense = Some(score);
                        merged.score_defense_rank = Some(rank);
                    },
                    StatType::Honor => {
                        merged.honorpoints = Some(score);
                        merged.honorpoints_rank = Some(rank);
                    },
                }
                merged.updated_at = now;
                proof {
                    assert(merged@ =~~= mergef(m0.players[i as int]));
                    lemma_update_first_found(m0.players, keyf, mergef, i as int);
                    lemma_wf_player_update(m0, i as int, merged@);
                }
                self.players.set(i, merged);
                proof {
                    assert(views_of(self.players@) =~= m0.players.update(
                        i as int,
                        mergef(m0.players[i as int]),
                    ));
                    assert(self@ =~= update_player_score_spec(m0, id, t, score, rank, now));
                }
            },
            None => {
                proof {
                    lemma_update_first_none(m0.players, keyf, mergef);
                    assert(self@ =~= update_player_score_spec(m0, id, t, score, rank, now));
                }
            },
        }
    }

    /// Upserts a player from a legacy five-category statistics sync: name,
    /// alliance and the score snapshot are overwritten.
    pub fn upsert_player_stats(
        &mut self,
        id: i64,
        name: String,
        alliance_id: Option<i64>,
        scores: ScoresInfo,
        now: i64,
    )
        requires
            old(self).wf(),
            (match alliance_id {
                Some(a) => old(self)@.has_alliance(a),
                None => true,
            }),
        ensures
            final(self).wf(),
            final(self)@ == upsert_player_stats_spec(
                old(self)@,
                id,
                name@,
                alliance_id,
                scores,
                now,
            ),
            final(self)@.has_player(id),
    {
        let ghost m0 = self@;
        let ghost keyf = player_key(id);
        let ghost mergef = stats_merge(name@, alliance_id, scores, now);
        let ghost fresh = mergef(PlayerModel::minimal(id, name@, now));
        match self.find_player(id) {
            Some(i) => {
                let mut merged = clone_player(&self.players[i]);
                merged.name = name;
                merged.alliance_id = alliance_id;
                merged.scores = Some(scores);
                merged.updated_at = now;
                proof {
                    assert(merged@ =~~= mergef(m0.players[i as int]));
                    lemma_upsert_found(m0.players, keyf, mergef, fresh, i as int);
                    lemma_wf_player_update(m0, i as int, merged@);
                }
                self.players.set(i, merged);
                proof {
                    assert(views_of(self.players@) =~= m0.players.update(
                        i as int,
                        mergef(m0.players[i as int]),
                    ));
                    assert(self@ =~= upsert_player_stats_spec(m0, id, name@, alliance_id, scores, now));
                    assert(self@.players[i as int].id == id);
                }
            },
            None => {
                let mut row = Player::minimal(id, name, now);
                row.alliance_id = alliance_id;
                row.scores = Some(scores);
                proof {
                    assert(row@ =~~= fresh);
                    assert(no_match(m0.players, keyf));
                    lemma_upsert_none(m0.players, keyf, mergef, fresh);
                    lemma_wf_player_push(m0, row@);
                }
                self.players.push(row);
                proof {
                    assert(views_of(self.players@) =~= m0.players.push(fresh));
                    assert(self@ =~= upsert_player_stats_spec(m0, id, name@, alliance_id, scores, now));
                    assert(self@.players[self@.players.len() - 1].id == id);
                }
            },
        }
    }

    /// Appends one score history record.  Score history is append-only:
    /// records are never updated or deleted.
    pub fn append_score_snapshot(&mut self, s: ScoreSnapshot)
        requires
            old(self).wf(),
        ensures
            final(self).wf(),
            final(self)@ == (StoreModel {
                score_history: old(self)@.score_history.push(s),
                ..old(self)@
            }),
    {
        let ghost m0 = self@;
        self.score_history.push(s);
        proof {
            let m1 = self@;
            assert(m1 =~= (StoreModel { score_history: m0.score_history.push(s), ..m0 }));
            lemma_reports_unique_unchanged(m0, m1);
            lemma_aux_unique_unchanged(m0, m1);
            lemma_wf_non_structural(m0, m1);
        }
    }

    /// Overwrites the universe configuration.
    pub fn set_universe_config(&mut self, cfg: UniverseConfig)
        requires
            old(self).wf(),
        ensures
            final(self).wf(),
            final(self)@ == (StoreModel { config: cfg, ..old(self)@ }),
    {
        let ghost m0 = self@;
        self.config = cfg;
        proof {
            let m1 = self@;
            assert(m1 =~= (StoreModel { config: cfg, ..m0 }));
            lemma_reports_unique_unchanged(m0, m1);
            lemma_aux_unique_unchanged(m0, m1);
            lemma_wf_non_structural(m0, m1);
        }
    }

    /// Index of the tracked sync kind, if any.
    fn find_stat_view(&self, t: StatType) -> (r: Option<usize>)
        ensures
            (match r {
                Some(i) => i < self@.stat_views.len() && self@.stat_views[i as int].stat_type == t
                    && (forall|j: int| 0 <= j < i ==> self@.stat_views[j].stat_type != t),
                None => forall|j: int|
                    0 <= j < self@.stat_views.len() ==> self@.stat_views[j].stat_type != t,
            }),
    {
        let mut i: usize = 0;
        while i < self.stat_views.len()
            invariant
                i <= self@.stat_views.len(),
                forall|j: int| 0 <= j < i ==> self@.stat_views[j].stat_type != t,
            decreases self.stat_views.len() - i,
        {
            if self.stat_views[i].stat_type == t {
                return Some(i);
            }
            i = i + 1;
        }
        None
    }

    /// Records that a sync of the given kind happened now: the row is
    /// created on first sight and overwritten afterwards.
    pub fn record_stat_sync(&mut self, t: StatType, now: i64, by: Option<i64>)
        requires
            old(self).wf(),
        ensures
            final(self).wf(),
            final(self)@ == (StoreModel {
                stat_views: upsert_seq(
                    old(self)@.stat_views,
                    |v: StatView| v.stat_type == t,
                    |v: StatView| (StatView { stat_type: t, last_sync_at: Some(now), synced_by: by }),
                    (StatView { stat_type: t, last_sync_at: Some(now), synced_by: by }),
                ),
                ..old(self)@
            }),
    {
        let ghost m0 = self@;
        let ghost keyf = |v: StatView| v.stat_type == t;
        let ghost mergef = |v: StatView| (StatView { stat_type: t, last_sync_at: Some(now), synced_by: by });
        let row = StatView { stat_type: t, last_sync_at: Some(now), synced_by: by };
        match self.find_stat_view(t) {
            Some(i) => {
                proof {
                    lemma_upsert_found(m0.stat_views, keyf, mergef, row, i as int);
                }
                self.stat_views.set(i, row);
            },
            None => {
                proof {
                    assert(no_match(m0.stat_views, keyf));
                    lemma_upsert_none(m0.stat_views, keyf, mergef, row);
                }
                self.stat_views.push(row);
            },
        }
        proof {
            let m1 = self@;
            assert(m1 =~= (StoreModel {
                stat_views: upsert_seq(m0.stat_views, keyf, mergef, row),
                ..m0
            }));
            lemma_reports_unique_unchanged(m0, m1);
            assert forall|i: int, j: int| 0 <= i < j < m1.messages.len() implies m1.messages[i]
                != m1.messages[j] by {
                assert(m0.messages[i] != m0.messages[j]);
            }
            assert forall|i: int, j: int| 0 <= i < j < m1.stat_views.len() implies m1.stat_views[i].stat_type
                != m1.stat_views[j].stat_type by {
                lemma_upsert_len(m0.stat_views, keyf, mergef, row);
            }
            lemma_wf_non_structural(m0, m1);
        }
    }

    /// True if this external message id was recorded before.
    pub fn message_seen(&self, id: i64) -> (r: bool)
        ensures
            r == self@.messages.contains(id),
    {
        let mut i: usize = 0;
        while i < self.messages.len()
            invariant
                i <= self@.messages.len(),
                forall|j: int| 0 <= j < i ==> self@.messages[j] != id,
            decreases self.messages.len() - i,
        {
            if self.messages[i] == id {
                proof {
                    assert(self@.messages[i as int] == id);
                }
                return true;
            }
            i = i + 1;
        }
        false
    }

    /// Records one external message id, once.
    pub fn record_message(&mut self, id: i64)
        requires
            old(self).wf(),
        ensures
            final(self).wf(),
            old(self)@.messages.contains(id) ==> final(self)@ == old(self)@,
            !old(self)@.messages.contains(id) ==> final(self)@ == (StoreModel {
                messages: old(self)@.messages.push(id),
                ..old(self)@
            }),
    {
        let ghost m0 = self@;
        if !self.message_seen(id) {
            self.messages.push(id);
            proof {
                let m1 = self@;
                assert(m1 =~= (StoreModel { messages: m0.messages.push(id), ..m0 }));
                lemma_reports_unique_unchanged(m0, m1);
                assert forall|i: int, j: int| 0 <= i < j < m1.messages.len() implies m1.messages[i]
                    != m1.messages[j] by {
                    if j < m0.messages.len() {
                        assert(m0.messages[i] != m0.messages[j]);
                    } else {
                        assert(m1.messages[j] == id);
                        assert(!m0.messages.contains(id));
                        assert(m1.messages[i] == m0.messages[i]);
                    }
                }
                assert forall|i: int, j: int| 0 <= i < j < m1.stat_views.len() implies m1.stat_views[i].stat_type
                    != m1.stat_views[j].stat_type by {
                    assert(m0.stat_views[i].stat_type != m0.stat_views[j].stat_type);
                }
                lemma_wf_non_structural(m0, m1);
            }
        } else {
            proof {
                assert(self@ =~= m0);
            }
        }
    }
}

// ===========================================================================
// Users
// ===========================================================================

/// Character-wise string comparison; true exactly when the views agree.
pub fn str_eq(a: &str, b: &str) -> (r: bool)
    ensures
        r == (a@ == b@),
{
    let la = a.unicode_len();
    let lb = b.unicode_len();
    if la != lb {
        proof {
            assert(a@ != b@);
        }
        return false;
    }
    let mut i: usize = 0;
    while i < la
        invariant
            la == a@.len(),
            la == b@.len(),
            i <= la,
            forall|j: int| 0 <= j < i ==> a@[j] == b@[j],
        decreases la - i,
    {
        if a.get_char(i) != b.get_char(i) {
            proof {
                assert(a@[i as int] != b@[i as int]);
            }
            return false;
        }
        i = i + 1;
    }
    proof {
        assert(a@ =~= b@);
    }
    true
}

/// The invariant is kept when only the users table changes and its ids
/// stay unique and below the counter.
pub proof fn lemma_wf_users_changed(m: StoreModel, m1: StoreModel)
    requires
        m.wf(),
        m1.players == m.players,
        m1.alliances == m.alliances,
        m1.planets == m.planets,
        m1.next_planet_id == m.next_planet_id,
        m1.spy_reports == m.spy_reports,
        m1.battle_reports == m.battle_reports,
        m1.expedition_reports == m.expedition_reports,
        m1.recycle_reports == m.recycle_reports,
        m1.hostile_spying == m.hostile_spying,
        m1.messages == m.messages,
        m1.stat_views == m.stat_views,
        m1.users_unique(),
    ensures
        m1.wf(),
{
    lemma_reports_unique_unchanged(m, m1);
    lemma_aux_unique_unchanged(m, m1);
    assert forall|k: int| 0 <= k < m1.planets.len() implies m1.has_player(
        #[trigger] m1.planets[k].player_id,
    ) by {
        assert(m.has_player(m.planets[k].player_id));
        let w = choose|w: int|
            0 <= w < m.players.len() && m.players[w].id == m.planets[k].player_id;
        assert(m1.players[w].id == m1.planets[k].player_id);
    }
    assert forall|k: int| 0 <= k < m1.players.len() implies (match #[trigger] m1.players[k].alliance_id {
        Some(a) => m1.has_alliance(a),
        None => true,
    }) by {
        if m1.players[k].alliance_id is Some {
            let a = m1.players[k].alliance_id->0;
            assert(match m.players[k].alliance_id {
                Some(b) => m.has_alliance(b),
                None => true,
            });
            let w = choose|w: int| 0 <= w < m.alliances.len() && m.alliances[w].id == a;
            assert(m1.alliances[w].id == a);
        }
    }
    assert forall|k: int| 0 <= k < m1.planets.len() implies #[trigger] m1.planets[k].id
        < m1.next_planet_id by {
        assert(m.planets[k].id < m.next_planet_id);
    }
}

impl Store {
    /// Index of the user row with this id, if any.
    pub fn find_user(&self, id: i64) -> (r: Option<usize>)
        ensures
            (match r {
                Some(i) => i < self@.users.len() && self@.users[i as int].id == id && (forall|
                    j: int| 0 <= j < i ==> self@.users[j].id != id),
                None => forall|j: int| 0 <= j < self@.users.len() ==> self@.users[j].id != id,
            }),
    {
        let mut i: usize = 0;
        while i < self.users.len()
            invariant
                i <= self@.users.len(),
                forall|j: int| 0 <= j < i ==> self@.users[j].id != id,
            decreases self.users.len() - i,
        {
            if self.users[i].id == id {
                return Some(i);
            }
            i = i + 1;
        }
        None
    }

    /// Index of the first user row holding this credential, if any.
    pub fn find_user_by_api_key(&self, key: &str) -> (r: Option<usize>)
        ensures
            (match r {
                Some(i) => i < self@.users.len() && self@.users[i as int].api_key == key@ && (
                forall|j: int| 0 <= j < i ==> self@.users[j].api_key != key@),
                None => forall|j: int|
                    0 <= j < self@.users.len() ==> self@.users[j].api_key != key@,
            }),
    {
        let mut i: usize = 0;
        while i < self.users.len()
            invariant
                i <= self@.users.len(),
                forall|j: int| 0 <= j < i ==> self@.users[j].api_key != key@,
            decreases self.users.len() - i,
        {
            if str_eq(self.users[i].api_key.as_str(), key) {
                return Some(i);
            }
            i = i + 1;
        }
        None
    }

    /// Index of the first user row linked to this player, if any.
    pub fn find_user_by_player_id(&self, player_id: i64) -> (r: Option<usize>)
        ensures
            (match r {
                Some(i) => i < self@.users.len() && self@.users[i as int].player_id == Some(
                    player_id,
                ) && (forall|j: int| 0 <= j < i ==> self@.users[j].player_id != Some(player_id)),
                None => forall|j: int|
                    0 <= j < self@.users.len() ==> self@.users[j].player_id != Some(player_id),
            }),
    {
        let mut i: usize = 0;
        while i < self.users.len()
            invariant
                i <= self@.users.len(),
                forall|j: int| 0 <= j < i ==> self@.users[j].player_id != Some(player_id),
            decreases self.users.len() - i,
        {
            if let Some(pid) = self.users[i].player_id {
                if pid == player_id {
                    return Some(i);
                }
            }
            i = i + 1;
        }
        None
    }

    /// Creates a user row carrying a fresh credential; returns its id.
    pub fn create_user(
        &mut self,
        api_key: String,
        player_id: Option<i64>,
        alliance_id: Option<i64>,
        language: String,
        role: UserRole,
        now: i64,
    ) -> (id: i64)
        requires
            old(self).wf(),
            old(self)@.next_user_id < 0x7fff_ffff_ffff_ffff,
        ensures
            final(self).wf(),
            id == old(self)@.next_user_id,
            final(self)@ == (StoreModel {
                users: old(self)@.users.push(
                    UserModel {
                        id: id,
                        api_key: api_key@,
                        player_id: player_id,
                        alliance_id: alliance_id,
                        language: language@,
                        role: role,
                        last_activity_at: None,
                        created_at: now,
                        updated_at: now,
                    },
                ),
                next_user_id: (old(self)@.next_user_id + 1) as i64,
                ..old(self)@
            }),
    {
        let ghost m0 = self@;
        let id = self.next_user_id;
        let row = User {
            id: id,
            api_key: api_key,
            player_id: player_id,
            alliance_id: alliance_id,
            language: language,
            role: role,
            last_activity_at: None,
            created_at: now,
            updated_at: now,
        };
        let ghost rv = row@;
        self.users.push(row);
        self.next_user_id = self.next_user_id + 1;
        proof {
            let m1 = self@;
            assert(views_of(self.users@) =~= m0.users.push(rv));
            assert(m1 =~= (StoreModel {
                users: m0.users.push(rv),
                next_user_id: (m0.next_user_id + 1) as i64,
                ..m0
            }));
            assert forall|k: int, l: int| 0 <= k < l < m1.users.len() implies m1.users[k].id
                != m1.users[l].id by {
                if l < m0.users.len() {
                    assert(m0.users[k].id != m0.users[l].id);
                } else {
                    assert(m1.users[l] == rv);
                    assert(m1.users[k] == m0.users[k]);
                    assert(m0.users[k].id < m0.next_user_id);
                }
            }
            assert forall|k: int| 0 <= k < m1.users.len() implies #[trigger] m1.users[k].id
                < m1.next_user_id by {
                if k < m0.users.len() {
                    assert(m0.users[k].id < m0.next_user_id);
                }
            }
            lemma_wf_users_changed(m0, m1);
        }
        id
    }

    /// Removes the user row with this id; true when a row was removed.
    pub fn delete_user(&mut self, id: i64) -> (r: bool)
        requires
            old(self).wf(),
        ensures
            final(self).wf(),
            r == old(self)@.users_has(id),
            r ==> exists|i: int|
                0 <= i < old(self)@.users.len() && old(self)@.users[i].id == id && final(self)@
                    == (StoreModel { users: old(self)@.users.remove(i), ..old(self)@ }),
            !r ==> final(self)@ == old(self)@,
    {
        let ghost m0 = self@;
        match self.find_user(id) {
            Some(i) => {
                self.users.remove(i);
                proof {
                    let m1 = self@;
                    m0.users.remove_ensures(i as int);
                    assert(views_of(self.users@) =~= m0.users.remove(i as int));
                    assert(m1 =~= (StoreModel { users: m0.users.remove(i as int), ..m0 }));
                    assert forall|k: int, l: int| 0 <= k < l < m1.users.len() implies m1.users[k].id
                        != m1.users[l].id by {
                        if l < i as int {
                            assert(m1.users[k] == m0.users[k] && m1.users[l] == m0.users[l]);
                            assert(m0.users[k].id != m0.users[l].id);
                        } else if k < i as int {
                            assert(m1.users[k] == m0.users[k] && m1.users[l] == m0.users[l + 1]);
                            assert(m0.users[k].id != m0.users[l + 1].id);
                        } else {
                            assert(m1.users[k] == m0.users[k + 1] && m1.users[l] == m0.users[l + 1]);
                            assert(m0.users[k + 1].id != m0.users[l + 1].id);
                        }
                    }
                    assert forall|k: int| 0 <= k < m1.users.len() implies #[trigger] m1.users[k].id
                        < m1.next_user_id by {
                        if k < i as int {
                            assert(m1.users[k] == m0.users[k]);
                            assert(m0.users[k].id < m0.next_user_id);
                        } else {
                            assert(m1.users[k] == m0.users[k + 1]);
                            assert(m0.users[k + 1].id < m0.next_user_id);
                        }
                    }
                    lemma_wf_users_changed(m0, m1);
                    assert(m0.users[i as int].id == id);
                    assert(m0.users_has(id));
                }
                true
            },
            None => {
                proof {
                    assert(!m0.users_has(id));
                }
                false
            },
        }
    }

    /// Overwrites the role of the user with this id; true when found.
    pub fn update_user_role(&mut self, id: i64, role: UserRole, now: i64) -> (r: bool)
        requires
            old(self).wf(),
        ensures
            final(self).wf(),
            r == old(self)@.users_has(id),
            final(self)@ == (StoreModel {
                users: update_first(
                    old(self)@.users,
                    user_key(id),
                    |u: UserModel| (UserModel { role: role, updated_at: now, ..u }),
                ),
                ..old(self)@
            }),
    {
        let ghost m0 = self@;
        let ghost keyf = user_key(id);
        let ghost mergef = |u: UserModel| (UserModel { role: role, updated_at: now, ..u });
        match self.find_user(id) {
            Some(i) => {
                let mut merged = clone_user(&self.users[i]);
                merged.role = role;
                merged.updated_at = now;
                proof {
                    assert(merged@ =~~= mergef(m0.users[i as int]));
                    lemma_update_first_found(m0.users, keyf, mergef, i as int);
                }
                self.users.set(i, merged);
                proof {
                    let m1 = self@;
                    assert(views_of(self.users@) =~= m0.users.update(
                        i as int,
                        mergef(m0.users[i as int]),
                    ));
                    assert(m1 =~= (StoreModel {
                        users: update_first(m0.users, keyf, mergef),
                        ..m0
                    }));
                    assert forall|k: int, l: int| 0 <= k < l < m1.users.len() implies m1.users[k].id
                        != m1.users[l].id by {
                        assert(m0.users[k].id != m0.users[l].id);
                    }
                    assert forall|k: int| 0 <= k < m1.users.len() implies #[trigger] m1.users[k].id
                        < m1.next_user_id by {
                        assert(m0.users[k].id < m0.next_user_id);
                    }
                    lemma_wf_users_changed(m0, m1);
                    assert(m0.users[i as int].id == id);
                    assert(m0.users_has(id));
                }
                true
            },
            None => {
                proof {
                    lemma_update_first_none(m0.users, keyf, mergef);
                    assert(self@ =~= (StoreModel {
                        users: update_first(m0.users, keyf, mergef),
                        ..m0
                    }));
                    assert(!m0.users_has(id));
                }
                false
            },
        }
    }

    /// Overwrites the language preference of the user with this id.
    pub fn update_user_language(&mut self, id: i64, language: String, now: i64)
        requires
            old(self).wf(),
        ensures
            final(self).wf(),
            final(self)@ == (StoreModel {
                users: update_first(
                    old(self)@.users,
                    user_key(id),
                    language_merge(language@, now),
                ),
                ..old(self)@
            }),
    {
        let ghost m0 = self@;
        let ghost keyf = user_key(id);
        let ghost mergef = language_merge(language@, now);
        match self.find_user(id) {
            Some(i) => {
                let mut merged = clone_user(&self.users[i]);
                merged.language = language;
                merged.updated_at = now;
                proof {
                    assert(merged@ =~~= mergef(m0.users[i as int]));
                    lemma_update_first_found(m0.users, keyf, mergef, i as int);
                }
                self.users.set(i, merged);
                proof {
                    let m1 = self@;
                    assert(views_of(self.users@) =~= m0.users.update(
                        i as int,
                        mergef(m0.users[i as int]),
                    ));
                    assert(m1 =~= (StoreModel {
                        users: update_first(m0.users, keyf, mergef),
                        ..m0
                    }));
                    assert forall|k: int, l: int| 0 <= k < l < m1.users.len() implies m1.users[k].id
                        != m1.users[l].id by {
                        assert(m0.users[k].id != m0.users[l].id);
                    }
                    assert forall|k: int| 0 <= k < m1.users.len() implies #[trigger] m1.users[k].id
                        < m1.next_user_id by {
                        assert(m0.users[k].id < m0.next_user_id);
                    }
                    lemma_wf_users_changed(m0, m1);
                }
            },
            None => {
                proof {
                    lemma_update_first_none(m0.users, keyf, mergef);
                    assert(self@ =~= (StoreModel {
                        users: update_first(m0.users, keyf, mergef),
                        ..m0
                    }));
                }
            },
        }
    }

    /// Stamps the last-activity time of the user with this id.  Callers
    /// treat this as best-effort: failure must never block a request.
    pub fn update_user_activity(&mut self, id: i64, now: i64)
        requires
            old(self).wf(),
        ensures
            final(self).wf(),
            final(self)@ == (StoreModel {
                users: update_first(old(self)@.users, user_key(id), activity_merge(now)),
                ..old(self)@
            }),
    {
        let ghost m0 = self@;
        let ghost keyf = user_key(id);
        let ghost mergef = activity_merge(now);
        match self.find_user(id) {
            Some(i) => {
                let mut merged = clone_user(&self.users[i]);
                merged.last_activity_at = Some(now);
                proof {
                    assert(merged@ =~~= mergef(m0.users[i as int]));
                    lemma_update_first_found(m0.users, keyf, mergef, i as int);
                }
                self.users.set(i, merged);
                proof {
                    let m1 = self@;
                    assert(views_of(self.users@) =~= m0.users.update(
                        i as int,
                        mergef(m0.users[i as int]),
                    ));
                    assert(m1 =~= (StoreModel {
                        users: update_first(m0.users, keyf, mergef),
                        ..m0
                    }));
                    assert forall|k: int, l: int| 0 <= k < l < m1.users.len() implies m1.users[k].id
                        != m1.users[l].id by {
                        assert(m0.users[k].id != m0.users[l].id);
                    }
                    assert forall|k: int| 0 <= k < m1.users.len() implies #[trigger] m1.users[k].id
                        < m1.next_user_id by {
                        assert(m0.users[k].id < m0.next_user_id);
                    }
                    lemma_wf_users_changed(m0, m1);
                }
            },
            None => {
                proof {
                    lemma_update_first_none(m0.users, keyf, mergef);
                    assert(self@ =~= (StoreModel {
                        users: update_first(m0.users, keyf, mergef),
                        ..m0
                    }));
                }
            },
        }
    }
}

/// The language overwrite of a user row.
pub open spec fn language_merge(language: Seq<char>, now: i64) -> spec_fn(UserModel) -> UserModel {
    |u: UserModel| UserModel { language: language, updated_at: now, ..u }
}

/// The activity stamp of a user row.
pub open spec fn activity_merge(now: i64) -> spec_fn(UserModel) -> UserModel {
    |u: UserModel| UserModel { last_activity_at: Some(now), ..u }
}

impl StoreModel {
    /// Some user row carries this id.
    pub open spec fn users_has(self, id: i64) -> bool {
        exists|i: int| 0 <= i < self.users.len() && self.users[i].id == id
    }
}

/// Clones a user row; the view is kept exactly.
pub fn clone_user(u: &User) -> (r: User)
    ensures
        r@ == u@,
{
    User {
        id: u.id,
        api_key: u.api_key.clone(),
        player_id: u.player_id,
        alliance_id: u.alliance_id,
        language: u.language.clone(),
        role: u.role,
        last_activity_at: u.last_activity_at,
        created_at: u.created_at,
        updated_at: u.updated_at,
    }
}

/// Clones a player row; the view is kept exactly.
pub fn clone_player(p: &Player) -> (r: Player)
    ensures
        r@ == p@,
{
    Player {
        id: p.id,
        name: p.name.clone(),
        alliance_id: p.alliance_id,
        main_coordinates: crate::models::clone_opt_string(&p.main_coordinates),
        is_deleted: p.is_deleted,
        inactive_since: p.inactive_since,
        vacation_since: p.vacation_since,
        research: crate::models::clone_opt_count_map(&p.research),
        scores: p.scores,
        notice: crate::models::clone_opt_string(&p.notice),
        combats_total: p.combats_total,
        combats_won: p.combats_won,
        combats_draw: p.combats_draw,
        combats_lost: p.combats_lost,
        units_shot: p.units_shot,
        units_lost: p.units_lost,
        score_buildings: p.score_buildings,
        score_buildings_rank: p.score_buildings_rank,
        score_research: p.score_research,
        score_research_rank: p.score_research_rank,
        score_fleet: p.score_fleet,
        score_fleet_rank: p.score_fleet_rank,
        score_defense: p.score_defense,
        score_defense_rank: p.score_defense_rank,
        score_total: p.score_total,
        score_total_rank: p.score_total_rank,
        honorpoints: p.honorpoints,
        honorpoints_rank: p.honorpoints_rank,
        fights_honorable: p.fights_honorable,
        fights_dishonorable: p.fights_dishonorable,
        fights_neutral: p.fights_neutral,
        destruction_units_killed: p.destruction_units_killed,
        destruction_units_lost: p.destruction_units_lost,
        destruction_recycled_metal: p.destruction_recycled_metal,
        destruction_recycled_crystal: p.destruction_recycled_crystal,
        real_destruction_units_killed: p.real_destruction_units_killed,
        real_destruction_units_lost: p.real_destruction_units_lost,
        real_destruction_recycled_metal: p.real_destruction_recycled_metal,
        real_destruction_recycled_crystal: p.real_destruction_recycled_crystal,
        created_at: p.created_at,
        updated_at: p.updated_at,
    }
}

/// Clones a planet row; the view is kept exactly.
pub fn clone_planet(p: &Planet) -> (r: Planet)
    ensures
        r@ == p@,
{
    Planet {
        id: p.id,
        player_id: p.player_id,
        galaxy: p.galaxy,
        system: p.system,
        position: p.position,
        kind: p.kind,
        name: crate::models::clone_opt_string(&p.name),
        planet_id: p.planet_id,
        fields_used: p.fields_used,
        fields_max: p.fields_max,
        temperature: p.temperature,
        points: p.points,
        metal_prod_h: p.metal_prod_h,
        crystal_prod_h: p.crystal_prod_h,
        deut_prod_h: p.deut_prod_h,
        energy_used: p.energy_used,
        energy_max: p.energy_max,
        resources: crate::models::clone_opt_count_map(&p.resources),
        buildings: crate::models::clone_opt_count_map(&p.buildings),
        fleet: crate::models::clone_opt_count_map(&p.fleet),
        defense: crate::models::clone_opt_count_map(&p.defense),
        status: p.status,
        created_at: p.created_at,
        updated_at: p.updated_at,
    }
}

/// A player present in one model is present in any model with the same
/// player table.
pub proof fn lemma_has_player_same(m: StoreModel, m1: StoreModel, id: i64)
    requires
        m.has_player(id),
        m1.players == m.players,
    ensures
        m1.has_player(id),
{
    let w = choose|w: int| 0 <= w < m.players.len() && m.players[w].id == id;
    assert(m1.players[w].id == id);
}

/// A body present in one model is present in any model with the same
/// planet table.
pub proof fn lemma_has_planet_same(m: StoreModel, m1: StoreModel, g: i64, s: i64, pos: i64, kind: PlanetType)
    requires
        m.has_planet(g, s, pos, kind),
        m1.planets == m.planets,
    ensures
        m1.has_planet(g, s, pos, kind),
{
    let w = choose|w: int| 0 <= w < m.planets.len() && planet_key(g, s, pos, kind)(m.planets[w]);
    assert(planet_key(g, s, pos, kind)(m1.planets[w]));
}

/// A player present stays present under any first-match player update
/// whose merge keeps the id (all player merges do).
pub proof fn lemma_has_player_update_first(
    m: StoreModel,
    m1: StoreModel,
    keyf: spec_fn(PlayerModel) -> bool,
    mergef: spec_fn(PlayerModel) -> PlayerModel,
    id: i64,
)
    requires
        m.has_player(id),
        m1.players == update_first(m.players, keyf, mergef),
        forall|p: PlayerModel| (#[trigger] mergef(p)).id == p.id,
    ensures
        m1.has_player(id),
{
    crate::rowseq::lemma_update_first_shape(m.players, keyf, mergef);
    let w = choose|w: int| 0 <= w < m.players.len() && m.players[w].id == id;
    assert(m1.players[w] == m.players[w] || m1.players[w] == mergef(m.players[w]));
    assert(m1.players[w].id == id);
}

} // verus!
