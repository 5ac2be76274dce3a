//! The export builder: assembles the whole reconciled universe into one
//! document — a map of coordinate groups with fifteen position slots, a
//! flat map of players, and a flat map of alliances with a synthetic
//! "no alliance" sentinel.  The three collections are independent full
//! snapshots.

use vstd::prelude::*;
use crate::models::{AllianceModel, PlanetModel, PlanetType, PlayerModel};
use crate::rowseq::{lemma_upsert_found, lemma_upsert_none, no_match, upsert_seq};
use crate::store::{views_of, Store, StoreModel};

verus! {

/// Multiplication by one thousand, clamped to the i64 range (seconds to
/// milliseconds).
pub open spec fn millis_of(v: int) -> int {
    if v * 1000 > 0x7fff_ffff_ffff_ffff {
        0x7fff_ffff_ffff_ffff
    } else if v * 1000 < -0x8000_0000_0000_0000 {
        -0x8000_0000_0000_0000
    } else {
        v * 1000
    }
}

/// Converts seconds to clamped milliseconds.
pub fn to_millis(v: i64) -> (r: i64)
    ensures
        r == millis_of(v as int),
{
    if v > 0x20c4_9ba5_e353_f7i64 {
        0x7fff_ffff_ffff_ffffi64
    } else if v < -0x20c4_9ba5_e353_f7i64 {
        -0x7fff_ffff_ffff_ffffi64 - 1
    } else {
        proof {
            assert(v * 1000 <= 0x20c4_9ba5_e353_f7 * 1000) by (nonlinear_arith)
                requires v <= 0x20c4_9ba5_e353_f7;
            assert(v * 1000 >= (-0x20c4_9ba5_e353_f7) * 1000) by (nonlinear_arith)
                requires v >= -0x20c4_9ba5_e353_f7;
        }
        v * 1000
    }
}

/// The first player row with an id, if any.
pub open spec fn find_player_row(players: Seq<PlayerModel>, id: i64) -> Option<PlayerModel>
    decreases players.len(),
{
    if players.len() == 0 {
        None
    } else if players[0].id == id {
        Some(players[0])
    } else {
        find_player_row(players.skip(1), id)
    }
}

/// The first alliance row with an id, if any.
pub open spec fn find_alliance_row(alliances: Seq<AllianceModel>, id: i64) -> Option<AllianceModel>
    decreases alliances.len(),
{
    if alliances.len() == 0 {
        None
    } else if alliances[0].id == id {
        Some(alliances[0])
    } else {
        find_alliance_row(alliances.skip(1), id)
    }
}

/// The first body at a key, if any.
pub open spec fn find_planet_row(
    planets: Seq<PlanetModel>,
    g: i64,
    s: i64,
    pos: i64,
    kind: PlanetType,
) -> Option<PlanetModel>
    decreases planets.len(),
{
    if planets.len() == 0 {
        None
    } else if planets[0].galaxy == g && planets[0].system == s && planets[0].position == pos
        && planets[0].kind == kind {
        Some(planets[0])
    } else {
        find_planet_row(planets.skip(1), g, s, pos, kind)
    }
}

/// One planet row flattened for export: owner identity, alliance with the
/// -1/"-" fallback, a has-moon flag, and the freshness timepoint in
/// milliseconds — the system marker's last update when the system was
/// ever scanned, else the planet's own.
pub struct ExportPlanet {
    pub galaxy: i64,
    pub system: i64,
    pub planet: i64,
    pub player_id: Option<i64>,
    pub player_name: Option<String>,
    pub alliance_id: i64,
    pub alliance_name: String,
    pub has_moon: i64,
    pub timepoint: i64,
}

/// Mathematical value of one export planet row.
#[verifier::ext_equal]
pub ghost struct ExportPlanetModel {
    pub galaxy: i64,
    pub system: i64,
    pub planet: i64,
    pub player_id: Option<i64>,
    pub player_name: Option<Seq<char>>,
    pub alliance_id: i64,
    pub alliance_name: Seq<char>,
    pub has_moon: i64,
    pub timepoint: i64,
}

impl View for ExportPlanet {
    type V = ExportPlanetModel;

    open spec fn view(&self) -> ExportPlanetModel {
        ExportPlanetModel {
            galaxy: self.galaxy,
            system: self.system,
            planet: self.planet,
            player_id: self.player_id,
            player_name: crate::models::opt_str_view(self.player_name),
            alliance_id: self.alliance_id,
            alliance_name: self.alliance_name@,
            has_moon: self.has_moon,
            timepoint: self.timepoint,
        }
    }
}

/// What one stored planet row flattens to.
pub open spec fn export_row_of(m: StoreModel, p: PlanetModel) -> ExportPlanetModel {
    let player = find_player_row(m.players, p.player_id);
    let alliance = (match player {
        Some(pl) => (match pl.alliance_id {
            Some(aid) => find_alliance_row(m.alliances, aid),
            None => None,
        }),
        None => None,
    });
    let marker = find_planet_row(m.planets, p.galaxy, p.system, 0, PlanetType::Planet);
    ExportPlanetModel {
        galaxy: p.galaxy,
        system: p.system,
        planet: p.position,
        player_id: (match player {
            Some(pl) => Some(pl.id),
            None => None,
        }),
        player_name: (match player {
            Some(pl) => Some(pl.name),
            None => None,
        }),
        alliance_id: (match alliance {
            Some(a) => a.id,
            None => (-1) as i64,
        }),
        alliance_name: (match alliance {
            Some(a) => a.name,
            None => "-"@,
        }),
        has_moon: (if m.has_planet(p.galaxy, p.system, p.position, PlanetType::Moon) {
            1 as i64
        } else {
            0 as i64
        }),
        timepoint: (match marker {
            Some(mk) => millis_of(mk.updated_at as int) as i64,
            None => millis_of(p.updated_at as int) as i64,
        }),
    }
}

/// The flattened rows of all planet-kind bodies, in store order.
pub open spec fn export_rows_spec(m: StoreModel, planets: Seq<PlanetModel>) -> Seq<ExportPlanetModel>
    decreases planets.len(),
{
    if planets.len() == 0 {
        Seq::<ExportPlanetModel>::empty()
    } else {
        let rest = export_rows_spec(m, planets.drop_last());
        if planets.last().kind == PlanetType::Planet && planets.last().position > 0 {
            rest.push(export_row_of(m, planets.last()))
        } else {
            rest
        }
    }
}

impl Store {
    /// Finds the first player row with an id, as a reference.
    pub(crate) fn player_ref(&self, id: i64) -> (r: Option<&crate::models::Player>)
        ensures
            (match r {
                Some(p) => find_player_row(self@.players, id) == Some(p@),
                None => find_player_row(self@.players, id) is None,
            }),
    {
        let mut i: usize = 0;
        proof {
            assert(self@.players.skip(0) =~= self@.players);
        }
        while i < self.players.len()
            invariant
                0 <= i <= self@.players.len(),
                self@.players.len() == self.players@.len(),
                find_player_row(self@.players, id) == find_player_row(
                    self@.players.skip(i as int),
                    id,
                ),
            decreases self@.players.len() - i,
        {
            proof {
                assert(self@.players.skip(i as int)[0] == self@.players[i as int]);
                assert(self@.players.skip(i as int).skip(1) =~= self@.players.skip(i + 1));
            }
            if self.players[i].id == id {
                return Some(&self.players[i]);
            }
            i = i + 1;
        }
        proof {
            assert(self@.players.skip(i as int) =~= Seq::<PlayerModel>::empty());
        }
        None
    }

    /// Finds the first alliance row with an id, as a reference.
    pub(crate) fn alliance_ref(&self, id: i64) -> (r: Option<&crate::models::Alliance>)
        ensures
            (match r {
                Some(a) => find_alliance_row(self@.alliances, id) == Some(a@),
                None => find_alliance_row(self@.alliances, id) is None,
            }),
    {
        let mut i: usize = 0;
        proof {
            assert(self@.alliances.skip(0) =~= self@.alliances);
        }
        while i < self.alliances.len()
            invariant
                0 <= i <= self@.alliances.len(),
                self@.alliances.len() == self.alliances@.len(),
                find_alliance_row(self@.alliances, id) == find_alliance_row(
                    self@.alliances.skip(i as int),
                    id,
                ),
            decreases self@.alliances.len() - i,
        {
            proof {
                assert(self@.alliances.skip(i as int)[0] == self@.alliances[i as int]);
                assert(self@.alliances.skip(i as int).skip(1) =~= self@.alliances.skip(i + 1));
            }
            if self.alliances[i].id == id {
                return Some(&self.alliances[i]);
            }
            i = i + 1;
        }
        proof {
            assert(self@.alliances.skip(i as int) =~= Seq::<AllianceModel>::empty());
        }
        None
    }

    /// Finds the first body at a key, as a reference.
    pub(crate) fn planet_ref(&self, g: i64, s: i64, pos: i64, kind: PlanetType) -> (r: Option<
        &crate::models::Planet,
    >)
        ensures
            (match r {
                Some(p) => find_planet_row(self@.planets, g, s, pos, kind) == Some(p@),
                None => find_planet_row(self@.planets, g, s, pos, kind) is None,
            }),
    {
        let mut i: usize = 0;
        proof {
            assert(self@.planets.skip(0) =~= self@.planets);
        }
        while i < self.planets.len()
            invariant
                0 <= i <= self@.planets.len(),
                self@.planets.len() == self.planets@.len(),
                find_planet_row(self@.planets, g, s, pos, kind) == find_planet_row(
                    self@.planets.skip(i as int),
                    g,
                    s,
                    pos,
                    kind,
                ),
            decreases self@.planets.len() - i,
        {
            proof {
                assert(self@.planets.skip(i as int)[0] == self@.planets[i as int]);
                assert(self@.planets.skip(i as int).skip(1) =~= self@.planets.skip(i + 1));
            }
            let p = &self.planets[i];
            if p.galaxy == g && p.system == s && p.position == pos && p.kind == kind {
                return Some(&self.planets[i]);
            }
            i = i + 1;
        }
        proof {
            assert(self@.planets.skip(i as int) =~= Seq::<PlanetModel>::empty());
        }
        None
    }

    /// Flattens every planet-kind body (the system markers at position 0
    /// excluded) into its export row, in store order.
    pub fn export_planets(&self) -> (r: Vec<ExportPlanet>)
        requires
            self.wf(),
        ensures
            views_of(r@) == export_rows_spec(self@, self@.planets),
    {
        let ghost m = self@;
        let mut out: Vec<ExportPlanet> = Vec::new();
        let mut i: usize = 0;
        proof {
            assert(m.planets.take(0) =~= Seq::<PlanetModel>::empty());
            assert(views_of(out@) =~= export_rows_spec(m, m.planets.take(0)));
        }
        while i < self.planets.len()
            invariant
                0 <= i <= self@.planets.len(),
                self@ == m,
                self.wf(),
                self@.planets.len() == self.planets@.len(),
                views_of(out@) == export_rows_spec(m, m.planets.take(i as int)),
            decreases self@.planets.len() - i,
        {
            let ghost pv = m.planets[i as int];
            proof {
                assert(m.planets.take(i + 1).drop_last() =~= m.planets.take(i as int));
                assert(m.planets.take(i + 1).last() == pv);
            }
            let p = &self.planets[i];
            if (match p.kind {
                PlanetType::Planet => true,
                PlanetType::Moon => false,
            }) && p.position > 0 {
                let player = self.player_ref(p.player_id);
                let (pid, pname, aid_opt) = match player {
                    Some(pl) => (
                        Some(pl.id),
                        Some(pl.name.clone()),
                        pl.alliance_id,
                    ),
                    None => (None, None, None),
                };
                let alliance = match aid_opt {
                    Some(aid) => self.alliance_ref(aid),
                    None => None,
                };
                let (alliance_id, alliance_name) = match alliance {
                    Some(a) => (a.id, a.name.clone()),
                    None => (-1i64, String::from_str("-")),
                };
                let has_moon: i64 = match self.find_planet(p.galaxy, p.system, p.position, PlanetType::Moon) {
                    Some(_) => 1,
                    None => 0,
                };
                let marker = self.planet_ref(p.galaxy, p.system, 0, PlanetType::Planet);
                let timepoint = match marker {
                    Some(mk) => to_millis(mk.updated_at),
                    None => to_millis(p.updated_at),
                };
                let row = ExportPlanet {
                    galaxy: p.galaxy,
                    system: p.system,
                    planet: p.position,
                    player_id: pid,
                    player_name: pname,
                    alliance_id,
                    alliance_name,
                    has_moon,
                    timepoint,
                };
                proof {
                    if m.has_planet(pv.galaxy, pv.system, pv.position, PlanetType::Moon) {
                        let w = choose|w: int|
                            0 <= w < m.planets.len() && crate::store::planet_key(
                                pv.galaxy,
                                pv.system,
                                pv.position,
                                PlanetType::Moon,
                            )(m.planets[w]);
                        assert(find_planet_row(
                            m.planets,
                            pv.galaxy,
                            pv.system,
                            pv.position,
                            PlanetType::Moon,
                        ) is Some) by {
                            lemma_find_planet_exists(
                                m.planets,
                                pv.galaxy,
                                pv.system,
                                pv.position,
                                PlanetType::Moon,
                                w,
                            );
                        }
                    } else {
                        lemma_find_planet_absent(
                            m.planets,
                            pv.galaxy,
                            pv.system,
                            pv.position,
                            PlanetType::Moon,
                        );
                    }
                    assert(row@ =~~= export_row_of(m, pv));
                }
                out.push(row);
                proof {
                    assert(views_of(out@) =~= export_rows_spec(m, m.planets.take(i + 1)));
                }
            } else {
                proof {
                    assert(export_rows_spec(m, m.planets.take(i + 1)) == export_rows_spec(
                        m,
                        m.planets.take(i as int),
                    ));
                }
            }
            i = i + 1;
        }
        proof {
            assert(m.planets.take(m.planets.len() as int) =~= m.planets);
        }
        out
    }
}

/// A found witness makes the first-match search succeed.
proof fn lemma_find_planet_exists(
    planets: Seq<PlanetModel>,
    g: i64,
    s: i64,
    pos: i64,
    kind: PlanetType,
    w: int,
)
    requires
        0 <= w < planets.len(),
        planets[w].galaxy == g && planets[w].system == s && planets[w].position == pos
            && planets[w].kind == kind,
    ensures
        find_planet_row(planets, g, s, pos, kind) is Some,
    decreases w,
{
    if planets.len() > 0 {
        if planets[0].galaxy == g && planets[0].system == s && planets[0].position == pos
            && planets[0].kind == kind {
        } else {
            assert(w > 0);
            assert(planets.skip(1)[w - 1] == planets[w]);
            lemma_find_planet_exists(planets.skip(1), g, s, pos, kind, w - 1);
        }
    }
}

/// No matching row makes the first-match search fail.
proof fn lemma_find_planet_absent(planets: Seq<PlanetModel>, g: i64, s: i64, pos: i64, kind: PlanetType)
    requires
        forall|i: int|
            0 <= i < planets.len() ==> !(#[trigger] planets[i].galaxy == g && planets[i].system == s
                && planets[i].position == pos && planets[i].kind == kind),
    ensures
        find_planet_row(planets, g, s, pos, kind) is None,
    decreases planets.len(),
{
    if planets.len() > 0 {
        assert(forall|i: int|
            0 <= i < planets.skip(1).len() ==> planets.skip(1)[i] == planets[i + 1]);
        lemma_find_planet_absent(planets.skip(1), g, s, pos, kind);
    }
}

/// One exported player: name and freshness timepoint, keyed by id.
pub struct ExportPlayer {
    pub id: i64,
    pub name: String,
    pub timepoint: i64,
}

/// Mathematical value of one exported player.
#[verifier::ext_equal]
pub ghost struct ExportPlayerModel {
    pub id: i64,
    pub name: Seq<char>,
    pub timepoint: i64,
}

impl View for ExportPlayer {
    type V = ExportPlayerModel;

    open spec fn view(&self) -> ExportPlayerModel {
        ExportPlayerModel { id: self.id, name: self.name@, timepoint: self.timepoint }
    }
}

/// One exported alliance: name and freshness timepoint, keyed by id.
pub struct ExportAlliance {
    pub id: i64,
    pub name: String,
    pub timepoint: i64,
}

/// Mathematical value of one exported alliance.
#[verifier::ext_equal]
pub ghost struct ExportAllianceModel {
    pub id: i64,
    pub name: Seq<char>,
    pub timepoint: i64,
}

impl View for ExportAlliance {
    type V = ExportAllianceModel;

    open spec fn view(&self) -> ExportAllianceModel {
        ExportAllianceModel { id: self.id, name: self.name@, timepoint: self.timepoint }
    }
}

/// What the player export holds: every player, in store order, with the
/// update time in milliseconds.
pub open spec fn export_players_spec(players: Seq<PlayerModel>) -> Seq<ExportPlayerModel>
    decreases players.len(),
{
    if players.len() == 0 {
        Seq::<ExportPlayerModel>::empty()
    } else {
        export_players_spec(players.drop_last()).push(
            ExportPlayerModel {
                id: players.last().id,
                name: players.last().name,
                timepoint: millis_of(players.last().updated_at as int) as i64,
            },
        )
    }
}

/// What the alliance export holds, before the sentinel.
pub open spec fn export_alliances_spec(alliances: Seq<AllianceModel>) -> Seq<ExportAllianceModel>
    decreases alliances.len(),
{
    if alliances.len() == 0 {
        Seq::<ExportAllianceModel>::empty()
    } else {
        export_alliances_spec(alliances.drop_last()).push(
            ExportAllianceModel {
                id: alliances.last().id,
                name: alliances.last().name,
                timepoint: millis_of(alliances.last().updated_at as int) as i64,
            },
        )
    }
}

/// The maximum timepoint of the exported alliances, zero when none.
pub open spec fn max_timepoint(l: Seq<ExportAllianceModel>) -> int
    decreases l.len(),
{
    if l.len() == 0 {
        0
    } else {
        let rest = max_timepoint(l.drop_last());
        if l.last().timepoint as int > rest {
            l.last().timepoint as int
        } else {
            rest
        }
    }
}

impl Store {
    /// Lists every player for export, in store order.
    pub fn export_players(&self) -> (r: Vec<ExportPlayer>)
        ensures
            views_of(r@) == export_players_spec(self@.players),
    {
        let mut out: Vec<ExportPlayer> = Vec::new();
        let mut i: usize = 0;
        proof {
            assert(self@.players.take(0) =~= Seq::<PlayerModel>::empty());
            assert(views_of(out@) =~= export_players_spec(self@.players.take(0)));
        }
        while i < self.players.len()
            invariant
                0 <= i <= self@.players.len(),
                self@.players.len() == self.players@.len(),
                views_of(out@) == export_players_spec(self@.players.take(i as int)),
            decreases self@.players.len() - i,
        {
            proof {
                assert(self@.players.take(i + 1).drop_last() =~= self@.players.take(i as int));
                assert(self@.players.take(i + 1).last() == self@.players[i as int]);
            }
            let p = &self.players[i];
            let row = ExportPlayer {
                id: p.id,
                name: p.name.clone(),
                timepoint: to_millis(p.updated_at),
            };
            out.push(row);
            proof {
                assert(views_of(out@) =~= export_players_spec(self@.players.take(i + 1)));
            }
            i = i + 1;
        }
        proof {
            assert(self@.players.take(self@.players.len() as int) =~= self@.players);
        }
        out
    }

    /// Lists every alliance for export, in store order, and appends the
    /// synthetic "no alliance" sentinel whose freshness is the maximum
    /// across all alliances.
    pub fn export_alliances(&self) -> (r: Vec<ExportAlliance>)
        ensures
            views_of(r@) == export_alliances_spec(self@.alliances).push(
                ExportAllianceModel {
                    id: (-1) as i64,
                    name: "-"@,
                    timepoint: max_timepoint(export_alliances_spec(self@.alliances)) as i64,
                },
            ),
    {
        let mut out: Vec<ExportAlliance> = Vec::new();
        let mut max_tp: i64 = 0;
        let mut i: usize = 0;
        proof {
            assert(self@.alliances.take(0) =~= Seq::<AllianceModel>::empty());
            assert(views_of(out@) =~= export_alliances_spec(self@.alliances.take(0)));
        }
        while i < self.alliances.len()
            invariant
                0 <= i <= self@.alliances.len(),
                self@.alliances.len() == self.alliances@.len(),
                views_of(out@) == export_alliances_spec(self@.alliances.take(i as int)),
                max_tp == max_timepoint(export_alliances_spec(self@.alliances.take(i as int))),
            decreases self@.alliances.len() - i,
        {
            proof {
                assert(self@.alliances.take(i + 1).drop_last() =~= self@.alliances.take(i as int));
                assert(self@.alliances.take(i + 1).last() == self@.alliances[i as int]);
            }
            let a = &self.alliances[i];
            let tp = to_millis(a.updated_at);
            let row = ExportAlliance { id: a.id, name: a.name.clone(), timepoint: tp };
            out.push(row);
            if tp > max_tp {
                max_tp = tp;
            }
            proof {
                assert(views_of(out@) =~= export_alliances_spec(self@.alliances.take(i + 1)));
                assert(export_alliances_spec(self@.alliances.take(i + 1)).drop_last()
                    =~= export_alliances_spec(self@.alliances.take(i as int)));
            }
            i = i + 1;
        }
        proof {
            assert(self@.alliances.take(self@.alliances.len() as int) =~= self@.alliances);
        }
        let sentinel = ExportAlliance { id: -1, name: String::from_str("-"), timepoint: max_tp };
        out.push(sentinel);
        proof {
            reveal_strlit("-");
            assert(views_of(out@) =~= export_alliances_spec(self@.alliances).push(
                ExportAllianceModel {
                    id: (-1) as i64,
                    name: "-"@,
                    timepoint: max_timepoint(export_alliances_spec(self@.alliances)) as i64,
                },
            ));
        }
        out
    }
}

/// One occupied position slot of the export document, in the fixed wire
/// shape the external viewer consumes.
pub struct PlanetSlotData {
    pub planetname: String,
    pub hasmoon: bool,
    pub playerid: i64,
    pub name: String,
    pub allianceid: i64,
    pub alliancename: String,
    pub special: String,
}

/// Mathematical value of one slot.
#[verifier::ext_equal]
pub ghost struct PlanetSlotDataModel {
    pub planetname: Seq<char>,
    pub hasmoon: bool,
    pub playerid: i64,
    pub name: Seq<char>,
    pub allianceid: i64,
    pub alliancename: Seq<char>,
    pub special: Seq<char>,
}

impl View for PlanetSlotData {
    type V = PlanetSlotDataModel;

    open spec fn view(&self) -> PlanetSlotDataModel {
        PlanetSlotDataModel {
            planetname: self.planetname@,
            hasmoon: self.hasmoon,
            playerid: self.playerid,
            name: self.name@,
            allianceid: self.allianceid,
            alliancename: self.alliancename@,
            special: self.special@,
        }
    }
}

/// One coordinate group of the export document: fifteen position slots
/// (absent when vacant or unowned) and the group's freshness timepoint —
/// the maximum of its constituent rows'.
pub struct ExportGroup {
    pub galaxy: i64,
    pub system: i64,
    pub slots: Vec<Option<PlanetSlotData>>,
    pub timepoint: i64,
}

/// Mathematical value of one coordinate group.
#[verifier::ext_equal]
pub ghost struct ExportGroupModel {
    pub galaxy: i64,
    pub system: i64,
    pub slots: Seq<Option<PlanetSlotDataModel>>,
    pub timepoint: i64,
}

impl View for ExportGroup {
    type V = ExportGroupModel;

    open spec fn view(&self) -> ExportGroupModel {
        ExportGroupModel {
            galaxy: self.galaxy,
            system: self.system,
            slots: self.slots@.map_values(
                |s: Option<PlanetSlotData>|
                    (match s {
                        Some(d) => Some(d@),
                        None => None,
                    }),
            ),
            timepoint: self.timepoint,
        }
    }
}

/// The slot an export row fills, when it carries an owner.
pub open spec fn slot_of_row(row: ExportPlanetModel) -> Option<PlanetSlotDataModel> {
    match (row.player_id, row.player_name) {
        (Some(pid), Some(pname)) => Some(
            PlanetSlotDataModel {
                planetname: Seq::<char>::empty(),
                hasmoon: row.has_moon != 0,
                playerid: pid,
                name: pname,
                allianceid: row.alliance_id,
                alliancename: row.alliance_name,
                special: Seq::<char>::empty(),
            },
        ),
        _ => None,
    }
}

/// An empty group for a coordinate pair: fifteen vacant slots, the
/// timepoint of the first row seen.
pub open spec fn fresh_group(g: i64, s: i64, tp: i64) -> ExportGroupModel {
    ExportGroupModel {
        galaxy: g,
        system: s,
        slots: Seq::<Option<PlanetSlotDataModel>>::new(15, |i: int| None),
        timepoint: tp,
    }
}

/// Folding one export row into its group: the group's timepoint rises to
/// the row's, and positions 1 to 15 with an owner fill their slot.
pub open spec fn group_merge(row: ExportPlanetModel) -> spec_fn(ExportGroupModel) -> ExportGroupModel {
    |grp: ExportGroupModel|
        {
            let tp = if row.timepoint > grp.timepoint {
                row.timepoint
            } else {
                grp.timepoint
            };
            if 1 <= row.planet <= 15 && (slot_of_row(row) is Some) {
                ExportGroupModel {
                    slots: grp.slots.update(row.planet - 1, slot_of_row(row)),
                    timepoint: tp,
                    ..grp
                }
            } else {
                ExportGroupModel { timepoint: tp, ..grp }
            }
        }
}

/// One export row folded into the accumulated groups.
pub open spec fn fold_group_row(acc: Seq<ExportGroupModel>, row: ExportPlanetModel) -> Seq<
    ExportGroupModel,
> {
    upsert_seq(
        acc,
        |g: ExportGroupModel| g.galaxy == row.galaxy && g.system == row.system,
        group_merge(row),
        group_merge(row)(fresh_group(row.galaxy, row.system, row.timepoint)),
    )
}

/// All export rows folded into groups, in row order.
pub open spec fn fold_groups(acc: Seq<ExportGroupModel>, rows: Seq<ExportPlanetModel>) -> Seq<
    ExportGroupModel,
>
    decreases rows.len(),
{
    if rows.len() == 0 {
        acc
    } else {
        fold_groups(fold_group_row(acc, rows[0]), rows.skip(1))
    }
}

/// Peeling one row off the end of a prefix.
proof fn lemma_fold_groups_snoc(acc: Seq<ExportGroupModel>, rows: Seq<ExportPlanetModel>, i: int)
    requires
        0 <= i < rows.len(),
    ensures
        fold_groups(acc, rows.subrange(0, i + 1)) == fold_group_row(
            fold_groups(acc, rows.subrange(0, i)),
            rows[i],
        ),
    decreases i,
{
    if i == 0 {
        assert(rows.subrange(0, 1).skip(1) =~= Seq::<ExportPlanetModel>::empty());
        assert(rows.subrange(0, 0) =~= Seq::<ExportPlanetModel>::empty());
        assert(rows.subrange(0, 1)[0] == rows[0]);
        let e = fold_group_row(acc, rows[0]);
        assert(fold_groups(acc, rows.subrange(0, 1)) == fold_groups(e, rows.subrange(0, 1).skip(1)));
        assert(fold_groups(e, Seq::<ExportPlanetModel>::empty()) == e);
        assert(fold_groups(acc, Seq::<ExportPlanetModel>::empty()) == acc);
    } else {
        let l1 = rows.skip(1);
        let e = fold_group_row(acc, rows[0]);
        lemma_fold_groups_snoc(e, l1, i - 1);
        assert(rows.subrange(0, i + 1)[0] == rows[0]);
        assert(rows.subrange(0, i)[0] == rows[0]);
        assert(rows.subrange(0, i + 1).skip(1) =~= l1.subrange(0, i));
        assert(rows.subrange(0, i).skip(1) =~= l1.subrange(0, i - 1));
        assert(l1[i - 1] == rows[i]);
        assert(fold_groups(acc, rows.subrange(0, i + 1)) == fold_groups(e, l1.subrange(0, i)));
        assert(fold_groups(acc, rows.subrange(0, i)) == fold_groups(e, l1.subrange(0, i - 1)));
    }
}

/// Index of the group for a coordinate pair, if any.
fn find_group(acc: &Vec<ExportGroup>, g: i64, s: i64) -> (r: Option<usize>)
    ensures
        (match r {
            Some(i) => i < acc@.len() && views_of(acc@)[i as int].galaxy == g && views_of(
                acc@,
            )[i as int].system == s && (forall|l: int|
                0 <= l < i ==> !(views_of(acc@)[l].galaxy == g && views_of(acc@)[l].system == s)),
            None => forall|l: int|
                0 <= l < acc@.len() ==> !(views_of(acc@)[l].galaxy == g && views_of(acc@)[l].system
                    == s),
        }),
{
    let mut k: usize = 0;
    while k < acc.len()
        invariant
            0 <= k <= acc@.len(),
            forall|l: int|
                0 <= l < k ==> !(views_of(acc@)[l].galaxy == g && views_of(acc@)[l].system == s),
        decreases acc@.len() - k,
    {
        if acc[k].galaxy == g && acc[k].system == s {
            proof {
                assert(views_of(acc@)[k as int].galaxy == g);
            }
            return Some(k);
        }
        k = k + 1;
    }
    None
}

/// Applies one row's merge to an executable group.
fn apply_group_merge(grp: &ExportGroup, row: &ExportPlanet) -> (r: ExportGroup)
    requires
        grp.slots@.len() == 15,
    ensures
        r@ == group_merge(row@)(grp@),
        r.slots@.len() == 15,
{
    let tp = if row.timepoint > grp.timepoint {
        row.timepoint
    } else {
        grp.timepoint
    };
    let mut slots: Vec<Option<PlanetSlotData>> = Vec::new();
    let mut i: usize = 0;
    while i < grp.slots.len()
        invariant
            0 <= i <= grp.slots@.len(),
            slots@.len() == i,
            forall|j: int|
                0 <= j < i ==> (match (#[trigger] slots@[j], grp.slots@[j]) {
                    (Some(a), Some(b)) => a@ == b@,
                    (None, None) => true,
                    _ => false,
                }),
        decreases grp.slots@.len() - i,
    {
        let copied = match &grp.slots[i] {
            Some(d) => Some(
                PlanetSlotData {
                    planetname: d.planetname.clone(),
                    hasmoon: d.hasmoon,
                    playerid: d.playerid,
                    name: d.name.clone(),
                    allianceid: d.allianceid,
                    alliancename: d.alliancename.clone(),
                    special: d.special.clone(),
                },
            ),
            None => None,
        };
        slots.push(copied);
        i = i + 1;
    }
    let mut out = ExportGroup { galaxy: grp.galaxy, system: grp.system, slots, timepoint: tp };
    let filled = match (row.player_id, &row.player_name) {
        (Some(pid), Some(pname)) => Some(
            PlanetSlotData {
                planetname: String::new(),
                hasmoon: row.has_moon != 0,
                playerid: pid,
                name: pname.clone(),
                allianceid: row.alliance_id,
                alliancename: row.alliance_name.clone(),
                special: String::new(),
            },
        ),
        _ => None,
    };
    if 1 <= row.planet && row.planet <= 15 {
        match filled {
            Some(d) => {
                proof {
                    assert(slot_of_row(row@) is Some);
                    assert(d@ =~~= slot_of_row(row@)->0);
                }
                out.slots.set((row.planet - 1) as usize, Some(d));
            },
            None => {
                proof {
                    assert(slot_of_row(row@) is None);
                }
            },
        }
    }
    proof {
        assert(out@ =~~= group_merge(row@)(grp@));
    }
    out
}

/// Builds a fresh group with fifteen vacant slots.
fn make_fresh_group(g: i64, s: i64, tp: i64) -> (r: ExportGroup)
    ensures
        r@ == fresh_group(g, s, tp),
        r.slots@.len() == 15,
{
    let mut slots: Vec<Option<PlanetSlotData>> = Vec::new();
    let mut i: usize = 0;
    while i < 15
        invariant
            0 <= i <= 15,
            slots@.len() == i,
            forall|j: int| 0 <= j < i ==> slots@[j] is None,
        decreases 15 - i,
    {
        slots.push(None);
        i = i + 1;
    }
    let r = ExportGroup { galaxy: g, system: s, slots, timepoint: tp };
    proof {
        assert(r@ =~~= fresh_group(g, s, tp));
    }
    r
}

/// Groups the flattened export rows by coordinate pair into the fixed
/// fifteen-slot document shape, the group timepoint being the maximum of
/// its rows'.
pub fn export_groups(rows: &Vec<ExportPlanet>) -> (r: Vec<ExportGroup>)
    ensures
        views_of(r@) == fold_groups(Seq::<ExportGroupModel>::empty(), views_of(rows@)),
{
    let ghost rv = views_of(rows@);
    let mut acc: Vec<ExportGroup> = Vec::new();
    let mut i: usize = 0;
    proof {
        assert(rv.subrange(0, 0) =~= Seq::<ExportPlanetModel>::empty());
        assert(views_of(acc@) =~= Seq::<ExportGroupModel>::empty());
    }
    while i < rows.len()
        invariant
            0 <= i <= rows@.len(),
            rv == views_of(rows@),
            rv.len() == rows@.len(),
            views_of(acc@) == fold_groups(Seq::<ExportGroupModel>::empty(), rv.subrange(0, i as int)),
            forall|j: int| 0 <= j < acc@.len() ==> (#[trigger] acc@[j].slots)@.len() == 15,
        decreases rows@.len() - i,
    {
        let ghost base = views_of(acc@);
        let ghost row_v = rv[i as int];
        proof {
            assert(row_v == rows@[i as int]@);
        }
        let row = &rows[i];
        let ghost keyf = |g: ExportGroupModel| g.galaxy == row_v.galaxy && g.system == row_v.system;
        let ghost mergef = group_merge(row_v);
        let ghost fresh = mergef(fresh_group(row_v.galaxy, row_v.system, row_v.timepoint));
        match find_group(&acc, row.galaxy, row.system) {
            Some(fi) => {
                proof {
                    lemma_upsert_found(base, keyf, mergef, fresh, fi as int);
                }
                let merged = apply_group_merge(&acc[fi], row);
                acc.set(fi, merged);
            },
            None => {
                proof {
                    assert(no_match(base, keyf));
                    lemma_upsert_none(base, keyf, mergef, fresh);
                }
                let grp = make_fresh_group(row.galaxy, row.system, row.timepoint);
                let merged = apply_group_merge(&grp, row);
                acc.push(merged);
            },
        }
        proof {
            assert(views_of(acc@) =~= fold_group_row(base, row_v));
            lemma_fold_groups_snoc(Seq::<ExportGroupModel>::empty(), rv, i as int);
        }
        i = i + 1;
    }
    proof {
        assert(rv.subrange(0, rv.len() as int) =~= rv);
    }
    acc
}


/// A found witness makes the first-match search succeed (shared form).
pub proof fn lemma_find_planet_exists_pub(
    planets: Seq<PlanetModel>,
    g: i64,
    s: i64,
    pos: i64,
    kind: PlanetType,
    w: int,
)
    requires
        0 <= w < planets.len(),
        planets[w].galaxy == g && planets[w].system == s && planets[w].position == pos
            && planets[w].kind == kind,
    ensures
        find_planet_row(planets, g, s, pos, kind) is Some,
{
    lemma_find_planet_exists(planets, g, s, pos, kind, w);
}

} // verus!
