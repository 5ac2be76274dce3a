//! The empire snapshot ingestor: one player's full per-planet snapshot
//! (resources, production, buildings, fleet, defense, research), upserted
//! wholesale per planet — the snapshot is authoritative for each planet at
//! that moment.

use vstd::prelude::*;
use crate::errors::AppError;
use crate::models::{clone_vec_copy, CountEntry, CountMap};
use crate::store::{
    ensure_player_spec, lemma_has_player_same, lemma_has_player_update_first,
    link_player_alliance_spec, update_player_research_spec, upsert_planet_empire_spec, views_of,
    PlanetData, PlanetDataModel, Store, StoreModel,
};
use crate::textutil::coords_of_string;

verus! {

/// Hourly production figures of one planet.
#[derive(Clone, Copy, Debug, PartialEq, Eq, Structural)]
pub struct EmpireProduction {
    pub metal: i64,
    pub crystal: i64,
    pub deuterium: i64,
    pub energy_used: i64,
    pub energy_max: i64,
}

/// One planet of an empire snapshot, its coordinates still serialized.
pub struct EmpirePlanet {
    pub external_id: i64,
    pub name: String,
    pub coordinates: String,
    pub fields_used: i64,
    pub fields_max: i64,
    pub temperature: i64,
    pub points: i64,
    pub resources: CountMap,
    pub production: EmpireProduction,
    pub buildings: CountMap,
    pub fleet: CountMap,
    pub defense: CountMap,
}

/// Mathematical value of one empire planet.
#[verifier::ext_equal]
pub ghost struct EmpirePlanetModel {
    pub external_id: i64,
    pub name: Seq<char>,
    pub coordinates: Seq<char>,
    pub fields_used: i64,
    pub fields_max: i64,
    pub temperature: i64,
    pub points: i64,
    pub resources: Seq<CountEntry>,
    pub production: EmpireProduction,
    pub buildings: Seq<CountEntry>,
    pub fleet: Seq<CountEntry>,
    pub defense: Seq<CountEntry>,
}

impl View for EmpirePlanet {
    type V = EmpirePlanetModel;

    open spec fn view(&self) -> EmpirePlanetModel {
        EmpirePlanetModel {
            external_id: self.external_id,
            name: self.name@,
            coordinates: self.coordinates@,
            fields_used: self.fields_used,
            fields_max: self.fields_max,
            temperature: self.temperature,
            points: self.points,
            resources: self.resources@,
            production: self.production,
            buildings: self.buildings@,
            fleet: self.fleet@,
            defense: self.defense@,
        }
    }
}

/// One player's full empire snapshot.
pub struct EmpireSyncRequest {
    pub player_id: i64,
    pub player_name: String,
    pub research: CountMap,
    pub planets: Vec<EmpirePlanet>,
}

/// Mathematical value of an empire snapshot.
#[verifier::ext_equal]
pub ghost struct EmpireSyncRequestModel {
    pub player_id: i64,
    pub player_name: Seq<char>,
    pub research: Seq<CountEntry>,
    pub planets: Seq<EmpirePlanetModel>,
}

impl View for EmpireSyncRequest {
    type V = EmpireSyncRequestModel;

    open spec fn view(&self) -> EmpireSyncRequestModel {
        EmpireSyncRequestModel {
            player_id: self.player_id,
            player_name: self.player_name@,
            research: self.research@,
            planets: views_of(self.planets@),
        }
    }
}

/// The full-data planet payload derived from one empire planet at parsed
/// coordinates.
pub open spec fn empire_planet_data(
    pid: i64,
    p: EmpirePlanetModel,
    g: i64,
    s: i64,
    pos: i64,
) -> PlanetDataModel {
    PlanetDataModel {
        player_id: pid,
        external_id: p.external_id,
        name: p.name,
        galaxy: g,
        system: s,
        position: pos,
        fields_used: p.fields_used,
        fields_max: p.fields_max,
        temperature: p.temperature,
        points: p.points,
        metal_prod_h: p.production.metal,
        crystal_prod_h: p.production.crystal,
        deut_prod_h: p.production.deuterium,
        energy_used: p.production.energy_used,
        energy_max: p.production.energy_max,
        resources: p.resources,
        buildings: p.buildings,
        fleet: p.fleet,
        defense: p.defense,
    }
}

/// What one empire planet does to the store: a wholesale upsert at its
/// parsed coordinates; a malformed coordinate string is skipped, not
/// fatal.
pub open spec fn apply_empire_planet_spec(m: StoreModel, pid: i64, p: EmpirePlanetModel, now: i64) -> StoreModel {
    match coords_of_string(p.coordinates) {
        Some((g, s, pos)) => upsert_planet_empire_spec(m, empire_planet_data(pid, p, g, s, pos), now),
        None => m,
    }
}

/// The snapshot's planets applied in order.
pub open spec fn apply_empire_planets_spec(
    m: StoreModel,
    pid: i64,
    l: Seq<EmpirePlanetModel>,
    now: i64,
) -> StoreModel
    decreases l.len(),
{
    if l.len() == 0 {
        m
    } else {
        apply_empire_planets_spec(apply_empire_planet_spec(m, pid, l[0], now), pid, l.skip(1), now)
    }
}

/// The player the snapshot belongs to: the payload's id when positive,
/// else the authenticated caller's linked player.
pub open spec fn empire_resolved_player(req: EmpireSyncRequestModel, caller_player: Option<i64>) -> Option<i64> {
    if req.player_id > 0 {
        Some(req.player_id)
    } else {
        caller_player
    }
}

/// What a whole empire sync does, once the player is resolved: resolve
/// the player row, link the caller's alliance, persist the research map,
/// then upsert every parsable planet.
pub open spec fn apply_empire_sync_spec(
    m: StoreModel,
    req: EmpireSyncRequestModel,
    pid: i64,
    caller_alliance: Option<i64>,
    now: i64,
) -> StoreModel {
    let m1 = ensure_player_spec(m, pid, req.player_name, now);
    let m2 = match caller_alliance {
        Some(aid) => link_player_alliance_spec(m1, pid, aid, now),
        None => m1,
    };
    let m3 = update_player_research_spec(m2, pid, req.research, now);
    apply_empire_planets_spec(m3, pid, req.planets, now)
}

/// Peeling one planet off the end of a prefix.
proof fn lemma_empire_snoc(m: StoreModel, pid: i64, l: Seq<EmpirePlanetModel>, i: int, now: i64)
    requires
        0 <= i < l.len(),
    ensures
        apply_empire_planets_spec(m, pid, l.subrange(0, i + 1), now) == apply_empire_planet_spec(
            apply_empire_planets_spec(m, pid, l.subrange(0, i), now),
            pid,
            l[i],
            now,
        ),
    decreases i,
{
    if i == 0 {
        assert(l.subrange(0, 1).skip(1) =~= Seq::<EmpirePlanetModel>::empty());
        assert(l.subrange(0, 0) =~= Seq::<EmpirePlanetModel>::empty());
        assert(l.subrange(0, 1)[0] == l[0]);
        let e = apply_empire_planet_spec(m, pid, l[0], now);
        assert(apply_empire_planets_spec(m, pid, l.subrange(0, 1), now)
            == apply_empire_planets_spec(e, pid, l.subrange(0, 1).skip(1), now));
        assert(apply_empire_planets_spec(e, pid, Seq::<EmpirePlanetModel>::empty(), now) == e);
        assert(apply_empire_planets_spec(m, pid, Seq::<EmpirePlanetModel>::empty(), now) == m);
    } else {
        let l1 = l.skip(1);
        lemma_empire_snoc(apply_empire_planet_spec(m, pid, l[0], now), pid, l1, i - 1, now);
        assert(l.subrange(0, i + 1)[0] == l[0]);
        assert(l.subrange(0, i)[0] == l[0]);
        assert(l.subrange(0, i + 1).skip(1) =~= l1.subrange(0, i));
        assert(l.subrange(0, i).skip(1) =~= l1.subrange(0, i - 1));
        assert(l1[i - 1] == l[i]);
        let e = apply_empire_planet_spec(m, pid, l[0], now);
        assert(apply_empire_planets_spec(m, pid, l.subrange(0, i + 1), now)
            == apply_empire_planets_spec(e, pid, l1.subrange(0, i), now));
        assert(apply_empire_planets_spec(m, pid, l.subrange(0, i), now)
            == apply_empire_planets_spec(e, pid, l1.subrange(0, i - 1), now));
    }
}

/// Applies one empire snapshot: the player is resolved (falling back to
/// the caller's linked player), the caller's alliance linked, research
/// persisted, and every parsable planet upserted wholesale.  A payload
/// without a resolvable player is rejected as bad input.
#[verifier::rlimit(60)]
pub fn sync_empire(
    store: &mut Store,
    req: EmpireSyncRequest,
    caller_player_id: Option<i64>,
    caller_alliance_id: Option<i64>,
    now: i64,
) -> (r: Result<(), AppError>)
    requires
        old(store).wf(),
        old(store)@.next_planet_id + req.planets@.len() + 1 < 0x7fff_ffff_ffff_ffff,
    ensures
        final(store).wf(),
        (match empire_resolved_player(req@, caller_player_id) {
            Some(pid) => r is Ok && final(store)@ == apply_empire_sync_spec(
                old(store)@,
                req@,
                pid,
                caller_alliance_id,
                now,
            ),
            None => r is Err && final(store)@ == old(store)@,
        }),
{
    let ghost m0 = store@;
    let ghost rv = req@;
    let pid = if req.player_id > 0 {
        req.player_id
    } else {
        match caller_player_id {
            Some(p) => p,
            None => {
                return Err(AppError::BadRequest(String::from_str("Kein player_id gefunden")));
            },
        }
    };

    store.ensure_player(pid, req.player_name, now);
    let ghost e1 = store@;
    if let Some(aid) = caller_alliance_id {
        store.link_player_alliance(pid, aid, now);
    }
    let ghost e2 = store@;
    proof {
        if caller_alliance_id is Some && e1.has_alliance(caller_alliance_id->0) {
            lemma_has_player_update_first(
                e1,
                e2,
                crate::store::player_key(pid),
                crate::store::link_merge(caller_alliance_id->0, now),
                pid,
            );
        } else {
            lemma_has_player_same(e1, e2, pid);
        }
    }
    store.update_player_research(pid, req.research, now);
    let ghost m3 = store@;
    proof {
        assert(m3 == update_player_research_spec(e2, pid, rv.research, now));
        lemma_has_player_update_first(
            e2,
            m3,
            crate::store::player_key(pid),
            crate::store::research_merge(rv.research, now),
            pid,
        );
    }

    let mut i: usize = 0;
    proof {
        assert(rv.planets.subrange(0, 0) =~= Seq::<EmpirePlanetModel>::empty());
    }
    while i < req.planets.len()
        invariant
            0 <= i <= req.planets@.len(),
            rv.planets == views_of(req.planets@),
            rv.planets.len() == req.planets@.len(),
            store.wf(),
            store@ == apply_empire_planets_spec(m3, pid, rv.planets.subrange(0, i as int), now),
            store@.has_player(pid),
            m3.next_planet_id == m0.next_planet_id,
            store@.next_planet_id <= m3.next_planet_id + i,
            m0.next_planet_id + req.planets@.len() + 1 < 0x7fff_ffff_ffff_ffff,
        decreases req.planets@.len() - i,
    {
        let ghost before = store@;
        let ghost pv = rv.planets[i as int];
        proof {
            assert(pv == req.planets@[i as int]@);
        }
        let p = &req.planets[i];
        match crate::textutil::parse_coordinates_lenient(p.coordinates.as_str()) {
            Some((g, s, pos)) => {
                let data = PlanetData {
                    player_id: pid,
                    external_id: p.external_id,
                    name: p.name.clone(),
                    galaxy: g,
                    system: s,
                    position: pos,
                    fields_used: p.fields_used,
                    fields_max: p.fields_max,
                    temperature: p.temperature,
                    points: p.points,
                    metal_prod_h: p.production.metal,
                    crystal_prod_h: p.production.crystal,
                    deut_prod_h: p.production.deuterium,
                    energy_used: p.production.energy_used,
                    energy_max: p.production.energy_max,
                    resources: clone_vec_copy(&p.resources),
                    buildings: clone_vec_copy(&p.buildings),
                    fleet: clone_vec_copy(&p.fleet),
                    defense: clone_vec_copy(&p.defense),
                };
                proof {
                    assert(data@ =~~= empire_planet_data(pid, pv, g, s, pos));
                }
                store.upsert_planet_empire(data, now);
                proof {
                    assert(store@ == apply_empire_planet_spec(before, pid, pv, now));
                    lemma_has_player_same(before, store@, pid);
                    lemma_empire_snoc(m3, pid, rv.planets, i as int, now);
                }
            },
            None => {
                proof {
                    assert(apply_empire_planet_spec(before, pid, pv, now) == before);
                    lemma_empire_snoc(m3, pid, rv.planets, i as int, now);
                }
            },
        }
        i = i + 1;
    }
    proof {
        assert(rv.planets.subrange(0, rv.planets.len() as int) =~= rv.planets);
    }
    Ok(())
}

} // verus!
