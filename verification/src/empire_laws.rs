//! The batch-level idempotence law of the empire snapshot ingestor:
//! applying one snapshot twice in a row yields the same stored state as
//! applying it once, for every well-shaped snapshot (no two planets at
//! the same parsed coordinates).

use vstd::prelude::*;
use crate::empire::{
    apply_empire_planet_spec, apply_empire_planets_spec, apply_empire_sync_spec, empire_planet_data,
    EmpirePlanetModel, EmpireSyncRequestModel,
};
use crate::export::find_planet_row;
use crate::models::{CountEntry, PlanetType, PlayerModel};
use crate::rowseq::{
    find_first, lemma_find_first_at, lemma_find_first_frame, lemma_find_first_index,
    lemma_find_first_none, lemma_update_first_found, lemma_update_first_none, update_first,
};
use crate::store::{
    empire_planet_fresh, empire_planet_merge, ensure_player_spec, link_player_alliance_spec,
    planet_key, player_key, research_merge, update_player_research_spec, upsert_planet_empire_spec,
    PlanetDataModel, StoreModel,
};
use crate::textutil::coords_of_string;

verus! {

/// A snapshot is well shaped when no two of its planets parse to the
/// same coordinate triple.
pub open spec fn empire_well_shaped(req: EmpireSyncRequestModel) -> bool {
    forall|i: int, j: int|
        0 <= i < j < req.planets.len() ==> !(coords_of_string(
            (#[trigger] req.planets[i]).coordinates,
        ) is Some && coords_of_string(req.planets[i].coordinates) == coords_of_string(
            (#[trigger] req.planets[j]).coordinates,
        ))
}

/// What a research overwrite leaves found at the player, and at others.
proof fn lemma_update_research_find(m: StoreModel, pid: i64, res: Seq<CountEntry>, now: i64)
    ensures
        ({
            let r = update_player_research_spec(m, pid, res, now);
            &&& (match (find_first(r.players, player_key(pid)), find_first(
                m.players,
                player_key(pid),
            )) {
                (Some(a), Some(b)) => a == (PlayerModel {
                    research: Some(res),
                    updated_at: now,
                    ..b
                }),
                (None, None) => true,
                _ => false,
            })
            &&& forall|id2: i64|
                id2 != pid ==> find_first(r.players, #[trigger] player_key(id2)) == find_first(
                    m.players,
                    player_key(id2),
                )
            &&& r.planets == m.planets
            &&& r.alliances == m.alliances
            &&& forall|id2: i64| m.has_player(id2) ==> r.has_player(id2)
        }),
{
    let keyf = player_key(pid);
    let mergef = research_merge(res, now);
    let r = update_player_research_spec(m, pid, res, now);
    if exists|i: int| 0 <= i < m.players.len() && keyf(#[trigger] m.players[i]) {
        lemma_find_first_index(m.players, keyf);
        let i = choose|i: int|
            0 <= i < m.players.len() && keyf(#[trigger] m.players[i]) && find_first(
                m.players,
                keyf,
            ) == Some(m.players[i]) && (forall|j: int| 0 <= j < i ==> !keyf(#[trigger] m.players[j]));
        lemma_update_first_found(m.players, keyf, mergef, i);
        lemma_find_first_at(r.players, keyf, i);
        assert(mergef(m.players[i]) =~= (PlayerModel {
            research: Some(res),
            updated_at: now,
            ..m.players[i]
        }));
        assert forall|id2: i64|
            id2 != pid implies find_first(r.players, #[trigger] player_key(id2)) == find_first(
            m.players,
            player_key(id2),
        ) by {
            let keyf2 = player_key(id2);
            assert forall|j: int|
                0 <= j < m.players.len() implies keyf2(#[trigger] r.players[j]) == keyf2(
                m.players[j],
            ) && (keyf2(m.players[j]) ==> r.players[j] == m.players[j]) by {
                if j == i {
                    assert(r.players[i].id == m.players[i].id);
                    if keyf2(m.players[j]) {
                        assert(false);
                    }
                }
            }
            lemma_find_first_frame(m.players, r.players, keyf2);
        }
        assert forall|id2: i64| m.has_player(id2) implies r.has_player(id2) by {
            let w = choose|w: int| 0 <= w < m.players.len() && m.players[w].id == id2;
            assert(r.players[w].id == id2);
        }
    } else {
        lemma_update_first_none(m.players, keyf, mergef);
        assert(r.players =~= m.players);
        lemma_find_first_none(m.players, keyf);
        lemma_find_first_none(r.players, keyf);
        assert forall|id2: i64| m.has_player(id2) implies r.has_player(id2) by {
            let w = choose|w: int| 0 <= w < m.players.len() && m.players[w].id == id2;
            assert(r.players[w].id == id2);
        }
    }
}

/// Overwriting research that is already stored with this stamp changes
/// nothing.
proof fn lemma_update_research_noop(m: StoreModel, pid: i64, res: Seq<CountEntry>, now: i64)
    requires
        (match find_first(m.players, player_key(pid)) {
            Some(row) => row.research == Some(res) && row.updated_at == now,
            None => true,
        }),
    ensures
        update_player_research_spec(m, pid, res, now) == m,
{
    let keyf = player_key(pid);
    let mergef = research_merge(res, now);
    if exists|i: int| 0 <= i < m.players.len() && keyf(#[trigger] m.players[i]) {
        lemma_find_first_index(m.players, keyf);
        let i = choose|i: int|
            0 <= i < m.players.len() && keyf(#[trigger] m.players[i]) && find_first(
                m.players,
                keyf,
            ) == Some(m.players[i]) && (forall|j: int| 0 <= j < i ==> !keyf(#[trigger] m.players[j]));
        lemma_update_first_found(m.players, keyf, mergef, i);
        assert(mergef(m.players[i]) =~= m.players[i]);
        assert(m.players.update(i, m.players[i]) =~= m.players);
        assert(update_player_research_spec(m, pid, res, now) =~= m);
    } else {
        lemma_update_first_none(m.players, keyf, mergef);
        assert(update_player_research_spec(m, pid, res, now) =~= m);
    }
}

/// The facts one applied empire planet leaves behind.
pub open spec fn empire_planet_stable(r: StoreModel, pid: i64, p: EmpirePlanetModel, now: i64) -> bool {
    match coords_of_string(p.coordinates) {
        Some((g, s, pos)) => (match find_planet_row(r.planets, g, s, pos, PlanetType::Planet) {
            Some(row) => {
                let d = empire_planet_data(pid, p, g, s, pos);
                &&& row.player_id == d.player_id
                &&& row.name == Some(d.name)
                &&& row.planet_id == Some(d.external_id)
                &&& row.fields_used == d.fields_used
                &&& row.fields_max == d.fields_max
                &&& row.temperature == d.temperature
                &&& row.points == d.points
                &&& row.metal_prod_h == d.metal_prod_h
                &&& row.crystal_prod_h == d.crystal_prod_h
                &&& row.deut_prod_h == d.deut_prod_h
                &&& row.energy_used == d.energy_used
                &&& row.energy_max == d.energy_max
                &&& row.resources == Some(d.resources)
                &&& row.buildings == Some(d.buildings)
                &&& row.fleet == Some(d.fleet)
                &&& row.defense == Some(d.defense)
                &&& row.status == crate::models::Status::Seen
                &&& row.updated_at == now
            },
            None => false,
        }),
        None => true,
    }
}

/// What an empire planet upsert leaves found at its key, and at others.
proof fn lemma_upsert_empire_find(m: StoreModel, d: PlanetDataModel, now: i64)
    ensures
        ({
            let r = upsert_planet_empire_spec(m, d, now);
            &&& (match find_planet_row(r.planets, d.galaxy, d.system, d.position, PlanetType::Planet) {
                Some(row) => row.player_id == d.player_id && row.name == Some(d.name)
                    && row.planet_id == Some(d.external_id) && row.fields_used == d.fields_used
                    && row.fields_max == d.fields_max && row.temperature == d.temperature
                    && row.points == d.points && row.metal_prod_h == d.metal_prod_h
                    && row.crystal_prod_h == d.crystal_prod_h && row.deut_prod_h == d.deut_prod_h
                    && row.energy_used == d.energy_used && row.energy_max == d.energy_max
                    && row.resources == Some(d.resources) && row.buildings == Some(d.buildings)
                    && row.fleet == Some(d.fleet) && row.defense == Some(d.defense) && row.status
                    == crate::models::Status::Seen && row.updated_at == now,
                None => false,
            })
            &&& forall|g2: i64, s2: i64, p2: i64, k2: PlanetType|
                !(g2 == d.galaxy && s2 == d.system && p2 == d.position && k2 == PlanetType::Planet)
                    ==> #[trigger] find_planet_row(r.planets, g2, s2, p2, k2) == find_planet_row(
                    m.planets,
                    g2,
                    s2,
                    p2,
                    k2,
                )
            &&& r.players == m.players
            &&& r.alliances == m.alliances
        }),
{
    let r = upsert_planet_empire_spec(m, d, now);
    let keyf = planet_key(d.galaxy, d.system, d.position, PlanetType::Planet);
    let mergef = empire_planet_merge(d, now);
    if m.has_planet(d.galaxy, d.system, d.position, PlanetType::Planet) {
        let w = choose|w: int| 0 <= w < m.planets.len() && keyf(m.planets[w]);
        assert(find_planet_row(m.planets, d.galaxy, d.system, d.position, PlanetType::Planet)
            is Some) by {
            crate::export::lemma_find_planet_exists_pub(
                m.planets,
                d.galaxy,
                d.system,
                d.position,
                PlanetType::Planet,
                w,
            );
        }
        crate::scan_laws::lemma_find_some_index(
            m.planets,
            d.galaxy,
            d.system,
            d.position,
            PlanetType::Planet,
        );
        let i = choose|i: int|
            0 <= i < m.planets.len() && keyf(#[trigger] m.planets[i]) && find_planet_row(
                m.planets,
                d.galaxy,
                d.system,
                d.position,
                PlanetType::Planet,
            ) == Some(m.planets[i]) && (forall|j: int| 0 <= j < i ==> !keyf(#[trigger] m.planets[j]));
        lemma_update_first_found(m.planets, keyf, mergef, i);
        assert(r.planets == m.planets.update(i, mergef(m.planets[i])));
        crate::scan_laws::lemma_find_is_first(
            r.planets,
            d.galaxy,
            d.system,
            d.position,
            PlanetType::Planet,
            i,
        );
        assert forall|g2: i64, s2: i64, p2: i64, k2: PlanetType|
            !(g2 == d.galaxy && s2 == d.system && p2 == d.position && k2 == PlanetType::Planet)
                implies #[trigger] find_planet_row(r.planets, g2, s2, p2, k2) == find_planet_row(
                m.planets,
                g2,
                s2,
                p2,
                k2,
            ) by {
            assert forall|j: int|
                0 <= j < m.planets.len() && planet_key(g2, s2, p2, k2)(
                    #[trigger] m.planets[j],
                ) implies r.planets[j] == m.planets[j] by {
                if j == i {
                    assert(keyf(m.planets[i]));
                    assert(false);
                }
            }
            crate::scan_laws::lemma_find_frame(m.planets, r.planets, g2, s2, p2, k2);
        }
    } else {
        let fresh = empire_planet_fresh(m.next_planet_id, d, now);
        assert(r.planets == m.planets.push(fresh));
        assert(forall|j: int| 0 <= j < m.planets.len() ==> !keyf(#[trigger] m.planets[j]));
        assert(forall|j: int|
            0 <= j < m.planets.len() ==> r.planets[j] == #[trigger] m.planets[j]);
        crate::scan_laws::lemma_find_is_first(
            r.planets,
            d.galaxy,
            d.system,
            d.position,
            PlanetType::Planet,
            m.planets.len() as int,
        );
        assert forall|g2: i64, s2: i64, p2: i64, k2: PlanetType|
            !(g2 == d.galaxy && s2 == d.system && p2 == d.position && k2 == PlanetType::Planet)
                implies #[trigger] find_planet_row(r.planets, g2, s2, p2, k2) == find_planet_row(
                m.planets,
                g2,
                s2,
                p2,
                k2,
            ) by {
            crate::scan_laws::lemma_find_push_other(m.planets, fresh, g2, s2, p2, k2);
        }
    }
}

/// Upserting an empire planet over the row the same upsert already
/// produced changes nothing.
proof fn lemma_upsert_empire_noop(m: StoreModel, d: PlanetDataModel, now: i64)
    requires
        (match find_planet_row(m.planets, d.galaxy, d.system, d.position, PlanetType::Planet) {
            Some(row) => row.player_id == d.player_id && row.name == Some(d.name) && row.planet_id
                == Some(d.external_id) && row.fields_used == d.fields_used && row.fields_max
                == d.fields_max && row.temperature == d.temperature && row.points == d.points
                && row.metal_prod_h == d.metal_prod_h && row.crystal_prod_h == d.crystal_prod_h
                && row.deut_prod_h == d.deut_prod_h && row.energy_used == d.energy_used
                && row.energy_max == d.energy_max && row.resources == Some(d.resources)
                && row.buildings == Some(d.buildings) && row.fleet == Some(d.fleet) && row.defense
                == Some(d.defense) && row.status == crate::models::Status::Seen && row.updated_at
                == now,
            None => false,
        }),
    ensures
        upsert_planet_empire_spec(m, d, now) == m,
{
    let keyf = planet_key(d.galaxy, d.system, d.position, PlanetType::Planet);
    let mergef = empire_planet_merge(d, now);
    crate::scan_laws::lemma_find_some_index(
        m.planets,
        d.galaxy,
        d.system,
        d.position,
        PlanetType::Planet,
    );
    let i = choose|i: int|
        0 <= i < m.planets.len() && keyf(#[trigger] m.planets[i]) && find_planet_row(
            m.planets,
            d.galaxy,
            d.system,
            d.position,
            PlanetType::Planet,
        ) == Some(m.planets[i]) && (forall|j: int| 0 <= j < i ==> !keyf(#[trigger] m.planets[j]));
    assert(m.has_planet(d.galaxy, d.system, d.position, PlanetType::Planet));
    lemma_update_first_found(m.planets, keyf, mergef, i);
    assert(mergef(m.planets[i]) =~= m.planets[i]);
    assert(m.planets.update(i, m.planets[i]) =~= m.planets);
    assert(upsert_planet_empire_spec(m, d, now) =~= m);
}

/// What the snapshot's planets fold leaves found: every planet's facts
/// hold and everything else is found as before.
proof fn lemma_empire_planets_char(
    m: StoreModel,
    pid: i64,
    l: Seq<EmpirePlanetModel>,
    now: i64,
)
    requires
        forall|i: int, j: int|
            0 <= i < j < l.len() ==> !(coords_of_string((#[trigger] l[i]).coordinates) is Some
                && coords_of_string(l[i].coordinates) == coords_of_string(
                (#[trigger] l[j]).coordinates,
            )),
    ensures
        ({
            let r = apply_empire_planets_spec(m, pid, l, now);
            &&& forall|i: int| 0 <= i < l.len() ==> empire_planet_stable(r, pid, #[trigger] l[i], now)
            &&& forall|g2: i64, s2: i64, p2: i64, k2: PlanetType|
                !(exists|i: int|
                    0 <= i < l.len() && coords_of_string((#[trigger] l[i]).coordinates) == Some(
                        (g2, s2, p2),
                    ) && k2 == PlanetType::Planet) ==> #[trigger] find_planet_row(
                    r.planets,
                    g2,
                    s2,
                    p2,
                    k2,
                ) == find_planet_row(m.planets, g2, s2, p2, k2)
            &&& r.players == m.players
            &&& r.alliances == m.alliances
            &&& crate::scan_laws::same_aux(r, m)
        }),
    decreases l.len(),
{
    if l.len() == 0 {
    } else {
        let e0 = l[0];
        let m0 = apply_empire_planet_spec(m, pid, e0, now);
        match coords_of_string(e0.coordinates) {
            Some((g0, s0, p0)) => {
                lemma_upsert_empire_find(m, empire_planet_data(pid, e0, g0, s0, p0), now);
            },
            None => {},
        }
        let tail = l.skip(1);
        assert(forall|j: int| 0 <= j < tail.len() ==> #[trigger] tail[j] == l[j + 1]);
        lemma_empire_planets_char(m0, pid, tail, now);
        let r = apply_empire_planets_spec(m, pid, l, now);
        assert(r == apply_empire_planets_spec(m0, pid, tail, now));

        // The head's facts survive the tail: no tail planet parses to the
        // same triple.
        assert(empire_planet_stable(r, pid, e0, now)) by {
            match coords_of_string(e0.coordinates) {
                Some((g0, s0, p0)) => {
                    assert(!(exists|i: int|
                        0 <= i < tail.len() && coords_of_string((#[trigger] tail[i]).coordinates)
                            == Some((g0, s0, p0)) && PlanetType::Planet == PlanetType::Planet)) by {
                        if exists|i: int|
                            0 <= i < tail.len() && coords_of_string(
                                (#[trigger] tail[i]).coordinates,
                            ) == Some((g0, s0, p0)) && PlanetType::Planet == PlanetType::Planet {
                            let i = choose|i: int|
                                0 <= i < tail.len() && coords_of_string(
                                    (#[trigger] tail[i]).coordinates,
                                ) == Some((g0, s0, p0));
                            assert(coords_of_string(l[0].coordinates) is Some && coords_of_string(
                                l[0].coordinates,
                            ) == coords_of_string(l[i + 1].coordinates));
                        }
                    }
                    assert(find_planet_row(r.planets, g0, s0, p0, PlanetType::Planet)
                        == find_planet_row(m0.planets, g0, s0, p0, PlanetType::Planet));
                },
                None => {},
            }
        }
        assert forall|i: int|
            0 <= i < l.len() implies empire_planet_stable(r, pid, #[trigger] l[i], now) by {
            if i > 0 {
                assert(tail[i - 1] == l[i]);
                assert(empire_planet_stable(r, pid, tail[i - 1], now));
            }
        }
        assert forall|g2: i64, s2: i64, p2: i64, k2: PlanetType|
            !(exists|i: int|
                0 <= i < l.len() && coords_of_string((#[trigger] l[i]).coordinates) == Some(
                    (g2, s2, p2),
                ) && k2 == PlanetType::Planet) implies #[trigger] find_planet_row(
            r.planets,
            g2,
            s2,
            p2,
            k2,
        ) == find_planet_row(m.planets, g2, s2, p2, k2) by {
            assert(!(coords_of_string(e0.coordinates) == Some((g2, s2, p2)) && k2
                == PlanetType::Planet)) by {
                if coords_of_string(e0.coordinates) == Some((g2, s2, p2)) && k2
                    == PlanetType::Planet {
                    assert(0 <= 0 < l.len() && coords_of_string(l[0].coordinates) == Some(
                        (g2, s2, p2),
                    ));
                }
            }
            assert(!(exists|i: int|
                0 <= i < tail.len() && coords_of_string((#[trigger] tail[i]).coordinates) == Some(
                    (g2, s2, p2),
                ) && k2 == PlanetType::Planet)) by {
                if exists|i: int|
                    0 <= i < tail.len() && coords_of_string((#[trigger] tail[i]).coordinates)
                        == Some((g2, s2, p2)) && k2 == PlanetType::Planet {
                    let i = choose|i: int|
                        0 <= i < tail.len() && coords_of_string((#[trigger] tail[i]).coordinates)
                            == Some((g2, s2, p2)) && k2 == PlanetType::Planet;
                    assert(coords_of_string(l[i + 1].coordinates) == Some((g2, s2, p2)));
                }
            }
            match coords_of_string(e0.coordinates) {
                Some((g0, s0, p0)) => {
                    assert(find_planet_row(m0.planets, g2, s2, p2, k2) == find_planet_row(
                        m.planets,
                        g2,
                        s2,
                        p2,
                        k2,
                    ));
                },
                None => {},
            }
        }
    }
}

/// When every planet upsert fixes a state, the whole fold does.
proof fn lemma_empire_fold_fixed(t: StoreModel, pid: i64, l: Seq<EmpirePlanetModel>, now: i64)
    requires
        forall|j: int| 0 <= j < l.len() ==> apply_empire_planet_spec(t, pid, #[trigger] l[j], now) == t,
    ensures
        apply_empire_planets_spec(t, pid, l, now) == t,
    decreases l.len(),
{
    if l.len() > 0 {
        assert(apply_empire_planet_spec(t, pid, l[0], now) == t);
        assert(forall|j: int| 0 <= j < l.skip(1).len() ==> #[trigger] l.skip(1)[j] == l[j + 1]);
        lemma_empire_fold_fixed(t, pid, l.skip(1), now);
    }
}

/// Idempotence of the whole empire snapshot ingestion: applying one
/// well-shaped snapshot twice in a row, for the same resolved player,
/// yields exactly the same stored state as applying it once.
pub proof fn lemma_empire_sync_idempotent(
    m: StoreModel,
    req: EmpireSyncRequestModel,
    pid: i64,
    caller_alliance: Option<i64>,
    now: i64,
)
    requires
        empire_well_shaped(req),
    ensures
        apply_empire_sync_spec(
            apply_empire_sync_spec(m, req, pid, caller_alliance, now),
            req,
            pid,
            caller_alliance,
            now,
        ) == apply_empire_sync_spec(m, req, pid, caller_alliance, now),
{
    let m1 = ensure_player_spec(m, pid, req.player_name, now);
    let m2 = match caller_alliance {
        Some(aid) => link_player_alliance_spec(m1, pid, aid, now),
        None => m1,
    };
    let m3 = update_player_research_spec(m2, pid, req.research, now);
    let s1 = apply_empire_planets_spec(m3, pid, req.planets, now);
    assert(s1 == apply_empire_sync_spec(m, req, pid, caller_alliance, now));

    // The player is present from the first step on.
    assert(m1.has_player(pid)) by {
        if m.has_player(pid) {
            crate::scan_laws::lemma_ensure_player_present_noop(m, pid, req.player_name, now);
        } else {
            crate::scan_laws::lemma_ensure_player_absent(m, pid, req.player_name, now);
        }
    }
    // The first player row after linking and research carries the link
    // (when one was made) and the stamp.
    let linked = caller_alliance is Some && m1.has_alliance(caller_alliance->0);
    if caller_alliance is Some {
        if m1.has_alliance(caller_alliance->0) {
            crate::scan_laws::lemma_link_find(m1, pid, caller_alliance->0, now);
        }
    }
    assert(m2.has_player(pid)) by {
        match caller_alliance {
            Some(aid) => {
                if !m1.has_alliance(aid) {
                    assert(m2 == m1);
                }
            },
            None => {},
        }
    }
    lemma_update_research_find(m2, pid, req.research, now);
    lemma_empire_planets_char(m3, pid, req.planets, now);
    assert(s1.players == m3.players && s1.alliances == m3.alliances);

    // The facts at the final state that make every second-run step a
    // no-op.
    assert(s1.has_player(pid)) by {
        let w = choose|w: int| 0 <= w < m2.players.len() && m2.players[w].id == pid;
        assert(m3.players == update_first(m2.players, player_key(pid), research_merge(req.research, now)));
        crate::rowseq::lemma_update_first_shape(
            m2.players,
            player_key(pid),
            research_merge(req.research, now),
        );
        assert(m3.players[w].id == pid || m3.players[w] == research_merge(req.research, now)(
            m2.players[w],
        ));
        assert(s1.players[w].id == pid);
    }
    assert(match find_first(s1.players, player_key(pid)) {
        Some(row) => row.research == Some(req.research) && row.updated_at == now && (linked
            ==> row.alliance_id == Some(caller_alliance->0)),
        None => false,
    }) by {
        assert(find_first(s1.players, player_key(pid)) == find_first(m3.players, player_key(pid)));
        if find_first(m2.players, player_key(pid)) is None {
            lemma_find_first_index(m2.players, player_key(pid));
            let w = choose|w: int| 0 <= w < m2.players.len() && m2.players[w].id == pid;
        }
    }
    // Second run.
    crate::scan_laws::lemma_ensure_player_present_noop(s1, pid, req.player_name, now);
    match caller_alliance {
        Some(aid) => {
            assert(s1.has_alliance(aid) == m1.has_alliance(aid)) by {
                assert(s1.alliances == m1.alliances);
                if m1.has_alliance(aid) {
                    let w = choose|w: int| 0 <= w < m1.alliances.len() && m1.alliances[w].id == aid;
                    assert(s1.alliances[w].id == aid);
                }
                if s1.has_alliance(aid) {
                    let w = choose|w: int| 0 <= w < s1.alliances.len() && s1.alliances[w].id == aid;
                    assert(m1.alliances[w].id == aid);
                }
            }
            crate::scan_laws::lemma_link_noop(s1, pid, aid, now);
        },
        None => {},
    }
    lemma_update_research_noop(s1, pid, req.research, now);
    assert forall|j: int|
        0 <= j < req.planets.len() implies apply_empire_planet_spec(
        s1,
        pid,
        #[trigger] req.planets[j],
        now,
    ) == s1 by {
        assert(empire_planet_stable(s1, pid, req.planets[j], now));
        match coords_of_string(req.planets[j].coordinates) {
            Some((g0, s0, p0)) => {
                lemma_upsert_empire_noop(s1, empire_planet_data(pid, req.planets[j], g0, s0, p0), now);
            },
            None => {},
        }
    }
    lemma_empire_fold_fixed(s1, pid, req.planets, now);
    assert(apply_empire_sync_spec(s1, req, pid, caller_alliance, now) == s1);
}

} // verus!
