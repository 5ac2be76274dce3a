//! The idempotence laws of the engine: applying the same upsert twice in
//! a row yields the same stored state as applying it once.  Score history
//! is the deliberate exception — it is append-only and excluded here.

use vstd::prelude::*;
use crate::models::{PlanetModel, PlanetType, PlayerModel};
use crate::reports::{
    upsert_expedition_report_spec, upsert_hostile_spying_spec, upsert_spy_report_spec,
    ExpeditionReportDataModel, SpyReportDataModel,
};
use crate::rowseq::{
    lemma_update_first_idempotent,
    lemma_upsert_idempotent, update_first,
};
use crate::store::{
    alliance_fresh, alliance_key, alliance_merge, deleted_merge, ensure_alliance_spec,
    ensure_player_spec, link_merge, link_player_alliance_spec, mark_planet_deleted_spec, planet_key,
    player_key, scan_planet_fresh, scan_planet_merge, upsert_planet_spec, SpyReportModel, StoreModel,
};

verus! {

/// Ensuring a player twice changes nothing over ensuring once: the first
/// run leaves the row present, and an ensure never overwrites.
pub proof fn lemma_ensure_player_idempotent(m: StoreModel, id: i64, name: Seq<char>, now: i64)
    ensures
        ensure_player_spec(ensure_player_spec(m, id, name, now), id, name, now)
            == ensure_player_spec(m, id, name, now),
{
    let keyf = player_key(id);
    let idf = |p: PlayerModel| p;
    let fresh = PlayerModel::minimal(id, name, now);
    lemma_upsert_idempotent(m.players, keyf, idf, fresh);
    let m1 = ensure_player_spec(m, id, name, now);
    assert(ensure_player_spec(m1, id, name, now) =~= m1);
}

/// Ensuring an alliance twice changes nothing over ensuring once: the
/// second run overwrites the tag with the same tag.
pub proof fn lemma_ensure_alliance_idempotent(m: StoreModel, id: i64, tag: Seq<char>, now: i64)
    ensures
        ensure_alliance_spec(ensure_alliance_spec(m, id, tag, now), id, tag, now)
            == ensure_alliance_spec(m, id, tag, now),
{
    let keyf = alliance_key(id);
    let mergef = alliance_merge(tag, now);
    let fresh = alliance_fresh(id, tag, now);
    assert forall|x: crate::models::AllianceModel| keyf(x) implies #[trigger] mergef(mergef(x))
        == mergef(x) by {
        assert(mergef(mergef(x)) =~= mergef(x));
    }
    assert(mergef(fresh) =~= fresh);
    lemma_upsert_idempotent(m.alliances, keyf, mergef, fresh);
    let m1 = ensure_alliance_spec(m, id, tag, now);
    assert(ensure_alliance_spec(m1, id, tag, now) =~= m1);
}

/// Linking a player to an alliance twice changes nothing over linking
/// once.
pub proof fn lemma_link_idempotent(m: StoreModel, pid: i64, aid: i64, now: i64)
    ensures
        link_player_alliance_spec(link_player_alliance_spec(m, pid, aid, now), pid, aid, now)
            == link_player_alliance_spec(m, pid, aid, now),
{
    let m1 = link_player_alliance_spec(m, pid, aid, now);
    if m.has_alliance(aid) {
        let keyf = player_key(pid);
        let mergef = link_merge(aid, now);
        assert forall|x: PlayerModel| keyf(x) implies #[trigger] mergef(mergef(x)) == mergef(x) by {
            assert(mergef(mergef(x)) =~= mergef(x));
        }
        assert forall|x: PlayerModel| keyf(x) implies keyf(#[trigger] mergef(x)) by {}
        lemma_update_first_idempotent(m.players, keyf, mergef);
        assert(m1.alliances == m.alliances);
        let w = choose|w: int| 0 <= w < m.alliances.len() && m.alliances[w].id == aid;
        assert(m1.alliances[w].id == aid);
        assert(m1.has_alliance(aid));
        assert(link_player_alliance_spec(m1, pid, aid, now) =~= m1);
    } else {
        assert(!m1.has_alliance(aid));
    }
}

/// Upserting the same galaxy-scan body twice changes nothing over
/// upserting it once: the overwrite settles, and a preserved external
/// planet id coalesces to itself.
pub proof fn lemma_upsert_planet_idempotent(
    m: StoreModel,
    player_id: i64,
    g: i64,
    s: i64,
    pos: i64,
    kind: PlanetType,
    name: Option<Seq<char>>,
    pid: Option<i64>,
    now: i64,
)
    ensures
        upsert_planet_spec(
            upsert_planet_spec(m, player_id, g, s, pos, kind, name, pid, now),
            player_id,
            g,
            s,
            pos,
            kind,
            name,
            pid,
            now,
        ) == upsert_planet_spec(m, player_id, g, s, pos, kind, name, pid, now),
{
    let keyf = planet_key(g, s, pos, kind);
    let mergef = scan_planet_merge(player_id, name, pid, now);
    let m1 = upsert_planet_spec(m, player_id, g, s, pos, kind, name, pid, now);
    assert forall|x: PlanetModel| #[trigger] mergef(mergef(x)) == mergef(x) by {
        assert(mergef(mergef(x)) =~= mergef(x));
    }
    if m.has_planet(g, s, pos, kind) {
        assert(m1.planets == update_first(m.planets, keyf, mergef));
        assert forall|x: PlanetModel| keyf(x) implies keyf(#[trigger] mergef(x)) by {}
        lemma_update_first_idempotent(m.planets, keyf, mergef);
        let w = choose|w: int| 0 <= w < m.planets.len() && keyf(m.planets[w]);
        crate::rowseq::lemma_update_first_shape(m.planets, keyf, mergef);
        assert(m1.planets[w] == m.planets[w] || m1.planets[w] == mergef(m.planets[w]));
        assert(keyf(m1.planets[w]));
        assert(m1.has_planet(g, s, pos, kind));
        assert(upsert_planet_spec(m1, player_id, g, s, pos, kind, name, pid, now) =~= m1);
    } else {
        let fresh = scan_planet_fresh(m.next_planet_id, player_id, g, s, pos, kind, name, pid, now);
        assert(m1.planets == m.planets.push(fresh));
        let last = m.planets.len() as int;
        assert(m1.planets[last] == fresh && keyf(fresh));
        assert(m1.has_planet(g, s, pos, kind));
        assert(forall|j: int| 0 <= j < last ==> !keyf(#[trigger] m1.planets[j]));
        crate::rowseq::lemma_update_first_found(m1.planets, keyf, mergef, last);
        assert(mergef(fresh) =~= fresh);
        assert(m1.planets.update(last, mergef(fresh)) =~= m1.planets);
        assert(upsert_planet_spec(m1, player_id, g, s, pos, kind, name, pid, now) =~= m1);
    }
}

/// Marking the same body destroyed twice changes nothing over marking it
/// once.
pub proof fn lemma_mark_deleted_idempotent(
    m: StoreModel,
    g: i64,
    s: i64,
    pos: i64,
    kind: PlanetType,
    now: i64,
)
    ensures
        mark_planet_deleted_spec(mark_planet_deleted_spec(m, g, s, pos, kind, now), g, s, pos, kind, now)
            == mark_planet_deleted_spec(m, g, s, pos, kind, now),
{
    let keyf = planet_key(g, s, pos, kind);
    let mergef = deleted_merge(now);
    assert forall|x: PlanetModel| keyf(x) implies #[trigger] mergef(mergef(x)) == mergef(x) by {
        assert(mergef(mergef(x)) =~= mergef(x));
    }
    assert forall|x: PlanetModel| keyf(x) implies keyf(#[trigger] mergef(x)) by {}
    lemma_update_first_idempotent(m.planets, keyf, mergef);
    let m1 = mark_planet_deleted_spec(m, g, s, pos, kind, now);
    assert(mark_planet_deleted_spec(m1, g, s, pos, kind, now) =~= m1);
}

/// Submitting the same spy report twice changes nothing over submitting
/// it once: re-ingestion of an external id overwrites the payload with
/// itself.
pub proof fn lemma_spy_report_idempotent(m: StoreModel, d: SpyReportDataModel, now: i64)
    ensures
        upsert_spy_report_spec(upsert_spy_report_spec(m, d, now), d, now) == upsert_spy_report_spec(
            m,
            d,
            now,
        ),
{
    let keyf = |r: SpyReportModel| r.external_id == d.external_id;
    let mergef = |r: SpyReportModel| crate::reports::spy_row(r.id, d, now);
    let m1 = upsert_spy_report_spec(m, d, now);
    assert forall|x: SpyReportModel| #[trigger] mergef(mergef(x)) == mergef(x) by {
        assert(mergef(mergef(x)) =~= mergef(x));
    }
    if exists|i: int| 0 <= i < m.spy_reports.len() && m.spy_reports[i].external_id == d.external_id {
        assert(m1.spy_reports == update_first(m.spy_reports, keyf, mergef));
        assert forall|x: SpyReportModel| keyf(x) implies keyf(#[trigger] mergef(x)) by {}
        lemma_update_first_idempotent(m.spy_reports, keyf, mergef);
        let w = choose|w: int|
            0 <= w < m.spy_reports.len() && m.spy_reports[w].external_id == d.external_id;
        crate::rowseq::lemma_update_first_shape(m.spy_reports, keyf, mergef);
        assert(m1.spy_reports[w] == m.spy_reports[w] || m1.spy_reports[w] == mergef(
            m.spy_reports[w],
        ));
        assert(m1.spy_reports[w].external_id == d.external_id);
        assert(upsert_spy_report_spec(m1, d, now) =~= m1);
    } else {
        let fresh = crate::reports::spy_row(m.next_report_id, d, now);
        assert(m1.spy_reports == m.spy_reports.push(fresh));
        let last = m.spy_reports.len() as int;
        assert(m1.spy_reports[last] == fresh);
        assert(forall|j: int| 0 <= j < last ==> !keyf(#[trigger] m1.spy_reports[j]));
        crate::rowseq::lemma_update_first_found(m1.spy_reports, keyf, mergef, last);
        assert(mergef(fresh) =~= fresh);
        assert(m1.spy_reports.update(last, mergef(fresh)) =~= m1.spy_reports);
        assert(upsert_spy_report_spec(m1, d, now) =~= m1);
    }
}

/// Submitting the same expedition report twice changes nothing over
/// submitting it once.
pub proof fn lemma_expedition_report_idempotent(m: StoreModel, d: ExpeditionReportDataModel, now: i64)
    ensures
        upsert_expedition_report_spec(upsert_expedition_report_spec(m, d, now), d, now)
            == upsert_expedition_report_spec(m, d, now),
{
    let keyf = |r: crate::store::ExpeditionReportModel| r.external_id == d.external_id;
    let mergef = |r: crate::store::ExpeditionReportModel| crate::reports::expedition_row(r.id, d, now);
    let m1 = upsert_expedition_report_spec(m, d, now);
    assert forall|x: crate::store::ExpeditionReportModel| #[trigger] mergef(mergef(x)) == mergef(
        x,
    ) by {
        assert(mergef(mergef(x)) =~= mergef(x));
    }
    if exists|i: int|
        0 <= i < m.expedition_reports.len() && m.expedition_reports[i].external_id
            == d.external_id {
        assert(m1.expedition_reports == update_first(m.expedition_reports, keyf, mergef));
        assert forall|x: crate::store::ExpeditionReportModel| keyf(x) implies keyf(
            #[trigger] mergef(x),
        ) by {}
        lemma_update_first_idempotent(m.expedition_reports, keyf, mergef);
        let w = choose|w: int|
            0 <= w < m.expedition_reports.len() && m.expedition_reports[w].external_id
                == d.external_id;
        crate::rowseq::lemma_update_first_shape(m.expedition_reports, keyf, mergef);
        assert(m1.expedition_reports[w] == m.expedition_reports[w] || m1.expedition_reports[w]
            == mergef(m.expedition_reports[w]));
        assert(m1.expedition_reports[w].external_id == d.external_id);
        assert(upsert_expedition_report_spec(m1, d, now) =~= m1);
    } else {
        let fresh = crate::reports::expedition_row(m.next_report_id, d, now);
        assert(m1.expedition_reports == m.expedition_reports.push(fresh));
        let last = m.expedition_reports.len() as int;
        assert(m1.expedition_reports[last] == fresh);
        assert(forall|j: int| 0 <= j < last ==> !keyf(#[trigger] m1.expedition_reports[j]));
        crate::rowseq::lemma_update_first_found(m1.expedition_reports, keyf, mergef, last);
        assert(mergef(fresh) =~= fresh);
        assert(m1.expedition_reports.update(last, mergef(fresh)) =~= m1.expedition_reports);
        assert(upsert_expedition_report_spec(m1, d, now) =~= m1);
    }
}

/// Submitting the same hostile-spying record twice changes nothing over
/// submitting it once.
pub proof fn lemma_hostile_spying_idempotent(
    m: StoreModel,
    external_id: i64,
    attacker: Option<Seq<char>>,
    target: Option<Seq<char>>,
    report_time: Option<i64>,
    now: i64,
)
    ensures
        upsert_hostile_spying_spec(
            upsert_hostile_spying_spec(m, external_id, attacker, target, report_time, now),
            external_id,
            attacker,
            target,
            report_time,
            now,
        ) == upsert_hostile_spying_spec(m, external_id, attacker, target, report_time, now),
{
    let keyf = |r: crate::store::HostileSpyingModel| r.external_id == external_id;
    let mergef = |r: crate::store::HostileSpyingModel|
        crate::reports::hostile_row(r.id, external_id, attacker, target, report_time, now);
    let m1 = upsert_hostile_spying_spec(m, external_id, attacker, target, report_time, now);
    assert forall|x: crate::store::HostileSpyingModel| #[trigger] mergef(mergef(x)) == mergef(x) by {
        assert(mergef(mergef(x)) =~= mergef(x));
    }
    if exists|i: int|
        0 <= i < m.hostile_spying.len() && m.hostile_spying[i].external_id == external_id {
        assert(m1.hostile_spying == update_first(m.hostile_spying, keyf, mergef));
        assert forall|x: crate::store::HostileSpyingModel| keyf(x) implies keyf(
            #[trigger] mergef(x),
        ) by {}
        lemma_update_first_idempotent(m.hostile_spying, keyf, mergef);
        let w = choose|w: int|
            0 <= w < m.hostile_spying.len() && m.hostile_spying[w].external_id == external_id;
        crate::rowseq::lemma_update_first_shape(m.hostile_spying, keyf, mergef);
        assert(m1.hostile_spying[w] == m.hostile_spying[w] || m1.hostile_spying[w] == mergef(
            m.hostile_spying[w],
        ));
        assert(m1.hostile_spying[w].external_id == external_id);
        assert(upsert_hostile_spying_spec(m1, external_id, attacker, target, report_time, now)
            =~= m1);
    } else {
        let fresh = crate::reports::hostile_row(
            m.next_report_id,
            external_id,
            attacker,
            target,
            report_time,
            now,
        );
        assert(m1.hostile_spying == m.hostile_spying.push(fresh));
        let last = m.hostile_spying.len() as int;
        assert(m1.hostile_spying[last] == fresh);
        assert(forall|j: int| 0 <= j < last ==> !keyf(#[trigger] m1.hostile_spying[j]));
        crate::rowseq::lemma_update_first_found(m1.hostile_spying, keyf, mergef, last);
        assert(mergef(fresh) =~= fresh);
        assert(m1.hostile_spying.update(last, mergef(fresh)) =~= m1.hostile_spying);
        assert(upsert_hostile_spying_spec(m1, external_id, attacker, target, report_time, now)
            =~= m1);
    }
}

/// Submitting the same battle report twice changes nothing over
/// submitting it once.
pub proof fn lemma_battle_report_idempotent(
    m: StoreModel,
    external_id: i64,
    g: i64,
    s: i64,
    pos: i64,
    kind: PlanetType,
    attacker_lost: i64,
    defender_lost: i64,
    metal: i64,
    crystal: i64,
    deuterium: i64,
    debris_metal: i64,
    debris_crystal: i64,
    report_time: Option<i64>,
    reported_by: Option<i64>,
    now: i64,
)
    ensures
        crate::reports::upsert_battle_report_spec(
            crate::reports::upsert_battle_report_spec(
                m,
                external_id,
                g,
                s,
                pos,
                kind,
                attacker_lost,
                defender_lost,
                metal,
                crystal,
                deuterium,
                debris_metal,
                debris_crystal,
                report_time,
                reported_by,
                now,
            ),
            external_id,
            g,
            s,
            pos,
            kind,
            attacker_lost,
            defender_lost,
            metal,
            crystal,
            deuterium,
            debris_metal,
            debris_crystal,
            report_time,
            reported_by,
            now,
        ) == crate::reports::upsert_battle_report_spec(
            m,
            external_id,
            g,
            s,
            pos,
            kind,
            attacker_lost,
            defender_lost,
            metal,
            crystal,
            deuterium,
            debris_metal,
            debris_crystal,
            report_time,
            reported_by,
            now,
        ),
{
    let keyf = |r: crate::store::BattleReport| r.external_id == external_id;
    let mergef = |r: crate::store::BattleReport|
        crate::reports::battle_row(
            r.id,
            external_id,
            g,
            s,
            pos,
            kind,
            attacker_lost,
            defender_lost,
            metal,
            crystal,
            deuterium,
            debris_metal,
            debris_crystal,
            report_time,
            reported_by,
            now,
        );
    let m1 = crate::reports::upsert_battle_report_spec(
        m,
        external_id,
        g,
        s,
        pos,
        kind,
        attacker_lost,
        defender_lost,
        metal,
        crystal,
        deuterium,
        debris_metal,
        debris_crystal,
        report_time,
        reported_by,
        now,
    );
    if exists|i: int|
        0 <= i < m.battle_reports.len() && m.battle_reports[i].external_id == external_id {
        assert(m1.battle_reports == update_first(m.battle_reports, keyf, mergef));
        assert forall|x: crate::store::BattleReport| keyf(x) implies keyf(#[trigger] mergef(x)) by {}
        lemma_update_first_idempotent(m.battle_reports, keyf, mergef);
        let w = choose|w: int|
            0 <= w < m.battle_reports.len() && m.battle_reports[w].external_id == external_id;
        crate::rowseq::lemma_update_first_shape(m.battle_reports, keyf, mergef);
        assert(m1.battle_reports[w] == m.battle_reports[w] || m1.battle_reports[w] == mergef(
            m.battle_reports[w],
        ));
        assert(m1.battle_reports[w].external_id == external_id);
        assert(crate::reports::upsert_battle_report_spec(
            m1,
            external_id,
            g,
            s,
            pos,
            kind,
            attacker_lost,
            defender_lost,
            metal,
            crystal,
            deuterium,
            debris_metal,
            debris_crystal,
            report_time,
            reported_by,
            now,
        ) =~= m1);
    } else {
        let fresh = crate::reports::battle_row(
            m.next_report_id,
            external_id,
            g,
            s,
            pos,
            kind,
            attacker_lost,
            defender_lost,
            metal,
            crystal,
            deuterium,
            debris_metal,
            debris_crystal,
            report_time,
            reported_by,
            now,
        );
        assert(m1.battle_reports == m.battle_reports.push(fresh));
        let last = m.battle_reports.len() as int;
        assert(m1.battle_reports[last] == fresh);
        assert(forall|j: int| 0 <= j < last ==> !keyf(#[trigger] m1.battle_reports[j]));
        crate::rowseq::lemma_update_first_found(m1.battle_reports, keyf, mergef, last);
        assert(mergef(fresh) == fresh);
        assert(m1.battle_reports.update(last, mergef(fresh)) =~= m1.battle_reports);
        assert(crate::reports::upsert_battle_report_spec(
            m1,
            external_id,
            g,
            s,
            pos,
            kind,
            attacker_lost,
            defender_lost,
            metal,
            crystal,
            deuterium,
            debris_metal,
            debris_crystal,
            report_time,
            reported_by,
            now,
        ) =~= m1);
    }
}

/// Submitting the same recycle report twice changes nothing over
/// submitting it once.
pub proof fn lemma_recycle_report_idempotent(
    m: StoreModel,
    external_id: i64,
    g: i64,
    s: i64,
    pos: i64,
    metal: i64,
    crystal: i64,
    metal_tf: i64,
    crystal_tf: i64,
    report_time: Option<i64>,
    reported_by: Option<i64>,
    now: i64,
)
    ensures
        crate::reports::upsert_recycle_report_spec(
            crate::reports::upsert_recycle_report_spec(
                m,
                external_id,
                g,
                s,
                pos,
                metal,
                crystal,
                metal_tf,
                crystal_tf,
                report_time,
                reported_by,
                now,
            ),
            external_id,
            g,
            s,
            pos,
            metal,
            crystal,
            metal_tf,
            crystal_tf,
            report_time,
            reported_by,
            now,
        ) == crate::reports::upsert_recycle_report_spec(
            m,
            external_id,
            g,
            s,
            pos,
            metal,
            crystal,
            metal_tf,
            crystal_tf,
            report_time,
            reported_by,
            now,
        ),
{
    let keyf = |r: crate::store::RecycleReport| r.external_id == external_id;
    let mergef = |r: crate::store::RecycleReport|
        crate::reports::recycle_row(
            r.id,
            external_id,
            g,
            s,
            pos,
            metal,
            crystal,
            metal_tf,
            crystal_tf,
            report_time,
            reported_by,
            now,
        );
    let m1 = crate::reports::upsert_recycle_report_spec(
        m,
        external_id,
        g,
        s,
        pos,
        metal,
        crystal,
        metal_tf,
        crystal_tf,
        report_time,
        reported_by,
        now,
    );
    if exists|i: int|
        0 <= i < m.recycle_reports.len() && m.recycle_reports[i].external_id == external_id {
        assert(m1.recycle_reports == update_first(m.recycle_reports, keyf, mergef));
        assert forall|x: crate::store::RecycleReport| keyf(x) implies keyf(#[trigger] mergef(x)) by {}
        lemma_update_first_idempotent(m.recycle_reports, keyf, mergef);
        let w = choose|w: int|
            0 <= w < m.recycle_reports.len() && m.recycle_reports[w].external_id == external_id;
        crate::rowseq::lemma_update_first_shape(m.recycle_reports, keyf, mergef);
        assert(m1.recycle_reports[w] == m.recycle_reports[w] || m1.recycle_reports[w] == mergef(
            m.recycle_reports[w],
        ));
        assert(m1.recycle_reports[w].external_id == external_id);
        assert(crate::reports::upsert_recycle_report_spec(
            m1,
            external_id,
            g,
            s,
            pos,
            metal,
            crystal,
            metal_tf,
            crystal_tf,
            report_time,
            reported_by,
            now,
        ) =~= m1);
    } else {
        let fresh = crate::reports::recycle_row(
            m.next_report_id,
            external_id,
            g,
            s,
            pos,
            metal,
            crystal,
            metal_tf,
            crystal_tf,
            report_time,
            reported_by,
            now,
        );
        assert(m1.recycle_reports == m.recycle_reports.push(fresh));
        let last = m.recycle_reports.len() as int;
        assert(m1.recycle_reports[last] == fresh);
        assert(forall|j: int| 0 <= j < last ==> !keyf(#[trigger] m1.recycle_reports[j]));
        crate::rowseq::lemma_update_first_found(m1.recycle_reports, keyf, mergef, last);
        assert(mergef(fresh) == fresh);
        assert(m1.recycle_reports.update(last, mergef(fresh)) =~= m1.recycle_reports);
        assert(crate::reports::upsert_recycle_report_spec(
            m1,
            external_id,
            g,
            s,
            pos,
            metal,
            crystal,
            metal_tf,
            crystal_tf,
            report_time,
            reported_by,
            now,
        ) =~= m1);
    }
}

/// Upserting the same empire-snapshot planet twice changes nothing over
/// upserting it once: the wholesale overwrite settles.
pub proof fn lemma_upsert_planet_empire_idempotent(m: StoreModel, d: crate::store::PlanetDataModel, now: i64)
    ensures
        crate::store::upsert_planet_empire_spec(
            crate::store::upsert_planet_empire_spec(m, d, now),
            d,
            now,
        ) == crate::store::upsert_planet_empire_spec(m, d, now),
{
    let keyf = planet_key(d.galaxy, d.system, d.position, PlanetType::Planet);
    let mergef = crate::store::empire_planet_merge(d, now);
    let m1 = crate::store::upsert_planet_empire_spec(m, d, now);
    assert forall|x: PlanetModel| #[trigger] mergef(mergef(x)) == mergef(x) by {
        assert(mergef(mergef(x)) =~= mergef(x));
    }
    if m.has_planet(d.galaxy, d.system, d.position, PlanetType::Planet) {
        assert(m1.planets == update_first(m.planets, keyf, mergef));
        assert forall|x: PlanetModel| keyf(x) implies keyf(#[trigger] mergef(x)) by {}
        lemma_update_first_idempotent(m.planets, keyf, mergef);
        let w = choose|w: int| 0 <= w < m.planets.len() && keyf(m.planets[w]);
        crate::rowseq::lemma_update_first_shape(m.planets, keyf, mergef);
        assert(m1.planets[w] == m.planets[w] || m1.planets[w] == mergef(m.planets[w]));
        assert(keyf(m1.planets[w]));
        assert(m1.has_planet(d.galaxy, d.system, d.position, PlanetType::Planet));
        assert(crate::store::upsert_planet_empire_spec(m1, d, now) =~= m1);
    } else {
        let fresh = crate::store::empire_planet_fresh(m.next_planet_id, d, now);
        assert(m1.planets == m.planets.push(fresh));
        let last = m.planets.len() as int;
        assert(m1.planets[last] == fresh && keyf(fresh));
        assert(m1.has_planet(d.galaxy, d.system, d.position, PlanetType::Planet));
        assert(forall|j: int| 0 <= j < last ==> !keyf(#[trigger] m1.planets[j]));
        crate::rowseq::lemma_update_first_found(m1.planets, keyf, mergef, last);
        assert(mergef(fresh) =~= fresh);
        assert(m1.planets.update(last, mergef(fresh)) =~= m1.planets);
        assert(crate::store::upsert_planet_empire_spec(m1, d, now) =~= m1);
    }
}


} // verus!
