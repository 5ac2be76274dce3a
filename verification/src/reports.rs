//! The report ingestors: five independent idempotent upsert paths for spy,
//! battle, expedition, recycle and hostile-spying reports.
//!
//! Every kind is deduplicated by an externally supplied report id:
//! re-submission of the same id overwrites the stored payload (reports are
//! corrections, not append-only events).

use vstd::prelude::*;
use crate::models::{CountEntry, CountMap, PlanetType, opt_map_view, opt_str_view};
use crate::rowseq::{
    lemma_update_first_found,
    update_first,
};
use crate::store::{
    lemma_aux_unique_unchanged, views_of, BattleReport, ExpeditionReport, ExpeditionReportModel,
    HostileSpying, HostileSpyingModel, RecycleReport, SpyReport, SpyReportModel, Store, StoreModel,
};

verus! {

/// The invariant is kept when only report tables change and every report
/// table keeps its external ids unique.
pub proof fn lemma_wf_reports_changed(m: StoreModel, m1: StoreModel)
    requires
        m.wf(),
        m1.players == m.players,
        m1.alliances == m.alliances,
        m1.planets == m.planets,
        m1.next_planet_id == m.next_planet_id,
        m1.users == m.users,
        m1.next_user_id == m.next_user_id,
        m1.messages == m.messages,
        m1.stat_views == m.stat_views,
        m1.reports_unique(),
    ensures
        m1.wf(),
{
    lemma_aux_unique_unchanged(m, m1);
    assert forall|k: int, l: int| 0 <= k < l < m1.users.len() implies m1.users[k].id
        != m1.users[l].id by {
        assert(m.users[k].id != m.users[l].id);
    }
    assert forall|k: int| 0 <= k < m1.users.len() implies #[trigger] m1.users[k].id
        < m1.next_user_id by {
        assert(m.users[k].id < m.next_user_id);
    }
    assert forall|k: int| 0 <= k < m1.planets.len() implies m1.has_player(
        #[trigger] m1.planets[k].player_id,
    ) by {
        assert(m.has_player(m.planets[k].player_id));
        let w = choose|w: int|
            0 <= w < m.players.len() && m.players[w].id == m.planets[k].player_id;
        assert(m1.players[w].id == m1.planets[k].player_id);
    }
    assert forall|k: int| 0 <= k < m1.players.len() implies (match #[trigger] m1.players[k].alliance_id {
        Some(a) => m1.has_alliance(a),
        None => true,
    }) by {
        if m1.players[k].alliance_id is Some {
            let a = m1.players[k].alliance_id->0;
            assert(match m.players[k].alliance_id {
                Some(b) => m.has_alliance(b),
                None => true,
            });
            let w = choose|w: int| 0 <= w < m.alliances.len() && m.alliances[w].id == a;
            assert(m1.alliances[w].id == a);
        }
    }
    assert forall|k: int| 0 <= k < m1.planets.len() implies #[trigger] m1.planets[k].id
        < m1.next_planet_id by {
        assert(m.planets[k].id < m.next_planet_id);
    }
}

// ===========================================================================
// Spy reports
// ===========================================================================

/// The payload of one spy report submission.
pub struct SpyReportData {
    pub external_id: i64,
    pub galaxy: i64,
    pub system: i64,
    pub position: i64,
    pub kind: PlanetType,
    pub resources: Option<CountMap>,
    pub buildings: Option<CountMap>,
    pub research: Option<CountMap>,
    pub fleet: Option<CountMap>,
    pub defense: Option<CountMap>,
    pub reported_by: Option<i64>,
    pub report_time: Option<i64>,
}

/// Mathematical value of a spy report payload.
#[verifier::ext_equal]
pub ghost struct SpyReportDataModel {
    pub external_id: i64,
    pub galaxy: i64,
    pub system: i64,
    pub position: i64,
    pub kind: PlanetType,
    pub resources: Option<Seq<CountEntry>>,
    pub buildings: Option<Seq<CountEntry>>,
    pub research: Option<Seq<CountEntry>>,
    pub fleet: Option<Seq<CountEntry>>,
    pub defense: Option<Seq<CountEntry>>,
    pub reported_by: Option<i64>,
    pub report_time: Option<i64>,
}

impl View for SpyReportData {
    type V = SpyReportDataModel;

    open spec fn view(&self) -> SpyReportDataModel {
        SpyReportDataModel {
            external_id: self.external_id,
            galaxy: self.galaxy,
            system: self.system,
            position: self.position,
            kind: self.kind,
            resources: opt_map_view(self.resources),
            buildings: opt_map_view(self.buildings),
            research: opt_map_view(self.research),
            fleet: opt_map_view(self.fleet),
            defense: opt_map_view(self.defense),
            reported_by: self.reported_by,
            report_time: self.report_time,
        }
    }
}

/// The row a spy report stores, given the row id to keep.
pub open spec fn spy_row(row_id: i64, d: SpyReportDataModel, now: i64) -> SpyReportModel {
    SpyReportModel {
        id: row_id,
        external_id: d.external_id,
        galaxy: d.galaxy,
        system: d.system,
        position: d.position,
        kind: d.kind,
        resources: d.resources,
        buildings: d.buildings,
        research: d.research,
        fleet: d.fleet,
        defense: d.defense,
        reported_by: d.reported_by,
        report_time: d.report_time,
        created_at: now,
    }
}

/// What `upsert_spy_report` does: overwrite the payload of the row with
/// this external id, or append a fresh row.
pub open spec fn upsert_spy_report_spec(m: StoreModel, d: SpyReportDataModel, now: i64) -> StoreModel {
    if exists|i: int|
        0 <= i < m.spy_reports.len() && m.spy_reports[i].external_id == d.external_id {
        StoreModel {
            spy_reports: update_first(
                m.spy_reports,
                |r: SpyReportModel| r.external_id == d.external_id,
                |r: SpyReportModel| spy_row(r.id, d, now),
            ),
            ..m
        }
    } else {
        StoreModel {
            spy_reports: m.spy_reports.push(spy_row(m.next_report_id, d, now)),
            next_report_id: (m.next_report_id + 1) as i64,
            ..m
        }
    }
}

impl Store {
    /// Index of the spy report with this external id, if any.
    fn find_spy_report(&self, external_id: i64) -> (r: Option<usize>)
        ensures
            (match r {
                Some(i) => i < self@.spy_reports.len() && self@.spy_reports[i as int].external_id
                    == external_id && (forall|j: int|
                    0 <= j < i ==> self@.spy_reports[j].external_id != external_id),
                None => forall|j: int|
                    0 <= j < self@.spy_reports.len() ==> self@.spy_reports[j].external_id
                        != external_id,
            }),
    {
        let mut i: usize = 0;
        while i < self.spy_reports.len()
            invariant
                i <= self@.spy_reports.len(),
                forall|j: int| 0 <= j < i ==> self@.spy_reports[j].external_id != external_id,
            decreases self.spy_reports.len() - i,
        {
            if self.spy_reports[i].external_id == external_id {
                return Some(i);
            }
            i = i + 1;
        }
        None
    }

    /// Upserts a spy report: re-submission of the same external id
    /// overwrites the stored payload.
    pub fn upsert_spy_report(&mut self, d: SpyReportData, now: i64)
        requires
            old(self).wf(),
            old(self)@.next_report_id < 0x7fff_ffff_ffff_ffff,
        ensures
            final(self).wf(),
            final(self)@ == upsert_spy_report_spec(old(self)@, d@, now),
    {
        let ghost m0 = self@;
        let ghost dv = d@;
        let ghost keyf = |r: SpyReportModel| r.external_id == dv.external_id;
        let ghost mergef = |r: SpyReportModel| spy_row(r.id, dv, now);
        let eid = d.external_id;
        match self.find_spy_report(eid) {
            Some(i) => {
                let row_id = self.spy_reports[i].id;
                let row = SpyReport {
                    id: row_id,
                    external_id: d.external_id,
                    galaxy: d.galaxy,
                    system: d.system,
                    position: d.position,
                    kind: d.kind,
                    resources: d.resources,
                    buildings: d.buildings,
                    research: d.research,
                    fleet: d.fleet,
                    defense: d.defense,
                    reported_by: d.reported_by,
                    report_time: d.report_time,
                    created_at: now,
                };
                proof {
                    assert(row@ =~~= mergef(m0.spy_reports[i as int]));
                    lemma_update_first_found(m0.spy_reports, keyf, mergef, i as int);
                }
                self.spy_reports.set(i, row);
                proof {
                    let m1 = self@;
                    assert(views_of(self.spy_reports@) =~= m0.spy_reports.update(
                        i as int,
                        mergef(m0.spy_reports[i as int]),
                    ));
                    assert(m1 =~= upsert_spy_report_spec(m0, dv, now));
                    assert forall|k: int, l: int| 0 <= k < l < m1.spy_reports.len() implies m1.spy_reports[k].external_id
                        != m1.spy_reports[l].external_id by {
                        assert(m0.spy_reports[k].external_id != m0.spy_reports[l].external_id);
                    }
                    lemma_same_other_reports(m0, m1);
                    lemma_wf_reports_changed(m0, m1);
                }
            },
            None => {
                let row = SpyReport {
                    id: self.next_report_id,
                    external_id: d.external_id,
                    galaxy: d.galaxy,
                    system: d.system,
                    position: d.position,
                    kind: d.kind,
                    resources: d.resources,
                    buildings: d.buildings,
                    research: d.research,
                    fleet: d.fleet,
                    defense: d.defense,
                    reported_by: d.reported_by,
                    report_time: d.report_time,
                    created_at: now,
                };
                proof {
                    assert(row@ =~~= spy_row(m0.next_report_id, dv, now));
                }
                self.spy_reports.push(row);
                self.next_report_id = self.next_report_id + 1;
                proof {
                    let m1 = self@;
                    assert(views_of(self.spy_reports@) =~= m0.spy_reports.push(
                        spy_row(m0.next_report_id, dv, now),
                    ));
                    assert(m1 =~= upsert_spy_report_spec(m0, dv, now));
                    assert forall|k: int, l: int| 0 <= k < l < m1.spy_reports.len() implies m1.spy_reports[k].external_id
                        != m1.spy_reports[l].external_id by {
                        if l < m0.spy_reports.len() {
                            assert(m0.spy_reports[k].external_id != m0.spy_reports[l].external_id);
                        } else {
                            assert(m1.spy_reports[k] == m0.spy_reports[k]);
                        }
                    }
                    lemma_same_other_reports(m0, m1);
                    lemma_wf_reports_changed(m0, m1);
                }
            },
        }
    }
}

// ===========================================================================
// Battle reports
// ===========================================================================

/// The row a battle report stores, given the row id to keep.
pub open spec fn battle_row(
    row_id: i64,
    external_id: i64,
    g: i64,
    s: i64,
    pos: i64,
    kind: PlanetType,
    attacker_lost: i64,
    defender_lost: i64,
    metal: i64,
    crystal: i64,
    deuterium: i64,
    debris_metal: i64,
    debris_crystal: i64,
    report_time: Option<i64>,
    reported_by: Option<i64>,
    now: i64,
) -> BattleReport {
    BattleReport {
        id: row_id,
        external_id: external_id,
        galaxy: g,
        system: s,
        position: pos,
        kind: kind,
        attacker_lost: attacker_lost,
        defender_lost: defender_lost,
        metal: metal,
        crystal: crystal,
        deuterium: deuterium,
        debris_metal: debris_metal,
        debris_crystal: debris_crystal,
        report_time: report_time,
        reported_by: reported_by,
        created_at: now,
    }
}

/// What `upsert_battle_report` does.
pub open spec fn upsert_battle_report_spec(
    m: StoreModel,
    external_id: i64,
    g: i64,
    s: i64,
    pos: i64,
    kind: PlanetType,
    attacker_lost: i64,
    defender_lost: i64,
    metal: i64,
    crystal: i64,
    deuterium: i64,
    debris_metal: i64,
    debris_crystal: i64,
    report_time: Option<i64>,
    reported_by: Option<i64>,
    now: i64,
) -> StoreModel {
    if exists|i: int|
        0 <= i < m.battle_reports.len() && m.battle_reports[i].external_id == external_id {
        StoreModel {
            battle_reports: update_first(
                m.battle_reports,
                |r: BattleReport| r.external_id == external_id,
                |r: BattleReport|
                    battle_row(
                        r.id,
                        external_id,
                        g,
                        s,
                        pos,
                        kind,
                        attacker_lost,
                        defender_lost,
                        metal,
                        crystal,
                        deuterium,
                        debris_metal,
                        debris_crystal,
                        report_time,
                        reported_by,
                        now,
                    ),
            ),
            ..m
        }
    } else {
        StoreModel {
            battle_reports: m.battle_reports.push(
                battle_row(
                    m.next_report_id,
                    external_id,
                    g,
                    s,
                    pos,
                    kind,
                    attacker_lost,
                    defender_lost,
                    metal,
                    crystal,
                    deuterium,
                    debris_metal,
                    debris_crystal,
                    report_time,
                    reported_by,
                    now,
                ),
            ),
            next_report_id: (m.next_report_id + 1) as i64,
            ..m
        }
    }
}

impl Store {
    /// Index of the battle report with this external id, if any.
    fn find_battle_report(&self, external_id: i64) -> (r: Option<usize>)
        ensures
            (match r {
                Some(i) => i < self@.battle_reports.len()
                    && self@.battle_reports[i as int].external_id == external_id && (forall|j: int|
                    0 <= j < i ==> self@.battle_reports[j].external_id != external_id),
                None => forall|j: int|
                    0 <= j < self@.battle_reports.len() ==> self@.battle_reports[j].external_id
                        != external_id,
            }),
    {
        let mut i: usize = 0;
        while i < self.battle_reports.len()
            invariant
                i <= self@.battle_reports.len(),
                forall|j: int| 0 <= j < i ==> self@.battle_reports[j].external_id != external_id,
            decreases self.battle_reports.len() - i,
        {
            if self.battle_reports[i].external_id == external_id {
                return Some(i);
            }
            i = i + 1;
        }
        None
    }

    /// Upserts a battle report: re-submission of the same external id
    /// overwrites the stored payload.
    pub fn upsert_battle_report(
        &mut self,
        external_id: i64,
        g: i64,
        s: i64,
        pos: i64,
        kind: PlanetType,
        attacker_lost: i64,
        defender_lost: i64,
        metal: i64,
        crystal: i64,
        deuterium: i64,
        debris_metal: i64,
        debris_crystal: i64,
        report_time: Option<i64>,
        reported_by: Option<i64>,
        now: i64,
    )
        requires
            old(self).wf(),
            old(self)@.next_report_id < 0x7fff_ffff_ffff_ffff,
        ensures
            final(self).wf(),
            final(self)@ == upsert_battle_report_spec(
                old(self)@,
                external_id,
                g,
                s,
                pos,
                kind,
                attacker_lost,
                defender_lost,
                metal,
                crystal,
                deuterium,
                debris_metal,
                debris_crystal,
                report_time,
                reported_by,
                now,
            ),
    {
        let ghost m0 = self@;
        let ghost keyf = |r: BattleReport| r.external_id == external_id;
        match self.find_battle_report(external_id) {
            Some(i) => {
                let row_id = self.battle_reports[i].id;
                let row = BattleReport {
                    id: row_id,
                    external_id: external_id,
                    galaxy: g,
                    system: s,
                    position: pos,
                    kind: kind,
                    attacker_lost: attacker_lost,
                    defender_lost: defender_lost,
                    metal: metal,
                    crystal: crystal,
                    deuterium: deuterium,
                    debris_metal: debris_metal,
                    debris_crystal: debris_crystal,
                    report_time: report_time,
                    reported_by: reported_by,
                    created_at: now,
                };
                let ghost mergef = |r: BattleReport|
                    battle_row(
                        r.id,
                        external_id,
                        g,
                        s,
                        pos,
                        kind,
                        attacker_lost,
                        defender_lost,
                        metal,
                        crystal,
                        deuterium,
                        debris_metal,
                        debris_crystal,
                        report_time,
                        reported_by,
                        now,
                    );
                proof {
                    assert(row == mergef(m0.battle_reports[i as int]));
                    lemma_update_first_found(m0.battle_reports, keyf, mergef, i as int);
                }
                self.battle_reports.set(i, row);
                proof {
                    let m1 = self@;
                    assert(m1 =~= (StoreModel {
                        battle_reports: update_first(m0.battle_reports, keyf, mergef),
                        ..m0
                    }));
                    assert forall|k: int, l: int| 0 <= k < l < m1.battle_reports.len() implies m1.battle_reports[k].external_id
                        != m1.battle_reports[l].external_id by {
                        assert(m0.battle_reports[k].external_id != m0.battle_reports[l].external_id);
                    }
                    lemma_same_other_reports(m0, m1);
                    lemma_wf_reports_changed(m0, m1);
                }
            },
            None => {
                let row = BattleReport {
                    id: self.next_report_id,
                    external_id: external_id,
                    galaxy: g,
                    system: s,
                    position: pos,
                    kind: kind,
                    attacker_lost: attacker_lost,
                    defender_lost: defender_lost,
                    metal: metal,
                    crystal: crystal,
                    deuterium: deuterium,
                    debris_metal: debris_metal,
                    debris_crystal: debris_crystal,
                    report_time: report_time,
                    reported_by: reported_by,
                    created_at: now,
                };
                self.battle_reports.push(row);
                self.next_report_id = self.next_report_id + 1;
                proof {
                    let m1 = self@;
                    assert(m1 =~= (StoreModel {
                        battle_reports: m0.battle_reports.push(row),
                        next_report_id: (m0.next_report_id + 1) as i64,
                        ..m0
                    }));
                    assert forall|k: int, l: int| 0 <= k < l < m1.battle_reports.len() implies m1.battle_reports[k].external_id
                        != m1.battle_reports[l].external_id by {
                        if l < m0.battle_reports.len() {
                            assert(m0.battle_reports[k].external_id
                                != m0.battle_reports[l].external_id);
                        } else {
                            assert(m1.battle_reports[k] == m0.battle_reports[k]);
                        }
                    }
                    lemma_same_other_reports(m0, m1);
                    lemma_wf_reports_changed(m0, m1);
                }
            },
        }
    }
}

// ===========================================================================
// Expedition reports
// ===========================================================================

/// The payload of one expedition report submission.
pub struct ExpeditionReportData {
    pub external_id: i64,
    pub message: Option<String>,
    pub outcome: Option<String>,
    pub resources: Option<CountMap>,
    pub fleet: Option<CountMap>,
    pub reported_by: Option<i64>,
    pub report_time: Option<i64>,
}

/// Mathematical value of an expedition report payload.
#[verifier::ext_equal]
pub ghost struct ExpeditionReportDataModel {
    pub external_id: i64,
    pub message: Option<Seq<char>>,
    pub outcome: Option<Seq<char>>,
    pub resources: Option<Seq<CountEntry>>,
    pub fleet: Option<Seq<CountEntry>>,
    pub reported_by: Option<i64>,
    pub report_time: Option<i64>,
}

impl View for ExpeditionReportData {
    type V = ExpeditionReportDataModel;

    open spec fn view(&self) -> ExpeditionReportDataModel {
        ExpeditionReportDataModel {
            external_id: self.external_id,
            message: opt_str_view(self.message),
            outcome: opt_str_view(self.outcome),
            resources: opt_map_view(self.resources),
            fleet: opt_map_view(self.fleet),
            reported_by: self.reported_by,
            report_time: self.report_time,
        }
    }
}

/// The row an expedition report stores, given the row id to keep.
pub open spec fn expedition_row(row_id: i64, d: ExpeditionReportDataModel, now: i64) -> ExpeditionReportModel {
    ExpeditionReportModel {
        id: row_id,
        external_id: d.external_id,
        message: d.message,
        outcome: d.outcome,
        resources: d.resources,
        fleet: d.fleet,
        report_time: d.report_time,
        reported_by: d.reported_by,
        created_at: now,
    }
}

/// What `upsert_expedition_report` does.
pub open spec fn upsert_expedition_report_spec(
    m: StoreModel,
    d: ExpeditionReportDataModel,
    now: i64,
) -> StoreModel {
    if exists|i: int|
        0 <= i < m.expedition_reports.len() && m.expedition_reports[i].external_id
            == d.external_id {
        StoreModel {
            expedition_reports: update_first(
                m.expedition_reports,
                |r: ExpeditionReportModel| r.external_id == d.external_id,
                |r: ExpeditionReportModel| expedition_row(r.id, d, now),
            ),
            ..m
        }
    } else {
        StoreModel {
            expedition_reports: m.expedition_reports.push(expedition_row(m.next_report_id, d, now)),
            next_report_id: (m.next_report_id + 1) as i64,
            ..m
        }
    }
}

impl Store {
    /// Index of the expedition report with this external id, if any.
    fn find_expedition_report(&self, external_id: i64) -> (r: Option<usize>)
        ensures
            (match r {
                Some(i) => i < self@.expedition_reports.len()
                    && self@.expedition_reports[i as int].external_id == external_id && (forall|
                    j: int| 0 <= j < i ==> self@.expedition_reports[j].external_id != external_id),
                None => forall|j: int|
                    0 <= j < self@.expedition_reports.len()
                        ==> self@.expedition_reports[j].external_id != external_id,
            }),
    {
        let mut i: usize = 0;
        while i < self.expedition_reports.len()
            invariant
                i <= self@.expedition_reports.len(),
                forall|j: int|
                    0 <= j < i ==> self@.expedition_reports[j].external_id != external_id,
            decreases self.expedition_reports.len() - i,
        {
            if self.expedition_reports[i].external_id == external_id {
                return Some(i);
            }
            i = i + 1;
        }
        None
    }

    /// Upserts an expedition report: re-submission of the same external id
    /// overwrites the stored payload.
    pub fn upsert_expedition_report(&mut self, d: ExpeditionReportData, now: i64)
        requires
            old(self).wf(),
            old(self)@.next_report_id < 0x7fff_ffff_ffff_ffff,
        ensures
            final(self).wf(),
            final(self)@ == upsert_expedition_report_spec(old(self)@, d@, now),
    {
        let ghost m0 = self@;
        let ghost dv = d@;
        let ghost keyf = |r: ExpeditionReportModel| r.external_id == dv.external_id;
        let ghost mergef = |r: ExpeditionReportModel| expedition_row(r.id, dv, now);
        let eid = d.external_id;
        match self.find_expedition_report(eid) {
            Some(i) => {
                let row_id = self.expedition_reports[i].id;
                let row = ExpeditionReport {
                    id: row_id,
                    external_id: d.external_id,
                    message: d.message,
                    outcome: d.outcome,
                    resources: d.resources,
                    fleet: d.fleet,
                    report_time: d.report_time,
                    reported_by: d.reported_by,
                    created_at: now,
                };
                proof {
                    assert(row@ =~~= mergef(m0.expedition_reports[i as int]));
                    lemma_update_first_found(m0.expedition_reports, keyf, mergef, i as int);
                }
                self.expedition_reports.set(i, row);
                proof {
                    let m1 = self@;
                    assert(views_of(self.expedition_reports@) =~= m0.expedition_reports.update(
                        i as int,
                        mergef(m0.expedition_reports[i as int]),
                    ));
                    assert(m1 =~= upsert_expedition_report_spec(m0, dv, now));
                    assert forall|k: int, l: int| 0 <= k < l < m1.expedition_reports.len() implies m1.expedition_reports[k].external_id
                        != m1.expedition_reports[l].external_id by {
                        assert(m0.expedition_reports[k].external_id
                            != m0.expedition_reports[l].external_id);
                    }
                    lemma_same_other_reports(m0, m1);
                    lemma_wf_reports_changed(m0, m1);
                }
            },
            None => {
                let row = ExpeditionReport {
                    id: self.next_report_id,
                    external_id: d.external_id,
                    message: d.message,
                    outcome: d.outcome,
                    resources: d.resources,
                    fleet: d.fleet,
                    report_time: d.report_time,
                    reported_by: d.reported_by,
                    created_at: now,
                };
                proof {
                    assert(row@ =~~= expedition_row(m0.next_report_id, dv, now));
                }
                self.expedition_reports.push(row);
                self.next_report_id = self.next_report_id + 1;
                proof {
                    let m1 = self@;
                    assert(views_of(self.expedition_reports@) =~= m0.expedition_reports.push(
                        expedition_row(m0.next_report_id, dv, now),
                    ));
                    assert(m1 =~= upsert_expedition_report_spec(m0, dv, now));
                    assert forall|k: int, l: int| 0 <= k < l < m1.expedition_reports.len() implies m1.expedition_reports[k].external_id
                        != m1.expedition_reports[l].external_id by {
                        if l < m0.expedition_reports.len() {
                            assert(m0.expedition_reports[k].external_id
                                != m0.expedition_reports[l].external_id);
                        } else {
                            assert(m1.expedition_reports[k] == m0.expedition_reports[k]);
                        }
                    }
                    lemma_same_other_reports(m0, m1);
                    lemma_wf_reports_changed(m0, m1);
                }
            },
        }
    }
}

// ===========================================================================
// Recycle reports
// ===========================================================================

/// The row a recycle report stores, given the row id to keep.
pub open spec fn recycle_row(
    row_id: i64,
    external_id: i64,
    g: i64,
    s: i64,
    pos: i64,
    metal: i64,
    crystal: i64,
    metal_tf: i64,
    crystal_tf: i64,
    report_time: Option<i64>,
    reported_by: Option<i64>,
    now: i64,
) -> RecycleReport {
    RecycleReport {
        id: row_id,
        external_id: external_id,
        galaxy: g,
        system: s,
        position: pos,
        metal: metal,
        crystal: crystal,
        metal_tf: metal_tf,
        crystal_tf: crystal_tf,
        report_time: report_time,
        reported_by: reported_by,
        created_at: now,
    }
}

/// What `upsert_recycle_report` does.
pub open spec fn upsert_recycle_report_spec(
    m: StoreModel,
    external_id: i64,
    g: i64,
    s: i64,
    pos: i64,
    metal: i64,
    crystal: i64,
    metal_tf: i64,
    crystal_tf: i64,
    report_time: Option<i64>,
    reported_by: Option<i64>,
    now: i64,
) -> StoreModel {
    if exists|i: int|
        0 <= i < m.recycle_reports.len() && m.recycle_reports[i].external_id == external_id {
        StoreModel {
            recycle_reports: update_first(
                m.recycle_reports,
                |r: RecycleReport| r.external_id == external_id,
                |r: RecycleReport|
                    recycle_row(
                        r.id,
                        external_id,
                        g,
                        s,
                        pos,
                        metal,
                        crystal,
                        metal_tf,
                        crystal_tf,
                        report_time,
                        reported_by,
                        now,
                    ),
            ),
            ..m
        }
    } else {
        StoreModel {
            recycle_reports: m.recycle_reports.push(
                recycle_row(
                    m.next_report_id,
                    external_id,
                    g,
                    s,
                    pos,
                    metal,
                    crystal,
                    metal_tf,
                    crystal_tf,
                    report_time,
                    reported_by,
                    now,
                ),
            ),
            next_report_id: (m.next_report_id + 1) as i64,
            ..m
        }
    }
}

impl Store {
    /// Index of the recycle report with this external id, if any.
    fn find_recycle_report(&self, external_id: i64) -> (r: Option<usize>)
        ensures
            (match r {
                Some(i) => i < self@.recycle_reports.len()
                    && self@.recycle_reports[i as int].external_id == external_id && (forall|
                    j: int| 0 <= j < i ==> self@.recycle_reports[j].external_id != external_id),
                None => forall|j: int|
                    0 <= j < self@.recycle_reports.len() ==> self@.recycle_reports[j].external_id
                        != external_id,
            }),
    {
        let mut i: usize = 0;
        while i < self.recycle_reports.len()
            invariant
                i <= self@.recycle_reports.len(),
                forall|j: int| 0 <= j < i ==> self@.recycle_reports[j].external_id != external_id,
            decreases self.recycle_reports.len() - i,
        {
            if self.recycle_reports[i].external_id == external_id {
                return Some(i);
            }
            i = i + 1;
        }
        None
    }

    /// Upserts a recycle report: re-submission of the same external id
    /// overwrites the stored payload.
    pub fn upsert_recycle_report(
        &mut self,
        external_id: i64,
        g: i64,
        s: i64,
        pos: i64,
        metal: i64,
        crystal: i64,
        metal_tf: i64,
        crystal_tf: i64,
        report_time: Option<i64>,
        reported_by: Option<i64>,
        now: i64,
    )
        requires
            old(self).wf(),
            old(self)@.next_report_id < 0x7fff_ffff_ffff_ffff,
        ensures
            final(self).wf(),
            final(self)@ == upsert_recycle_report_spec(
                old(self)@,
                external_id,
                g,
                s,
                pos,
                metal,
                crystal,
                metal_tf,
                crystal_tf,
                report_time,
                reported_by,
                now,
            ),
    {
        let ghost m0 = self@;
        let ghost keyf = |r: RecycleReport| r.external_id == external_id;
        match self.find_recycle_report(external_id) {
            Some(i) => {
                let row_id = self.recycle_reports[i].id;
                let row = recycle_row_exec(
                    row_id,
                    external_id,
                    g,
                    s,
                    pos,
                    metal,
                    crystal,
                    metal_tf,
                    crystal_tf,
                    report_time,
                    reported_by,
                    now,
                );
                let ghost mergef = |r: RecycleReport|
                    recycle_row(
                        r.id,
                        external_id,
                        g,
                        s,
                        pos,
                        metal,
                        crystal,
                        metal_tf,
                        crystal_tf,
                        report_time,
                        reported_by,
                        now,
                    );
                proof {
                    assert(row == mergef(m0.recycle_reports[i as int]));
                    lemma_update_first_found(m0.recycle_reports, keyf, mergef, i as int);
                }
                self.recycle_reports.set(i, row);
                proof {
                    let m1 = self@;
                    assert(m1 =~= (StoreModel {
                        recycle_reports: update_first(m0.recycle_reports, keyf, mergef),
                        ..m0
                    }));
                    assert forall|k: int, l: int| 0 <= k < l < m1.recycle_reports.len() implies m1.recycle_reports[k].external_id
                        != m1.recycle_reports[l].external_id by {
                        assert(m0.recycle_reports[k].external_id
                            != m0.recycle_reports[l].external_id);
                    }
                    lemma_same_other_reports(m0, m1);
                    lemma_wf_reports_changed(m0, m1);
                }
            },
            None => {
                let row = recycle_row_exec(
                    self.next_report_id,
                    external_id,
                    g,
                    s,
                    pos,
                    metal,
                    crystal,
                    metal_tf,
                    crystal_tf,
                    report_time,
                    reported_by,
                    now,
                );
                self.recycle_reports.push(row);
                self.next_report_id = self.next_report_id + 1;
                proof {
                    let m1 = self@;
                    assert(m1 =~= (StoreModel {
                        recycle_reports: m0.recycle_reports.push(row),
                        next_report_id: (m0.next_report_id + 1) as i64,
                        ..m0
                    }));
                    assert forall|k: int, l: int| 0 <= k < l < m1.recycle_reports.len() implies m1.recycle_reports[k].external_id
                        != m1.recycle_reports[l].external_id by {
                        if l < m0.recycle_reports.len() {
                            assert(m0.recycle_reports[k].external_id
                                != m0.recycle_reports[l].external_id);
                        } else {
                            assert(m1.recycle_reports[k] == m0.recycle_reports[k]);
                        }
                    }
                    lemma_same_other_reports(m0, m1);
                    lemma_wf_reports_changed(m0, m1);
                }
            },
        }
    }
}

/// Builds a recycle report row.
fn recycle_row_exec(
    row_id: i64,
    external_id: i64,
    g: i64,
    s: i64,
    pos: i64,
    metal: i64,
    crystal: i64,
    metal_tf: i64,
    crystal_tf: i64,
    report_time: Option<i64>,
    reported_by: Option<i64>,
    now: i64,
) -> (r: RecycleReport)
    ensures
        r == recycle_row(
            row_id,
            external_id,
            g,
            s,
            pos,
            metal,
            crystal,
            metal_tf,
            crystal_tf,
            report_time,
            reported_by,
            now,
        ),
{
    RecycleReport {
        id: row_id,
        external_id: external_id,
        galaxy: g,
        system: s,
        position: pos,
        metal: metal,
        crystal: crystal,
        metal_tf: metal_tf,
        crystal_tf: crystal_tf,
        report_time: report_time,
        reported_by: reported_by,
        created_at: now,
    }
}

// ===========================================================================
// Hostile spying
// ===========================================================================

/// The row a hostile-spying record stores, given the row id to keep.
pub open spec fn hostile_row(
    row_id: i64,
    external_id: i64,
    attacker: Option<Seq<char>>,
    target: Option<Seq<char>>,
    report_time: Option<i64>,
    now: i64,
) -> HostileSpyingModel {
    HostileSpyingModel {
        id: row_id,
        external_id: external_id,
        attacker_coordinates: attacker,
        target_coordinates: target,
        report_time: report_time,
        created_at: now,
    }
}

/// What `upsert_hostile_spying` does.
pub open spec fn upsert_hostile_spying_spec(
    m: StoreModel,
    external_id: i64,
    attacker: Option<Seq<char>>,
    target: Option<Seq<char>>,
    report_time: Option<i64>,
    now: i64,
) -> StoreModel {
    if exists|i: int|
        0 <= i < m.hostile_spying.len() && m.hostile_spying[i].external_id == external_id {
        StoreModel {
            hostile_spying: update_first(
                m.hostile_spying,
                |r: HostileSpyingModel| r.external_id == external_id,
                |r: HostileSpyingModel| hostile_row(r.id, external_id, attacker, target, report_time, now),
            ),
            ..m
        }
    } else {
        StoreModel {
            hostile_spying: m.hostile_spying.push(
                hostile_row(m.next_report_id, external_id, attacker, target, report_time, now),
            ),
            next_report_id: (m.next_report_id + 1) as i64,
            ..m
        }
    }
}

impl Store {
    /// Index of the hostile-spying record with this external id, if any.
    fn find_hostile_spying(&self, external_id: i64) -> (r: Option<usize>)
        ensures
            (match r {
                Some(i) => i < self@.hostile_spying.len()
                    && self@.hostile_spying[i as int].external_id == external_id && (forall|j: int|
                    0 <= j < i ==> self@.hostile_spying[j].external_id != external_id),
                None => forall|j: int|
                    0 <= j < self@.hostile_spying.len() ==> self@.hostile_spying[j].external_id
                        != external_id,
            }),
    {
        let mut i: usize = 0;
        while i < self.hostile_spying.len()
            invariant
                i <= self@.hostile_spying.len(),
                forall|j: int| 0 <= j < i ==> self@.hostile_spying[j].external_id != external_id,
            decreases self.hostile_spying.len() - i,
        {
            if self.hostile_spying[i].external_id == external_id {
                return Some(i);
            }
            i = i + 1;
        }
        None
    }

    /// Upserts a hostile-spying record: keyed by external id, the raw
    /// coordinate strings are stored for display, not for joins.
    pub fn upsert_hostile_spying(
        &mut self,
        external_id: i64,
        attacker_coordinates: Option<String>,
        target_coordinates: Option<String>,
        report_time: Option<i64>,
        now: i64,
    )
        requires
            old(self).wf(),
            old(self)@.next_report_id < 0x7fff_ffff_ffff_ffff,
        ensures
            final(self).wf(),
            final(self)@ == upsert_hostile_spying_spec(
                old(self)@,
                external_id,
                opt_str_view(attacker_coordinates),
                opt_str_view(target_coordinates),
                report_time,
                now,
            ),
    {
        let ghost m0 = self@;
        let ghost av = opt_str_view(attacker_coordinates);
        let ghost tv = opt_str_view(target_coordinates);
        let ghost keyf = |r: HostileSpyingModel| r.external_id == external_id;
        let ghost mergef = |r: HostileSpyingModel|
            hostile_row(r.id, external_id, av, tv, report_time, now);
        match self.find_hostile_spying(external_id) {
            Some(i) => {
                let row_id = self.hostile_spying[i].id;
                let row = HostileSpying {
                    id: row_id,
                    external_id: external_id,
                    attacker_coordinates: attacker_coordinates,
                    target_coordinates: target_coordinates,
                    report_time: report_time,
                    created_at: now,
                };
                proof {
                    assert(row@ =~~= mergef(m0.hostile_spying[i as int]));
                    lemma_update_first_found(m0.hostile_spying, keyf, mergef, i as int);
                }
                self.hostile_spying.set(i, row);
                proof {
                    let m1 = self@;
                    assert(views_of(self.hostile_spying@) =~= m0.hostile_spying.update(
                        i as int,
                        mergef(m0.hostile_spying[i as int]),
                    ));
                    assert(m1 =~= upsert_hostile_spying_spec(m0, external_id, av, tv, report_time, now));
                    assert forall|k: int, l: int| 0 <= k < l < m1.hostile_spying.len() implies m1.hostile_spying[k].external_id
                        != m1.hostile_spying[l].external_id by {
                        assert(m0.hostile_spying[k].external_id != m0.hostile_spying[l].external_id);
                    }
                    lemma_same_other_reports(m0, m1);
                    lemma_wf_reports_changed(m0, m1);
                }
            },
            None => {
                let row = HostileSpying {
                    id: self.next_report_id,
                    external_id: external_id,
                    attacker_coordinates: attacker_coordinates,
                    target_coordinates: target_coordinates,
                    report_time: report_time,
                    created_at: now,
                };
                proof {
                    assert(row@ =~~= hostile_row(m0.next_report_id, external_id, av, tv, report_time, now));
                }
                self.hostile_spying.push(row);
                self.next_report_id = self.next_report_id + 1;
                proof {
                    let m1 = self@;
                    assert(views_of(self.hostile_spying@) =~= m0.hostile_spying.push(
                        hostile_row(m0.next_report_id, external_id, av, tv, report_time, now),
                    ));
                    assert(m1 =~= upsert_hostile_spying_spec(m0, external_id, av, tv, report_time, now));
                    assert forall|k: int, l: int| 0 <= k < l < m1.hostile_spying.len() implies m1.hostile_spying[k].external_id
                        != m1.hostile_spying[l].external_id by {
                        if l < m0.hostile_spying.len() {
                            assert(m0.hostile_spying[k].external_id
                                != m0.hostile_spying[l].external_id);
                        } else {
                            assert(m1.hostile_spying[k] == m0.hostile_spying[k]);
                        }
                    }
                    lemma_same_other_reports(m0, m1);
                    lemma_wf_reports_changed(m0, m1);
                }
            },
        }
    }
}

/// Report tables equal to the originals keep their uniqueness (stated for
/// the four tables a spy upsert leaves alone, and symmetrically).
pub proof fn lemma_same_other_reports(m: StoreModel, m1: StoreModel)
    requires
        m.wf(),
    ensures
        m1.battle_reports == m.battle_reports ==> (forall|i: int, j: int|
            0 <= i < j < m1.battle_reports.len() ==> m1.battle_reports[i].external_id
                != m1.battle_reports[j].external_id),
        m1.spy_reports == m.spy_reports ==> (forall|i: int, j: int|
            0 <= i < j < m1.spy_reports.len() ==> m1.spy_reports[i].external_id
                != m1.spy_reports[j].external_id),
        m1.expedition_reports == m.expedition_reports ==> (forall|i: int, j: int|
            0 <= i < j < m1.expedition_reports.len() ==> m1.expedition_reports[i].external_id
                != m1.expedition_reports[j].external_id),
        m1.recycle_reports == m.recycle_reports ==> (forall|i: int, j: int|
            0 <= i < j < m1.recycle_reports.len() ==> m1.recycle_reports[i].external_id
                != m1.recycle_reports[j].external_id),
        m1.hostile_spying == m.hostile_spying ==> (forall|i: int, j: int|
            0 <= i < j < m1.hostile_spying.len() ==> m1.hostile_spying[i].external_id
                != m1.hostile_spying[j].external_id),
{
}

} // verus!
