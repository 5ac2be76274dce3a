//! The galaxy scan reconciler: consumes a full listing of one
//! galaxy/system's occupied positions and reconciles it against stored
//! state — creating or updating owners, marking vacated positions as
//! historically deleted, and stamping the system marker whose update time
//! is the system's "last scanned at" value.

use vstd::prelude::*;
use vstd::string::StringExecFns;
use crate::models::{clone_opt_string, opt_str_view, PlanetModel, PlanetType};
use crate::rowseq::lemma_update_first_shape;
use crate::store::{
    deleted_merge, ensure_alliance_spec, ensure_player_spec, lemma_has_planet_same,
    lemma_has_player_same, link_merge, link_player_alliance_spec, mark_planet_deleted_spec,
    planet_key, scan_planet_merge, upsert_planet_spec, views_of, Store, StoreModel,
};

verus! {

/// One occupied position of a galaxy scan.
pub struct ScanPlanet {
    pub position: i64,
    pub player_id: Option<i64>,
    pub player_name: Option<String>,
    pub planet_name: Option<String>,
    pub moon_name: Option<String>,
    pub has_moon: Option<bool>,
    pub planet_id: Option<i64>,
    pub moon_id: Option<i64>,
    pub alliance_id: Option<i64>,
    pub alliance_tag: Option<String>,
}

/// Mathematical value of one occupied position.
#[verifier::ext_equal]
pub ghost struct ScanPlanetModel {
    pub position: i64,
    pub player_id: Option<i64>,
    pub player_name: Option<Seq<char>>,
    pub planet_name: Option<Seq<char>>,
    pub moon_name: Option<Seq<char>>,
    pub has_moon: Option<bool>,
    pub planet_id: Option<i64>,
    pub moon_id: Option<i64>,
    pub alliance_id: Option<i64>,
    pub alliance_tag: Option<Seq<char>>,
}

impl View for ScanPlanet {
    type V = ScanPlanetModel;

    open spec fn view(&self) -> ScanPlanetModel {
        ScanPlanetModel {
            position: self.position,
            player_id: self.player_id,
            player_name: opt_str_view(self.player_name),
            planet_name: opt_str_view(self.planet_name),
            moon_name: opt_str_view(self.moon_name),
            has_moon: self.has_moon,
            planet_id: self.planet_id,
            moon_id: self.moon_id,
            alliance_id: self.alliance_id,
            alliance_tag: opt_str_view(self.alliance_tag),
        }
    }
}

/// One position confirmed destroyed by this scan.
#[derive(Clone, Copy, Debug, PartialEq, Eq, Structural)]
pub struct DestroyedEntry {
    pub position: i64,
    pub kind: PlanetType,
}

/// One full galaxy/system scan payload.
pub struct GalaxyScan {
    pub galaxy: i64,
    pub system: i64,
    pub planets: Vec<ScanPlanet>,
    pub destroyed: Vec<DestroyedEntry>,
}

/// Mathematical value of a scan payload.
#[verifier::ext_equal]
pub ghost struct GalaxyScanModel {
    pub galaxy: i64,
    pub system: i64,
    pub planets: Seq<ScanPlanetModel>,
    pub destroyed: Seq<DestroyedEntry>,
}

impl View for GalaxyScan {
    type V = GalaxyScanModel;

    open spec fn view(&self) -> GalaxyScanModel {
        GalaxyScanModel {
            galaxy: self.galaxy,
            system: self.system,
            planets: views_of(self.planets@),
            destroyed: self.destroyed@,
        }
    }
}

/// What a scan reconciliation reports back: counts for telemetry, not
/// control flow.
#[derive(Clone, Copy, Debug, PartialEq, Eq, Structural)]
pub struct ScanOutcome {
    pub created: i64,
    pub skipped: i64,
    pub deleted: i64,
}

/// A scan entry establishes ownership only when it carries a positive
/// player id.
pub open spec fn entry_has_owner(p: ScanPlanetModel) -> bool {
    match p.player_id {
        Some(id) => id > 0,
        None => false,
    }
}

/// The player name a scan entry supplies, defaulting to "Unknown".
pub open spec fn entry_name(p: ScanPlanetModel) -> Seq<char> {
    match p.player_name {
        Some(n) => n,
        None => "Unknown"@,
    }
}

/// Whether the entry indicates a moon.
pub open spec fn entry_moon(p: ScanPlanetModel) -> bool {
    p.has_moon == Some(true)
}

/// What one occupied position does to the store: nothing without an
/// owner; otherwise resolve the player, resolve and link the alliance if
/// both id and tag are present, upsert the planet, and upsert the moon if
/// one is indicated.
pub open spec fn apply_entry_spec(
    m: StoreModel,
    g: i64,
    s: i64,
    p: ScanPlanetModel,
    now: i64,
) -> StoreModel {
    if !entry_has_owner(p) {
        m
    } else {
        let pid = p.player_id->0;
        let m1 = ensure_player_spec(m, pid, entry_name(p), now);
        let m2 = if p.alliance_id is Some && p.alliance_tag is Some {
            link_player_alliance_spec(
                ensure_alliance_spec(m1, p.alliance_id->0, p.alliance_tag->0, now),
                pid,
                p.alliance_id->0,
                now,
            )
        } else {
            m1
        };
        let m3 = upsert_planet_spec(
            m2,
            pid,
            g,
            s,
            p.position,
            PlanetType::Planet,
            p.planet_name,
            p.planet_id,
            now,
        );
        if entry_moon(p) {
            upsert_planet_spec(m3, pid, g, s, p.position, PlanetType::Moon, p.moon_name, p.moon_id, now)
        } else {
            m3
        }
    }
}

/// The occupied positions applied in order.
pub open spec fn apply_entries_spec(
    m: StoreModel,
    g: i64,
    s: i64,
    l: Seq<ScanPlanetModel>,
    now: i64,
) -> StoreModel
    decreases l.len(),
{
    if l.len() == 0 {
        m
    } else {
        apply_entries_spec(apply_entry_spec(m, g, s, l[0], now), g, s, l.skip(1), now)
    }
}

/// The destroyed positions applied in order.
pub open spec fn apply_destroyed_spec(
    m: StoreModel,
    g: i64,
    s: i64,
    l: Seq<DestroyedEntry>,
    now: i64,
) -> StoreModel
    decreases l.len(),
{
    if l.len() == 0 {
        m
    } else {
        apply_destroyed_spec(
            mark_planet_deleted_spec(m, g, s, l[0].position, l[0].kind, now),
            g,
            s,
            l.skip(1),
            now,
        )
    }
}

/// The sentinel name of the system marker: `EMPTY` when the scan found
/// nothing, else `SCANNED`.
pub open spec fn marker_name(scan: GalaxyScanModel) -> Seq<char> {
    if scan.planets.len() == 0 && scan.destroyed.len() == 0 {
        "EMPTY"@
    } else {
        "SCANNED"@
    }
}

/// What a whole scan reconciliation does: resolve the synthetic system
/// player, stamp the marker at position 0, mark destroyed positions
/// deleted, then apply the occupied positions.
pub open spec fn apply_galaxy_scan_spec(m: StoreModel, scan: GalaxyScanModel, now: i64) -> StoreModel {
    let m1 = ensure_player_spec(m, 0, "System"@, now);
    let m2 = upsert_planet_spec(
        m1,
        0,
        scan.galaxy,
        scan.system,
        0,
        PlanetType::Planet,
        Some(marker_name(scan)),
        None,
        now,
    );
    let m3 = apply_destroyed_spec(m2, scan.galaxy, scan.system, scan.destroyed, now);
    apply_entries_spec(m3, scan.galaxy, scan.system, scan.planets, now)
}

/// How many rows the entries create (a moon counts separately).
pub open spec fn created_count(l: Seq<ScanPlanetModel>) -> int
    decreases l.len(),
{
    if l.len() == 0 {
        0
    } else {
        (if entry_has_owner(l[0]) {
            if entry_moon(l[0]) {
                2int
            } else {
                1int
            }
        } else {
            0int
        }) + created_count(l.skip(1))
    }
}

/// How many entries are skipped for lack of ownership information.
pub open spec fn skipped_count(l: Seq<ScanPlanetModel>) -> int
    decreases l.len(),
{
    if l.len() == 0 {
        0
    } else {
        (if entry_has_owner(l[0]) {
            0int
        } else {
            1int
        }) + skipped_count(l.skip(1))
    }
}

/// Peeling one entry off the end of a prefix.
proof fn lemma_entries_snoc(m: StoreModel, g: i64, s: i64, l: Seq<ScanPlanetModel>, i: int, now: i64)
    requires
        0 <= i < l.len(),
    ensures
        apply_entries_spec(m, g, s, l.subrange(0, i + 1), now) == apply_entry_spec(
            apply_entries_spec(m, g, s, l.subrange(0, i), now),
            g,
            s,
            l[i],
            now,
        ),
        created_count(l.subrange(0, i + 1)) == created_count(l.subrange(0, i)) + (if entry_has_owner(
            l[i],
        ) {
            if entry_moon(l[i]) {
                2int
            } else {
                1int
            }
        } else {
            0int
        }),
        skipped_count(l.subrange(0, i + 1)) == skipped_count(l.subrange(0, i)) + (if entry_has_owner(
            l[i],
        ) {
            0int
        } else {
            1int
        }),
    decreases i,
{
    if i == 0 {
        assert(l.subrange(0, 1).skip(1) =~= Seq::<ScanPlanetModel>::empty());
        assert(l.subrange(0, 0) =~= Seq::<ScanPlanetModel>::empty());
        assert(l.subrange(0, 1)[0] == l[0]);
        let e = apply_entry_spec(m, g, s, l[0], now);
        assert(apply_entries_spec(m, g, s, l.subrange(0, 1), now) == apply_entries_spec(
            e,
            g,
            s,
            l.subrange(0, 1).skip(1),
            now,
        ));
        assert(apply_entries_spec(e, g, s, Seq::<ScanPlanetModel>::empty(), now) == e);
        assert(apply_entries_spec(m, g, s, Seq::<ScanPlanetModel>::empty(), now) == m);
        assert(created_count(Seq::<ScanPlanetModel>::empty()) == 0);
        assert(skipped_count(Seq::<ScanPlanetModel>::empty()) == 0);
        assert(created_count(l.subrange(0, 1)) == (if entry_has_owner(l[0]) {
            if entry_moon(l[0]) {
                2int
            } else {
                1int
            }
        } else {
            0int
        }) + created_count(l.subrange(0, 1).skip(1)));
        assert(skipped_count(l.subrange(0, 1)) == (if entry_has_owner(l[0]) {
            0int
        } else {
            1int
        }) + skipped_count(l.subrange(0, 1).skip(1)));
    } else {
        let l1 = l.skip(1);
        lemma_entries_snoc(apply_entry_spec(m, g, s, l[0], now), g, s, l1, i - 1, now);
        assert(l.subrange(0, i + 1)[0] == l[0]);
        assert(l.subrange(0, i)[0] == l[0]);
        assert(l.subrange(0, i + 1).skip(1) =~= l1.subrange(0, i));
        assert(l.subrange(0, i).skip(1) =~= l1.subrange(0, i - 1));
        assert(l1[i - 1] == l[i]);
        let e = apply_entry_spec(m, g, s, l[0], now);
        assert(apply_entries_spec(m, g, s, l.subrange(0, i + 1), now) == apply_entries_spec(
            e,
            g,
            s,
            l1.subrange(0, i),
            now,
        ));
        assert(apply_entries_spec(m, g, s, l.subrange(0, i), now) == apply_entries_spec(
            e,
            g,
            s,
            l1.subrange(0, i - 1),
            now,
        ));
        assert(created_count(l.subrange(0, i + 1)) == (if entry_has_owner(l[0]) {
            if entry_moon(l[0]) {
                2int
            } else {
                1int
            }
        } else {
            0int
        }) + created_count(l1.subrange(0, i)));
        assert(created_count(l.subrange(0, i)) == (if entry_has_owner(l[0]) {
            if entry_moon(l[0]) {
                2int
            } else {
                1int
            }
        } else {
            0int
        }) + created_count(l1.subrange(0, i - 1)));
        assert(skipped_count(l.subrange(0, i + 1)) == (if entry_has_owner(l[0]) {
            0int
        } else {
            1int
        }) + skipped_count(l1.subrange(0, i)));
        assert(skipped_count(l.subrange(0, i)) == (if entry_has_owner(l[0]) {
            0int
        } else {
            1int
        }) + skipped_count(l1.subrange(0, i - 1)));
    }
}

/// Peeling one destroyed position off the end of a prefix.
proof fn lemma_destroyed_snoc(m: StoreModel, g: i64, s: i64, l: Seq<DestroyedEntry>, i: int, now: i64)
    requires
        0 <= i < l.len(),
    ensures
        apply_destroyed_spec(m, g, s, l.subrange(0, i + 1), now) == mark_planet_deleted_spec(
            apply_destroyed_spec(m, g, s, l.subrange(0, i), now),
            g,
            s,
            l[i].position,
            l[i].kind,
            now,
        ),
    decreases i,
{
    if i == 0 {
        assert(l.subrange(0, 1).skip(1) =~= Seq::<DestroyedEntry>::empty());
        assert(l.subrange(0, 0) =~= Seq::<DestroyedEntry>::empty());
        assert(l.subrange(0, 1)[0] == l[0]);
        let e = mark_planet_deleted_spec(m, g, s, l[0].position, l[0].kind, now);
        assert(apply_destroyed_spec(m, g, s, l.subrange(0, 1), now) == apply_destroyed_spec(
            e,
            g,
            s,
            l.subrange(0, 1).skip(1),
            now,
        ));
        assert(apply_destroyed_spec(e, g, s, Seq::<DestroyedEntry>::empty(), now) == e);
        assert(apply_destroyed_spec(m, g, s, Seq::<DestroyedEntry>::empty(), now) == m);
    } else {
        let l1 = l.skip(1);
        lemma_destroyed_snoc(
            mark_planet_deleted_spec(m, g, s, l[0].position, l[0].kind, now),
            g,
            s,
            l1,
            i - 1,
            now,
        );
        assert(l.subrange(0, i + 1)[0] == l[0]);
        assert(l.subrange(0, i)[0] == l[0]);
        assert(l.subrange(0, i + 1).skip(1) =~= l1.subrange(0, i));
        assert(l.subrange(0, i).skip(1) =~= l1.subrange(0, i - 1));
        assert(l1[i - 1] == l[i]);
        let e = mark_planet_deleted_spec(m, g, s, l[0].position, l[0].kind, now);
        assert(apply_destroyed_spec(m, g, s, l.subrange(0, i + 1), now) == apply_destroyed_spec(
            e,
            g,
            s,
            l1.subrange(0, i),
            now,
        ));
        assert(apply_destroyed_spec(m, g, s, l.subrange(0, i), now) == apply_destroyed_spec(
            e,
            g,
            s,
            l1.subrange(0, i - 1),
            now,
        ));
    }
}

/// A body once present stays present under a first-match update whose
/// merge keeps the key fields (all planet merges do).
proof fn lemma_has_planet_update_first(
    m: StoreModel,
    m1: StoreModel,
    keyf: spec_fn(PlanetModel) -> bool,
    mergef: spec_fn(PlanetModel) -> PlanetModel,
    g: i64,
    s: i64,
    pos: i64,
    kind: PlanetType,
)
    requires
        m.has_planet(g, s, pos, kind),
        m1.planets == crate::rowseq::update_first(m.planets, keyf, mergef),
        forall|p: PlanetModel|
            (#[trigger] mergef(p)).galaxy == p.galaxy && mergef(p).system == p.system && mergef(
                p,
            ).position == p.position && mergef(p).kind == p.kind,
    ensures
        m1.has_planet(g, s, pos, kind),
{
    lemma_update_first_shape(m.planets, keyf, mergef);
    let w = choose|w: int| 0 <= w < m.planets.len() && planet_key(g, s, pos, kind)(m.planets[w]);
    assert(m1.planets[w] == m.planets[w] || m1.planets[w] == mergef(m.planets[w]));
    assert(planet_key(g, s, pos, kind)(m1.planets[w]));
}

/// A body once present stays present under a planet upsert at any key.
proof fn lemma_has_planet_upsert(
    m: StoreModel,
    m1: StoreModel,
    player_id: i64,
    g2: i64,
    s2: i64,
    pos2: i64,
    kind2: PlanetType,
    name: Option<Seq<char>>,
    pid: Option<i64>,
    now: i64,
    g: i64,
    s: i64,
    pos: i64,
    kind: PlanetType,
)
    requires
        m.has_planet(g, s, pos, kind),
        m1 == upsert_planet_spec(m, player_id, g2, s2, pos2, kind2, name, pid, now),
    ensures
        m1.has_planet(g, s, pos, kind),
{
    if m.has_planet(g2, s2, pos2, kind2) {
        lemma_has_planet_update_first(
            m,
            m1,
            planet_key(g2, s2, pos2, kind2),
            scan_planet_merge(player_id, name, pid, now),
            g,
            s,
            pos,
            kind,
        );
    } else {
        let w = choose|w: int|
            0 <= w < m.planets.len() && planet_key(g, s, pos, kind)(m.planets[w]);
        assert(m1.planets[w] == m.planets[w]);
        assert(planet_key(g, s, pos, kind)(m1.planets[w]));
    }
}

/// Applies one galaxy scan to the store, per the reconciliation policy.
/// Returns the created/skipped/deleted counts for telemetry.
#[verifier::rlimit(100)]
pub fn apply_galaxy_scan(store: &mut Store, scan: GalaxyScan, now: i64) -> (r: ScanOutcome)
    requires
        old(store).wf(),
        old(store)@.next_planet_id + 2 * scan.planets@.len() + 2 < 0x7fff_ffff_ffff_ffff,
        scan.destroyed@.len() < 0x7fff_ffff_ffff_ffff,
    ensures
        final(store).wf(),
        final(store)@ == apply_galaxy_scan_spec(old(store)@, scan@, now),
        r.created == created_count(scan@.planets),
        r.skipped == skipped_count(scan@.planets),
        r.deleted == scan@.destroyed.len(),
        final(store)@.has_planet(scan.galaxy, scan.system, 0, PlanetType::Planet),
{
    let ghost m0 = store@;
    let ghost sv = scan@;
    let g = scan.galaxy;
    let s = scan.system;

    // 1. Resolve the synthetic system-marker player.
    store.ensure_player(0, String::from_str("System"), now);
    let ghost m1 = store@;

    // 2. Stamp the system marker at position 0.
    let marker = if scan.planets.len() == 0 && scan.destroyed.len() == 0 {
        "EMPTY"
    } else {
        "SCANNED"
    };
    let marker_string = String::from_str(marker);
    proof {
        assert(marker_string@ == marker_name(sv));
    }
    store.upsert_planet(0, g, s, 0, PlanetType::Planet, Some(marker_string), None, now);
    let ghost m2 = store@;
    proof {
        assert(m2 == upsert_planet_spec(
            m1,
            0,
            g,
            s,
            0,
            PlanetType::Planet,
            Some(marker_name(sv)),
            None,
            now,
        ));
    }

    // 3. Mark destroyed positions deleted, keeping the rows for history.
    let mut deleted: i64 = 0;
    let mut i: usize = 0;
    proof {
        assert(sv.destroyed.subrange(0, 0) =~= Seq::<DestroyedEntry>::empty());
    }
    while i < scan.destroyed.len()
        invariant
            0 <= i <= scan.destroyed@.len(),
            sv.destroyed == scan.destroyed@,
            sv.galaxy == g && sv.system == s,
            store.wf(),
            store@ == apply_destroyed_spec(m2, g, s, sv.destroyed.subrange(0, i as int), now),
            store@.next_planet_id == m2.next_planet_id,
            store@.has_planet(g, s, 0, PlanetType::Planet),
            deleted == i,
            scan.destroyed@.len() < 0x7fff_ffff_ffff_ffff,
        decreases scan.destroyed@.len() - i,
    {
        let ghost before = store@;
        let d = scan.destroyed[i];
        store.mark_planet_deleted(g, s, d.position, d.kind, now);
        deleted = deleted + 1;
        proof {
            lemma_destroyed_snoc(m2, g, s, sv.destroyed, i as int, now);
            lemma_has_planet_update_first(
                before,
                store@,
                planet_key(g, s, d.position, d.kind),
                deleted_merge(now),
                g,
                s,
                0,
                PlanetType::Planet,
            );
        }
        i = i + 1;
    }
    proof {
        assert(sv.destroyed.subrange(0, sv.destroyed.len() as int) =~= sv.destroyed);
    }
    let ghost m3 = store@;

    // 4 and 5. Apply the occupied positions.
    let mut created: i64 = 0;
    let mut skipped: i64 = 0;
    let mut j: usize = 0;
    proof {
        assert(sv.planets.subrange(0, 0) =~= Seq::<ScanPlanetModel>::empty());
    }
    while j < scan.planets.len()
        invariant
            0 <= j <= scan.planets@.len(),
            sv.planets == views_of(scan.planets@),
            sv.planets.len() == scan.planets@.len(),
            sv.galaxy == g && sv.system == s,
            store.wf(),
            store@ == apply_entries_spec(m3, g, s, sv.planets.subrange(0, j as int), now),
            m3.next_planet_id == m2.next_planet_id,
            m2.next_planet_id <= m0.next_planet_id + 1,
            store@.next_planet_id <= m3.next_planet_id + 2 * j,
            m0.next_planet_id + 2 * scan.planets@.len() + 2 < 0x7fff_ffff_ffff_ffff,
            0 < m0.next_planet_id,
            store@.has_planet(g, s, 0, PlanetType::Planet),
            created == created_count(sv.planets.subrange(0, j as int)),
            skipped == skipped_count(sv.planets.subrange(0, j as int)),
            0 <= created <= 2 * j,
            0 <= skipped <= j,
        decreases scan.planets@.len() - j,
    {
        let ghost before = store@;
        let ghost pv = sv.planets[j as int];
        proof {
            assert(pv == scan.planets@[j as int]@);
        }
        let p = &scan.planets[j];
        let owner: Option<i64> = match p.player_id {
            Some(id) => if id > 0 {
                Some(id)
            } else {
                None
            },
            None => None,
        };
        match owner {
            None => {
                skipped = skipped + 1;
                proof {
                    assert(!entry_has_owner(pv));
                    assert(apply_entry_spec(before, g, s, pv, now) == before);
                    lemma_entries_snoc(m3, g, s, sv.planets, j as int, now);
                }
            },
            Some(pid) => {
                proof {
                    assert(entry_has_owner(pv) && pv.player_id->0 == pid);
                }
                let ghost e1 = ensure_player_spec(before, pid, entry_name(pv), now);
                let pname = match clone_opt_string(&p.player_name) {
                    Some(n) => n,
                    None => String::from_str("Unknown"),
                };
                proof {
                    assert(pname@ == entry_name(pv));
                }
                store.ensure_player(pid, pname, now);
                proof {
                    assert(store@ == e1);
                    assert(store@.has_player(pid));
                }
                let tag_opt = clone_opt_string(&p.alliance_tag);
                let ghost e2 = if pv.alliance_id is Some && pv.alliance_tag is Some {
                    link_player_alliance_spec(
                        ensure_alliance_spec(e1, pv.alliance_id->0, pv.alliance_tag->0, now),
                        pid,
                        pv.alliance_id->0,
                        now,
                    )
                } else {
                    e1
                };
                match (p.alliance_id, tag_opt) {
                    (Some(aid), Some(tag)) => {
                        store.ensure_alliance(aid, tag, now);
                        let ghost ea = store@;
                        proof {
                            assert(ea == ensure_alliance_spec(e1, aid, pv.alliance_tag->0, now));
                            lemma_has_player_same(e1, ea, pid);
                        }
                        store.link_player_alliance(pid, aid, now);
                        proof {
                            assert(store@ == e2);
                            if ea.has_alliance(aid) {
                                lemma_update_first_shape(
                                    ea.players,
                                    crate::store::player_key(pid),
                                    link_merge(aid, now),
                                );
                                let w = choose|w: int|
                                    0 <= w < ea.players.len() && ea.players[w].id == pid;
                                assert(store@.players[w] == ea.players[w] || store@.players[w]
                                    == link_merge(aid, now)(ea.players[w]));
                                assert(store@.players[w].id == pid);
                                assert(store@.has_player(pid));
                            } else {
                                lemma_has_player_same(ea, store@, pid);
                            }
                        }
                    },
                    _ => {
                        proof {
                            assert(store@ == e2);
                        }
                    },
                }
                proof {
                    assert(store@.has_player(pid));
                    assert(store@.next_planet_id == before.next_planet_id);
                    assert(before.has_planet(g, s, 0, PlanetType::Planet));
                    lemma_has_planet_same(before, store@, g, s, 0, PlanetType::Planet);
                }
                let ghost e3 = upsert_planet_spec(
                    e2,
                    pid,
                    g,
                    s,
                    pv.position,
                    PlanetType::Planet,
                    pv.planet_name,
                    pv.planet_id,
                    now,
                );
                let planet_name = clone_opt_string(&p.planet_name);
                store.upsert_planet(
                    pid,
                    g,
                    s,
                    p.position,
                    PlanetType::Planet,
                    planet_name,
                    p.planet_id,
                    now,
                );
                created = created + 1;
                proof {
                    assert(store@ == e3);
                    lemma_has_planet_upsert(
                        e2,
                        e3,
                        pid,
                        g,
                        s,
                        pv.position,
                        PlanetType::Planet,
                        pv.planet_name,
                        pv.planet_id,
                        now,
                        g,
                        s,
                        0,
                        PlanetType::Planet,
                    );
                    lemma_has_player_same(e2, e3, pid);
                }
                let moon = match p.has_moon {
                    Some(b) => b,
                    None => false,
                };
                if moon {
                    let moon_name = clone_opt_string(&p.moon_name);
                    let ghost e4 = upsert_planet_spec(
                        e3,
                        pid,
                        g,
                        s,
                        pv.position,
                        PlanetType::Moon,
                        pv.moon_name,
                        pv.moon_id,
                        now,
                    );
                    store.upsert_planet(
                        pid,
                        g,
                        s,
                        p.position,
                        PlanetType::Moon,
                        moon_name,
                        p.moon_id,
                        now,
                    );
                    created = created + 1;
                    proof {
                        assert(store@ == e4);
                        lemma_has_planet_upsert(
                            e3,
                            e4,
                            pid,
                            g,
                            s,
                            pv.position,
                            PlanetType::Moon,
                            pv.moon_name,
                            pv.moon_id,
                            now,
                            g,
                            s,
                            0,
                            PlanetType::Planet,
                        );
                    }
                }
                proof {
                    assert(store@ == apply_entry_spec(before, g, s, pv, now));
                    lemma_entries_snoc(m3, g, s, sv.planets, j as int, now);
                }
            },
        }
        j = j + 1;
    }
    proof {
        assert(sv.planets.subrange(0, sv.planets.len() as int) =~= sv.planets);
    }
    ScanOutcome { created, skipped, deleted }
}

} // verus!
