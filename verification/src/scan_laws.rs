//! The batch-level idempotence law of the galaxy scan reconciler:
//! applying one whole scan twice in a row yields the same stored state as
//! applying it once, for every well-shaped scan (distinct occupied
//! positions from 1 up, destroyed positions disjoint from them, and each
//! player and alliance described consistently within the payload).

use vstd::prelude::*;
use crate::export::find_planet_row;
use crate::models::{PlanetModel, PlanetType, PlayerModel};
use crate::rowseq::{
    lemma_update_first_found, lemma_update_first_none, lemma_upsert_found, lemma_upsert_none,
    update_first,
};
use crate::scan::{
    apply_destroyed_spec, apply_entries_spec, apply_entry_spec, apply_galaxy_scan_spec,
    entry_has_owner, entry_moon, entry_name, marker_name, DestroyedEntry, GalaxyScanModel,
    ScanPlanetModel,
};
use crate::store::{
    deleted_merge, ensure_alliance_spec, ensure_player_spec, link_merge, link_player_alliance_spec,
    mark_planet_deleted_spec, planet_key, scan_planet_fresh, scan_planet_merge, upsert_planet_spec,
    StoreModel,
};

verus! {

/// A scan is well shaped when its occupied positions are distinct and
/// from 1 up, its destroyed positions are disjoint from the occupied
/// ones, and every repetition of a player or an alliance across entries
/// carries the same alliance information.
pub open spec fn scan_well_shaped(sc: GalaxyScanModel) -> bool {
    &&& forall|i: int, j: int|
        0 <= i < j < sc.planets.len() ==> sc.planets[i].position != sc.planets[j].position
    &&& forall|i: int| 0 <= i < sc.planets.len() ==> (#[trigger] sc.planets[i].position) >= 1
    &&& forall|i: int, j: int|
        0 <= i < sc.planets.len() && 0 <= j < sc.destroyed.len() ==> (
        #[trigger] sc.planets[i].position) != (#[trigger] sc.destroyed[j].position)
    &&& forall|i: int, j: int|
        0 <= i < sc.planets.len() && 0 <= j < sc.planets.len() && entry_has_owner(sc.planets[i])
            && entry_has_owner(sc.planets[j]) && (#[trigger] sc.planets[i].player_id) == (
        #[trigger] sc.planets[j].player_id) ==> sc.planets[i].alliance_id
            == sc.planets[j].alliance_id && sc.planets[i].alliance_tag
            == sc.planets[j].alliance_tag
    &&& forall|i: int, j: int|
        0 <= i < sc.planets.len() && 0 <= j < sc.planets.len() && entry_has_owner(sc.planets[i])
            && entry_has_owner(sc.planets[j]) && (#[trigger] sc.planets[i].alliance_id) == (
        #[trigger] sc.planets[j].alliance_id) ==> sc.planets[i].alliance_tag
            == sc.planets[j].alliance_tag
}

/// The first matching row is the found row.
pub proof fn lemma_find_is_first(
    planets: Seq<PlanetModel>,
    g: i64,
    s: i64,
    pos: i64,
    kind: PlanetType,
    i: int,
)
    requires
        0 <= i < planets.len(),
        planet_key(g, s, pos, kind)(planets[i]),
        forall|j: int| 0 <= j < i ==> !planet_key(g, s, pos, kind)(#[trigger] planets[j]),
    ensures
        find_planet_row(planets, g, s, pos, kind) == Some(planets[i]),
    decreases i,
{
    if i > 0 {
        assert(planets.skip(1)[i - 1] == planets[i]);
        assert(forall|j: int|
            0 <= j < i - 1 ==> planets.skip(1)[j] == #[trigger] planets[j + 1]);
        lemma_find_is_first(planets.skip(1), g, s, pos, kind, i - 1);
    }
}

/// No matching row: nothing found.
pub proof fn lemma_find_none(planets: Seq<PlanetModel>, g: i64, s: i64, pos: i64, kind: PlanetType)
    requires
        forall|j: int| 0 <= j < planets.len() ==> !planet_key(g, s, pos, kind)(#[trigger] planets[j]),
    ensures
        find_planet_row(planets, g, s, pos, kind) is None,
    decreases planets.len(),
{
    if planets.len() > 0 {
        assert(forall|j: int|
            0 <= j < planets.skip(1).len() ==> planets.skip(1)[j] == #[trigger] planets[j + 1]);
        lemma_find_none(planets.skip(1), g, s, pos, kind);
    }
}

/// Something found: a matching first index exists.
pub proof fn lemma_find_some_index(planets: Seq<PlanetModel>, g: i64, s: i64, pos: i64, kind: PlanetType)
    requires
        find_planet_row(planets, g, s, pos, kind) is Some,
    ensures
        exists|i: int|
            0 <= i < planets.len() && planet_key(g, s, pos, kind)(#[trigger] planets[i])
                && find_planet_row(planets, g, s, pos, kind) == Some(planets[i]) && (forall|j: int|
                0 <= j < i ==> !planet_key(g, s, pos, kind)(#[trigger] planets[j])),
    decreases planets.len(),
{
    if planets.len() > 0 {
        if planet_key(g, s, pos, kind)(planets[0]) {
            assert(planets[0] == planets[0]);
        } else {
            lemma_find_some_index(planets.skip(1), g, s, pos, kind);
            let i1 = choose|i: int|
                0 <= i < planets.skip(1).len() && planet_key(g, s, pos, kind)(
                    #[trigger] planets.skip(1)[i],
                ) && find_planet_row(planets.skip(1), g, s, pos, kind) == Some(planets.skip(1)[i])
                    && (forall|j: int|
                    0 <= j < i ==> !planet_key(g, s, pos, kind)(#[trigger] planets.skip(1)[j]));
            assert(planets.skip(1)[i1] == planets[i1 + 1]);
            assert forall|j: int|
                0 <= j < i1 + 1 implies !planet_key(g, s, pos, kind)(#[trigger] planets[j]) by {
                if j > 0 {
                    assert(planets.skip(1)[j - 1] == planets[j]);
                }
            }
            assert(planet_key(g, s, pos, kind)(planets[i1 + 1]));
        }
    }
}

/// Two tables that agree row-keys-wise, and value-wise on the rows of a
/// key, are found alike at that key.
pub proof fn lemma_find_frame(
    a: Seq<PlanetModel>,
    b: Seq<PlanetModel>,
    g: i64,
    s: i64,
    pos: i64,
    kind: PlanetType,
)
    requires
        a.len() == b.len(),
        forall|j: int|
            0 <= j < a.len() ==> ((#[trigger] b[j]).galaxy == a[j].galaxy && b[j].system
                == a[j].system && b[j].position == a[j].position && b[j].kind == a[j].kind),
        forall|j: int| 0 <= j < a.len() && planet_key(g, s, pos, kind)(#[trigger] a[j]) ==> b[j] == a[j],
    ensures
        find_planet_row(b, g, s, pos, kind) == find_planet_row(a, g, s, pos, kind),
    decreases a.len(),
{
    if a.len() > 0 {
        if planet_key(g, s, pos, kind)(a[0]) {
        } else {
            assert(forall|j: int|
                0 <= j < a.skip(1).len() ==> #[trigger] a.skip(1)[j] == a[j + 1]);
            assert(forall|j: int|
                0 <= j < b.skip(1).len() ==> #[trigger] b.skip(1)[j] == b[j + 1]);
            lemma_find_frame(a.skip(1), b.skip(1), g, s, pos, kind);
        }
    }
}

/// An upsert at one key: what is then found at that key, and at others.
pub proof fn lemma_upsert_planet_find(
    m: StoreModel,
    owner: i64,
    g: i64,
    s: i64,
    pos: i64,
    kind: PlanetType,
    name: Option<Seq<char>>,
    pid: Option<i64>,
    now: i64,
)
    ensures
        ({
            let r = upsert_planet_spec(m, owner, g, s, pos, kind, name, pid, now);
            &&& (match find_planet_row(r.planets, g, s, pos, kind) {
                Some(row) => row.player_id == owner && row.name == name && row.updated_at == now
                    && row.galaxy == g && row.system == s && row.position == pos && row.kind == kind
                    && row.planet_id == (match pid {
                    Some(x) => Some(x),
                    None => (match find_planet_row(m.planets, g, s, pos, kind) {
                        Some(old) => old.planet_id,
                        None => None,
                    }),
                }),
                None => false,
            })
            &&& forall|g2: i64, s2: i64, p2: i64, k2: PlanetType|
                !(g2 == g && s2 == s && p2 == pos && k2 == kind)
                    ==> #[trigger] find_planet_row(r.planets, g2, s2, p2, k2) == find_planet_row(
                    m.planets,
                    g2,
                    s2,
                    p2,
                    k2,
                )
            &&& r.players == m.players
            &&& r.alliances == m.alliances
        }),
{
    let r = upsert_planet_spec(m, owner, g, s, pos, kind, name, pid, now);
    let keyf = planet_key(g, s, pos, kind);
    let mergef = scan_planet_merge(owner, name, pid, now);
    if m.has_planet(g, s, pos, kind) {
        let w = choose|w: int| 0 <= w < m.planets.len() && keyf(m.planets[w]);
        // Walk to the first matching index.
        assert(find_planet_row(m.planets, g, s, pos, kind) is Some) by {
            crate::export::lemma_find_planet_exists_pub(m.planets, g, s, pos, kind, w);
        }
        lemma_find_some_index(m.planets, g, s, pos, kind);
        let i = choose|i: int|
            0 <= i < m.planets.len() && keyf(#[trigger] m.planets[i]) && find_planet_row(
                m.planets,
                g,
                s,
                pos,
                kind,
            ) == Some(m.planets[i]) && (forall|j: int| 0 <= j < i ==> !keyf(#[trigger] m.planets[j]));
        lemma_update_first_found(m.planets, keyf, mergef, i);
        assert(r.planets == m.planets.update(i, mergef(m.planets[i])));
        lemma_find_is_first(r.planets, g, s, pos, kind, i);
        assert forall|g2: i64, s2: i64, p2: i64, k2: PlanetType|
            !(g2 == g && s2 == s && p2 == pos && k2 == kind) implies #[trigger] find_planet_row(
            r.planets,
            g2,
            s2,
            p2,
            k2,
        ) == find_planet_row(m.planets, g2, s2, p2, k2) by {
            assert forall|j: int|
                0 <= j < m.planets.len() && planet_key(g2, s2, p2, k2)(
                    #[trigger] m.planets[j],
                ) implies r.planets[j] == m.planets[j] by {
                if j == i {
                    assert(keyf(m.planets[i]));
                    assert(false);
                }
            }
            lemma_find_frame(m.planets, r.planets, g2, s2, p2, k2);
        }
    } else {
        let fresh = scan_planet_fresh(m.next_planet_id, owner, g, s, pos, kind, name, pid, now);
        assert(r.planets == m.planets.push(fresh));
        assert(forall|j: int|
            0 <= j < m.planets.len() ==> !keyf(#[trigger] m.planets[j]));
        assert(forall|j: int|
            0 <= j < m.planets.len() ==> r.planets[j] == #[trigger] m.planets[j]);
        lemma_find_is_first(r.planets, g, s, pos, kind, m.planets.len() as int);
        lemma_find_none(m.planets, g, s, pos, kind);
        assert forall|g2: i64, s2: i64, p2: i64, k2: PlanetType|
            !(g2 == g && s2 == s && p2 == pos && k2 == kind) implies #[trigger] find_planet_row(
            r.planets,
            g2,
            s2,
            p2,
            k2,
        ) == find_planet_row(m.planets, g2, s2, p2, k2) by {
            lemma_find_push_other(m.planets, fresh, g2, s2, p2, k2);
        }
    }
}

/// Appending a row of another key does not change what is found.
pub proof fn lemma_find_push_other(
    planets: Seq<PlanetModel>,
    x: PlanetModel,
    g: i64,
    s: i64,
    pos: i64,
    kind: PlanetType,
)
    requires
        !planet_key(g, s, pos, kind)(x),
    ensures
        find_planet_row(planets.push(x), g, s, pos, kind) == find_planet_row(planets, g, s, pos, kind),
    decreases planets.len(),
{
    assert(!(x.galaxy == g && x.system == s && x.position == pos && x.kind == kind));
    if planets.len() == 0 {
        assert(planets.push(x)[0] == x);
        assert(planets.push(x).skip(1) =~= Seq::<PlanetModel>::empty());
        assert(find_planet_row(planets.push(x), g, s, pos, kind) == find_planet_row(
            Seq::<PlanetModel>::empty(),
            g,
            s,
            pos,
            kind,
        ));
        assert(find_planet_row(Seq::<PlanetModel>::empty(), g, s, pos, kind) is None);
    } else {
        assert(planets.push(x)[0] == planets[0]);
        assert(planets.push(x).skip(1) =~= planets.skip(1).push(x));
        lemma_find_push_other(planets.skip(1), x, g, s, pos, kind);
    }
}

/// A destroyed marking at one key: what is then found there and at
/// others.
pub proof fn lemma_mark_deleted_find(m: StoreModel, g: i64, s: i64, pos: i64, kind: PlanetType, now: i64)
    ensures
        ({
            let r = mark_planet_deleted_spec(m, g, s, pos, kind, now);
            &&& (match (find_planet_row(r.planets, g, s, pos, kind), find_planet_row(
                m.planets,
                g,
                s,
                pos,
                kind,
            )) {
                (Some(a), Some(b)) => a == (PlanetModel {
                    status: crate::models::Status::Deleted,
                    updated_at: now,
                    ..b
                }),
                (None, None) => true,
                _ => false,
            })
            &&& forall|g2: i64, s2: i64, p2: i64, k2: PlanetType|
                !(g2 == g && s2 == s && p2 == pos && k2 == kind)
                    ==> #[trigger] find_planet_row(r.planets, g2, s2, p2, k2) == find_planet_row(
                    m.planets,
                    g2,
                    s2,
                    p2,
                    k2,
                )
            &&& r.players == m.players
            &&& r.alliances == m.alliances
            &&& r.next_planet_id == m.next_planet_id
        }),
{
    let r = mark_planet_deleted_spec(m, g, s, pos, kind, now);
    let keyf = planet_key(g, s, pos, kind);
    let mergef = deleted_merge(now);
    if exists|i: int| 0 <= i < m.planets.len() && keyf(#[trigger] m.planets[i]) {
        let w = choose|w: int| 0 <= w < m.planets.len() && keyf(#[trigger] m.planets[w]);
        assert(find_planet_row(m.planets, g, s, pos, kind) is Some) by {
            crate::export::lemma_find_planet_exists_pub(m.planets, g, s, pos, kind, w);
        }
        lemma_find_some_index(m.planets, g, s, pos, kind);
        let i = choose|i: int|
            0 <= i < m.planets.len() && keyf(#[trigger] m.planets[i]) && find_planet_row(
                m.planets,
                g,
                s,
                pos,
                kind,
            ) == Some(m.planets[i]) && (forall|j: int| 0 <= j < i ==> !keyf(#[trigger] m.planets[j]));
        lemma_update_first_found(m.planets, keyf, mergef, i);
        lemma_find_is_first(r.planets, g, s, pos, kind, i);
        assert(mergef(m.planets[i]) =~= (PlanetModel {
            status: crate::models::Status::Deleted,
            updated_at: now,
            ..m.planets[i]
        }));
        assert forall|g2: i64, s2: i64, p2: i64, k2: PlanetType|
            !(g2 == g && s2 == s && p2 == pos && k2 == kind) implies #[trigger] find_planet_row(
            r.planets,
            g2,
            s2,
            p2,
            k2,
        ) == find_planet_row(m.planets, g2, s2, p2, k2) by {
            assert forall|j: int|
                0 <= j < m.planets.len() && planet_key(g2, s2, p2, k2)(
                    #[trigger] m.planets[j],
                ) implies r.planets[j] == m.planets[j] by {
                if j == i {
                    assert(false);
                }
            }
            lemma_find_frame(m.planets, r.planets, g2, s2, p2, k2);
        }
    } else {
        lemma_update_first_none(m.planets, keyf, mergef);
        assert(r.planets =~= m.planets);
        lemma_find_none(m.planets, g, s, pos, kind);
        lemma_find_none(r.planets, g, s, pos, kind);
    }
}

/// Marking a row that is already deleted at this time changes nothing.
pub proof fn lemma_mark_deleted_noop(m: StoreModel, g: i64, s: i64, pos: i64, kind: PlanetType, now: i64)
    requires
        (match find_planet_row(m.planets, g, s, pos, kind) {
            Some(row) => row.status == crate::models::Status::Deleted && row.updated_at == now,
            None => true,
        }),
    ensures
        mark_planet_deleted_spec(m, g, s, pos, kind, now) == m,
{
    let keyf = planet_key(g, s, pos, kind);
    let mergef = deleted_merge(now);
    if exists|i: int| 0 <= i < m.planets.len() && keyf(#[trigger] m.planets[i]) {
        let w = choose|w: int| 0 <= w < m.planets.len() && keyf(#[trigger] m.planets[w]);
        assert(find_planet_row(m.planets, g, s, pos, kind) is Some) by {
            crate::export::lemma_find_planet_exists_pub(m.planets, g, s, pos, kind, w);
        }
        lemma_find_some_index(m.planets, g, s, pos, kind);
        let i = choose|i: int|
            0 <= i < m.planets.len() && keyf(#[trigger] m.planets[i]) && find_planet_row(
                m.planets,
                g,
                s,
                pos,
                kind,
            ) == Some(m.planets[i]) && (forall|j: int| 0 <= j < i ==> !keyf(#[trigger] m.planets[j]));
        lemma_update_first_found(m.planets, keyf, mergef, i);
        assert(mergef(m.planets[i]) =~= m.planets[i]);
        assert(m.planets.update(i, m.planets[i]) =~= m.planets);
        assert(mark_planet_deleted_spec(m, g, s, pos, kind, now) =~= m);
    } else {
        lemma_update_first_none(m.planets, keyf, mergef);
        assert(mark_planet_deleted_spec(m, g, s, pos, kind, now) =~= m);
    }
}

/// Upserting over a row the same upsert already produced changes
/// nothing.
pub proof fn lemma_upsert_planet_noop(
    m: StoreModel,
    owner: i64,
    g: i64,
    s: i64,
    pos: i64,
    kind: PlanetType,
    name: Option<Seq<char>>,
    pid: Option<i64>,
    now: i64,
)
    requires
        (match find_planet_row(m.planets, g, s, pos, kind) {
            Some(row) => row.player_id == owner && row.name == name && row.updated_at == now && (
            match pid {
                Some(x) => row.planet_id == Some(x),
                None => true,
            }),
            None => false,
        }),
    ensures
        upsert_planet_spec(m, owner, g, s, pos, kind, name, pid, now) == m,
{
    let keyf = planet_key(g, s, pos, kind);
    let mergef = scan_planet_merge(owner, name, pid, now);
    lemma_find_some_index(m.planets, g, s, pos, kind);
    let i = choose|i: int|
        0 <= i < m.planets.len() && keyf(#[trigger] m.planets[i]) && find_planet_row(
            m.planets,
            g,
            s,
            pos,
            kind,
        ) == Some(m.planets[i]) && (forall|j: int| 0 <= j < i ==> !keyf(#[trigger] m.planets[j]));
    assert(m.has_planet(g, s, pos, kind));
    lemma_update_first_found(m.planets, keyf, mergef, i);
    assert(mergef(m.planets[i]) =~= m.planets[i]);
    assert(m.planets.update(i, m.planets[i]) =~= m.planets);
    assert(upsert_planet_spec(m, owner, g, s, pos, kind, name, pid, now) =~= m);
}

/// Ensuring a player already present changes nothing at all.
pub proof fn lemma_ensure_player_present_noop(m: StoreModel, id: i64, name: Seq<char>, now: i64)
    requires
        m.has_player(id),
    ensures
        ensure_player_spec(m, id, name, now) == m,
{
    let keyf = crate::store::player_key(id);
    let idf = |p: PlayerModel| p;
    let fresh = PlayerModel::minimal(id, name, now);
    crate::rowseq::lemma_find_first_index(m.players, keyf);
    let i = choose|i: int|
        0 <= i < m.players.len() && keyf(#[trigger] m.players[i]) && crate::rowseq::find_first(
            m.players,
            keyf,
        ) == Some(m.players[i]) && (forall|j: int| 0 <= j < i ==> !keyf(#[trigger] m.players[j]));
    lemma_upsert_found(m.players, keyf, idf, fresh, i);
    assert(m.players.update(i, m.players[i]) =~= m.players);
    assert(ensure_player_spec(m, id, name, now) =~= m);
}

/// Ensuring a player absent appends the minimal row; everything else is
/// untouched and other players are found as before.
pub proof fn lemma_ensure_player_absent(m: StoreModel, id: i64, name: Seq<char>, now: i64)
    requires
        !m.has_player(id),
    ensures
        ensure_player_spec(m, id, name, now).players == m.players.push(
            PlayerModel::minimal(id, name, now),
        ),
        ensure_player_spec(m, id, name, now).has_player(id),
        forall|id2: i64|
            id2 != id ==> crate::rowseq::find_first(
                ensure_player_spec(m, id, name, now).players,
                crate::store::player_key(id2),
            ) == crate::rowseq::find_first(m.players, #[trigger] crate::store::player_key(id2)),
{
    let keyf = crate::store::player_key(id);
    let idf = |p: PlayerModel| p;
    let fresh = PlayerModel::minimal(id, name, now);
    lemma_upsert_none(m.players, keyf, idf, fresh);
    let r = ensure_player_spec(m, id, name, now);
    assert(r.players[m.players.len() as int].id == id);
    assert forall|id2: i64|
        id2 != id implies crate::rowseq::find_first(r.players, crate::store::player_key(id2))
        == crate::rowseq::find_first(m.players, #[trigger] crate::store::player_key(id2)) by {
        crate::rowseq::lemma_find_first_push_other(m.players, fresh, crate::store::player_key(id2));
    }
}

/// What ensuring an alliance leaves found at its id, and at others.
pub proof fn lemma_ensure_alliance_find(m: StoreModel, id: i64, tag: Seq<char>, now: i64)
    ensures
        ({
            let r = ensure_alliance_spec(m, id, tag, now);
            &&& (match crate::rowseq::find_first(r.alliances, crate::store::alliance_key(id)) {
                Some(row) => row.id == id && row.tag == tag && row.updated_at == now,
                None => false,
            })
            &&& r.has_alliance(id)
            &&& forall|id2: i64|
                id2 != id ==> crate::rowseq::find_first(
                    r.alliances,
                    crate::store::alliance_key(id2),
                ) == crate::rowseq::find_first(m.alliances, #[trigger] crate::store::alliance_key(id2))
            &&& r.players == m.players
            &&& r.planets == m.planets
            &&& forall|id2: i64| m.has_alliance(id2) ==> r.has_alliance(id2)
        }),
{
    let keyf = crate::store::alliance_key(id);
    let mergef = crate::store::alliance_merge(tag, now);
    let fresh = crate::store::alliance_fresh(id, tag, now);
    let r = ensure_alliance_spec(m, id, tag, now);
    if exists|i: int| 0 <= i < m.alliances.len() && keyf(#[trigger] m.alliances[i]) {
        crate::rowseq::lemma_find_first_index(m.alliances, keyf);
        let i = choose|i: int|
            0 <= i < m.alliances.len() && keyf(#[trigger] m.alliances[i])
                && crate::rowseq::find_first(m.alliances, keyf) == Some(m.alliances[i]) && (forall|
                j: int| 0 <= j < i ==> !keyf(#[trigger] m.alliances[j]));
        lemma_upsert_found(m.alliances, keyf, mergef, fresh, i);
        assert(r.alliances == m.alliances.update(i, mergef(m.alliances[i])));
        crate::rowseq::lemma_find_first_at(r.alliances, keyf, i);
        assert(r.alliances[i].id == id);
        assert forall|id2: i64|
            id2 != id implies crate::rowseq::find_first(
            r.alliances,
            crate::store::alliance_key(id2),
        ) == crate::rowseq::find_first(m.alliances, #[trigger] crate::store::alliance_key(id2)) by {
            let keyf2 = crate::store::alliance_key(id2);
            assert forall|j: int|
                0 <= j < m.alliances.len() implies keyf2(#[trigger] r.alliances[j]) == keyf2(
                m.alliances[j],
            ) && (keyf2(m.alliances[j]) ==> r.alliances[j] == m.alliances[j]) by {
                if j == i {
                    assert(r.alliances[i].id == m.alliances[i].id);
                    if keyf2(m.alliances[j]) {
                        assert(m.alliances[i].id == id);
                        assert(false);
                    }
                }
            }
            crate::rowseq::lemma_find_first_frame(m.alliances, r.alliances, keyf2);
        }
        assert forall|id2: i64| m.has_alliance(id2) implies r.has_alliance(id2) by {
            let w = choose|w: int| 0 <= w < m.alliances.len() && m.alliances[w].id == id2;
            assert(r.alliances[w].id == id2);
        }
    } else {
        lemma_upsert_none(m.alliances, keyf, mergef, fresh);
        assert(r.alliances == m.alliances.push(fresh));
        assert(forall|j: int| 0 <= j < m.alliances.len() ==> !keyf(#[trigger] m.alliances[j]));
        assert(forall|j: int| 0 <= j < m.alliances.len() ==> r.alliances[j] == #[trigger] m.alliances[j]);
        crate::rowseq::lemma_find_first_at(r.alliances, keyf, m.alliances.len() as int);
        assert(r.alliances[m.alliances.len() as int].id == id);
        assert forall|id2: i64|
            id2 != id implies crate::rowseq::find_first(
            r.alliances,
            crate::store::alliance_key(id2),
        ) == crate::rowseq::find_first(m.alliances, #[trigger] crate::store::alliance_key(id2)) by {
            crate::rowseq::lemma_find_first_push_other(
                m.alliances,
                fresh,
                crate::store::alliance_key(id2),
            );
        }
        assert forall|id2: i64| m.has_alliance(id2) implies r.has_alliance(id2) by {
            let w = choose|w: int| 0 <= w < m.alliances.len() && m.alliances[w].id == id2;
            assert(r.alliances[w].id == id2);
        }
    }
}

/// Ensuring an alliance whose first row already carries the tag and the
/// stamp changes nothing.
pub proof fn lemma_ensure_alliance_noop(m: StoreModel, id: i64, tag: Seq<char>, now: i64)
    requires
        (match crate::rowseq::find_first(m.alliances, crate::store::alliance_key(id)) {
            Some(row) => row.tag == tag && row.updated_at == now,
            None => false,
        }),
    ensures
        ensure_alliance_spec(m, id, tag, now) == m,
{
    let keyf = crate::store::alliance_key(id);
    let mergef = crate::store::alliance_merge(tag, now);
    let fresh = crate::store::alliance_fresh(id, tag, now);
    assert(exists|i: int| 0 <= i < m.alliances.len() && keyf(#[trigger] m.alliances[i])) by {
        if forall|i: int| 0 <= i < m.alliances.len() ==> !keyf(#[trigger] m.alliances[i]) {
            crate::rowseq::lemma_find_first_none(m.alliances, keyf);
        }
    }
    crate::rowseq::lemma_find_first_index(m.alliances, keyf);
    let i = choose|i: int|
        0 <= i < m.alliances.len() && keyf(#[trigger] m.alliances[i]) && crate::rowseq::find_first(
            m.alliances,
            keyf,
        ) == Some(m.alliances[i]) && (forall|j: int| 0 <= j < i ==> !keyf(#[trigger] m.alliances[j]));
    lemma_upsert_found(m.alliances, keyf, mergef, fresh, i);
    assert(mergef(m.alliances[i]) =~= m.alliances[i]);
    assert(m.alliances.update(i, m.alliances[i]) =~= m.alliances);
    assert(ensure_alliance_spec(m, id, tag, now) =~= m);
}

/// What linking leaves found at the player, and at others.
pub proof fn lemma_link_find(m: StoreModel, pid: i64, aid: i64, now: i64)
    requires
        m.has_alliance(aid),
    ensures
        ({
            let r = link_player_alliance_spec(m, pid, aid, now);
            &&& (match (crate::rowseq::find_first(r.players, crate::store::player_key(pid)),
            crate::rowseq::find_first(m.players, crate::store::player_key(pid))) {
                (Some(a), Some(b)) => a == (PlayerModel {
                    alliance_id: Some(aid),
                    updated_at: now,
                    ..b
                }),
                (None, None) => true,
                _ => false,
            })
            &&& forall|id2: i64|
                id2 != pid ==> crate::rowseq::find_first(r.players, crate::store::player_key(id2))
                    == crate::rowseq::find_first(m.players, #[trigger] crate::store::player_key(id2))
            &&& r.alliances == m.alliances
            &&& r.planets == m.planets
            &&& forall|id2: i64| m.has_player(id2) ==> r.has_player(id2)
        }),
{
    let keyf = crate::store::player_key(pid);
    let mergef = crate::store::link_merge(aid, now);
    let r = link_player_alliance_spec(m, pid, aid, now);
    if exists|i: int| 0 <= i < m.players.len() && keyf(#[trigger] m.players[i]) {
        crate::rowseq::lemma_find_first_index(m.players, keyf);
        let i = choose|i: int|
            0 <= i < m.players.len() && keyf(#[trigger] m.players[i]) && crate::rowseq::find_first(
                m.players,
                keyf,
            ) == Some(m.players[i]) && (forall|j: int| 0 <= j < i ==> !keyf(#[trigger] m.players[j]));
        lemma_update_first_found(m.players, keyf, mergef, i);
        assert(r.players == m.players.update(i, mergef(m.players[i])));
        crate::rowseq::lemma_find_first_at(r.players, keyf, i);
        assert(mergef(m.players[i]) =~= (PlayerModel {
            alliance_id: Some(aid),
            updated_at: now,
            ..m.players[i]
        }));
        assert forall|id2: i64|
            id2 != pid implies crate::rowseq::find_first(r.players, crate::store::player_key(id2))
            == crate::rowseq::find_first(m.players, #[trigger] crate::store::player_key(id2)) by {
            let keyf2 = crate::store::player_key(id2);
            assert forall|j: int|
                0 <= j < m.players.len() implies keyf2(#[trigger] r.players[j]) == keyf2(
                m.players[j],
            ) && (keyf2(m.players[j]) ==> r.players[j] == m.players[j]) by {
                if j == i {
                    assert(r.players[i].id == m.players[i].id);
                    if keyf2(m.players[j]) {
                        assert(false);
                    }
                }
            }
            crate::rowseq::lemma_find_first_frame(m.players, r.players, keyf2);
        }
        assert forall|id2: i64| m.has_player(id2) implies r.has_player(id2) by {
            let w = choose|w: int| 0 <= w < m.players.len() && m.players[w].id == id2;
            assert(r.players[w].id == id2);
        }
    } else {
        lemma_update_first_none(m.players, keyf, mergef);
        assert(r.players =~= m.players);
        crate::rowseq::lemma_find_first_none(m.players, keyf);
        crate::rowseq::lemma_find_first_none(r.players, keyf);
        assert(r =~= (StoreModel { players: update_first(m.players, keyf, mergef), ..m }));
    }
}

/// Linking what is already linked with this stamp changes nothing.
pub proof fn lemma_link_noop(m: StoreModel, pid: i64, aid: i64, now: i64)
    requires
        m.has_alliance(aid) ==> (match crate::rowseq::find_first(
            m.players,
            crate::store::player_key(pid),
        ) {
            Some(row) => row.alliance_id == Some(aid) && row.updated_at == now,
            None => true,
        }),
    ensures
        link_player_alliance_spec(m, pid, aid, now) == m,
{
    let keyf = crate::store::player_key(pid);
    let mergef = crate::store::link_merge(aid, now);
    if m.has_alliance(aid) {
        if exists|i: int| 0 <= i < m.players.len() && keyf(#[trigger] m.players[i]) {
            crate::rowseq::lemma_find_first_index(m.players, keyf);
            let i = choose|i: int|
                0 <= i < m.players.len() && keyf(#[trigger] m.players[i])
                    && crate::rowseq::find_first(m.players, keyf) == Some(m.players[i]) && (forall|
                    j: int| 0 <= j < i ==> !keyf(#[trigger] m.players[j]));
            lemma_update_first_found(m.players, keyf, mergef, i);
            assert(mergef(m.players[i]) =~= m.players[i]);
            assert(m.players.update(i, m.players[i]) =~= m.players);
            assert(link_player_alliance_spec(m, pid, aid, now) =~= m);
        } else {
            lemma_update_first_none(m.players, keyf, mergef);
            assert(link_player_alliance_spec(m, pid, aid, now) =~= m);
        }
    }
}


/// The tables the scan never touches.
pub open spec fn same_aux(r: StoreModel, m: StoreModel) -> bool {
    &&& r.score_history == m.score_history
    &&& r.spy_reports == m.spy_reports
    &&& r.battle_reports == m.battle_reports
    &&& r.expedition_reports == m.expedition_reports
    &&& r.recycle_reports == m.recycle_reports
    &&& r.hostile_spying == m.hostile_spying
    &&& r.next_report_id == m.next_report_id
    &&& r.users == m.users
    &&& r.next_user_id == m.next_user_id
    &&& r.messages == m.messages
    &&& r.config == m.config
    &&& r.stat_views == m.stat_views
}

/// What the destroyed fold leaves found: destroyed keys flagged deleted
/// and stamped, everything else exactly as before.
pub proof fn lemma_destroyed_char(m: StoreModel, g: i64, s: i64, l: Seq<DestroyedEntry>, now: i64)
    ensures
        ({
            let r = apply_destroyed_spec(m, g, s, l, now);
            &&& forall|g2: i64, s2: i64, p2: i64, k2: PlanetType|
                ((exists|j: int|
                    0 <= j < l.len() && g2 == g && s2 == s && (#[trigger] l[j]).position == p2
                        && l[j].kind == k2) ==> (match (
                    #[trigger] find_planet_row(r.planets, g2, s2, p2, k2),
                    find_planet_row(m.planets, g2, s2, p2, k2),
                ) {
                    (Some(a), Some(b)) => a == (PlanetModel {
                        status: crate::models::Status::Deleted,
                        updated_at: now,
                        ..b
                    }),
                    (None, None) => true,
                    _ => false,
                })) && (!(exists|j: int|
                    0 <= j < l.len() && g2 == g && s2 == s && (#[trigger] l[j]).position == p2
                        && l[j].kind == k2) ==> #[trigger] find_planet_row(r.planets, g2, s2, p2, k2)
                    == find_planet_row(m.planets, g2, s2, p2, k2))
            &&& r.players == m.players
            &&& r.alliances == m.alliances
            &&& r.next_planet_id == m.next_planet_id
            &&& same_aux(r, m)
        }),
    decreases l.len(),
{
    if l.len() == 0 {
    } else {
        let d0 = l[0];
        let m0 = mark_planet_deleted_spec(m, g, s, d0.position, d0.kind, now);
        lemma_mark_deleted_find(m, g, s, d0.position, d0.kind, now);
        lemma_destroyed_char(m0, g, s, l.skip(1), now);
        let r = apply_destroyed_spec(m, g, s, l, now);
        assert(r == apply_destroyed_spec(m0, g, s, l.skip(1), now));
        assert(forall|j: int| 0 <= j < l.skip(1).len() ==> #[trigger] l.skip(1)[j] == l[j + 1]);
        assert forall|g2: i64, s2: i64, p2: i64, k2: PlanetType|
            !(exists|j: int|
                0 <= j < l.len() && g2 == g && s2 == s && (#[trigger] l[j]).position == p2
                    && l[j].kind == k2) implies #[trigger] find_planet_row(r.planets, g2, s2, p2, k2)
            == find_planet_row(m.planets, g2, s2, p2, k2) by {
            assert(!(g2 == g && s2 == s && d0.position == p2 && d0.kind == k2)) by {
                if g2 == g && s2 == s && d0.position == p2 && d0.kind == k2 {
                    assert(0 <= 0 < l.len() && l[0].position == p2 && l[0].kind == k2);
                }
            }
            assert(!(exists|j: int|
                0 <= j < l.skip(1).len() && g2 == g && s2 == s && (#[trigger] l.skip(1)[j]).position
                    == p2 && l.skip(1)[j].kind == k2)) by {
                if exists|j: int|
                    0 <= j < l.skip(1).len() && g2 == g && s2 == s && (
                    #[trigger] l.skip(1)[j]).position == p2 && l.skip(1)[j].kind == k2 {
                    let j = choose|j: int|
                        0 <= j < l.skip(1).len() && g2 == g && s2 == s && (
                        #[trigger] l.skip(1)[j]).position == p2 && l.skip(1)[j].kind == k2;
                    assert(l[j + 1].position == p2 && l[j + 1].kind == k2);
                }
            }
        }
        assert forall|g2: i64, s2: i64, p2: i64, k2: PlanetType|
            (exists|j: int|
                0 <= j < l.len() && g2 == g && s2 == s && (#[trigger] l[j]).position == p2
                    && l[j].kind == k2) implies (match (
            #[trigger] find_planet_row(r.planets, g2, s2, p2, k2),
            find_planet_row(m.planets, g2, s2, p2, k2),
        ) {
            (Some(a), Some(b)) => a == (PlanetModel {
                status: crate::models::Status::Deleted,
                updated_at: now,
                ..b
            }),
            (None, None) => true,
            _ => false,
        }) by {
            let covered_tail = exists|j: int|
                0 <= j < l.skip(1).len() && g2 == g && s2 == s && (
                #[trigger] l.skip(1)[j]).position == p2 && l.skip(1)[j].kind == k2;
            if covered_tail {
                // The tail covers the key: its characterization relative
                // to the state after the head settles it.
                if g2 == g && s2 == s && d0.position == p2 && d0.kind == k2 {
                    assert(match (find_planet_row(r.planets, g2, s2, p2, k2), find_planet_row(
                        m0.planets,
                        g2,
                        s2,
                        p2,
                        k2,
                    )) {
                        (Some(a), Some(b)) => a == (PlanetModel {
                            status: crate::models::Status::Deleted,
                            updated_at: now,
                            ..b
                        }),
                        (None, None) => true,
                        _ => false,
                    });
                } else {
                    assert(find_planet_row(m0.planets, g2, s2, p2, k2) == find_planet_row(
                        m.planets,
                        g2,
                        s2,
                        p2,
                        k2,
                    ));
                }
            } else {
                // Only the head covers the key.
                let j = choose|j: int|
                    0 <= j < l.len() && g2 == g && s2 == s && (#[trigger] l[j]).position == p2
                        && l[j].kind == k2;
                assert(j == 0) by {
                    if j > 0 {
                        assert(l.skip(1)[j - 1] == l[j]);
                    }
                }
                assert(find_planet_row(r.planets, g2, s2, p2, k2) == find_planet_row(
                    m0.planets,
                    g2,
                    s2,
                    p2,
                    k2,
                ));
            }
        }
    }
}

/// When every destroyed marking fixes a state, the whole fold does.
proof fn lemma_destroyed_fold_fixed(t: StoreModel, g: i64, s: i64, l: Seq<DestroyedEntry>, now: i64)
    requires
        forall|j: int|
            0 <= j < l.len() ==> mark_planet_deleted_spec(
                t,
                g,
                s,
                (#[trigger] l[j]).position,
                l[j].kind,
                now,
            ) == t,
    ensures
        apply_destroyed_spec(t, g, s, l, now) == t,
    decreases l.len(),
{
    if l.len() > 0 {
        assert(mark_planet_deleted_spec(t, g, s, l[0].position, l[0].kind, now) == t);
        assert(forall|j: int| 0 <= j < l.skip(1).len() ==> #[trigger] l.skip(1)[j] == l[j + 1]);
        lemma_destroyed_fold_fixed(t, g, s, l.skip(1), now);
    }
}


/// The facts one applied entry leaves behind, which make re-applying it
/// a no-op.
pub open spec fn entry_stable(r: StoreModel, g: i64, s: i64, e: ScanPlanetModel, now: i64) -> bool {
    entry_has_owner(e) ==> {
        let pid = e.player_id->0;
        &&& r.has_player(pid)
        &&& (match find_planet_row(r.planets, g, s, e.position, PlanetType::Planet) {
            Some(row) => row.player_id == pid && row.name == e.planet_name && row.updated_at == now
                && (match e.planet_id {
                Some(x) => row.planet_id == Some(x),
                None => true,
            }),
            None => false,
        })
        &&& (entry_moon(e) ==> (match find_planet_row(r.planets, g, s, e.position, PlanetType::Moon) {
            Some(row) => row.player_id == pid && row.name == e.moon_name && row.updated_at == now
                && (match e.moon_id {
                Some(x) => row.planet_id == Some(x),
                None => true,
            }),
            None => false,
        }))
        &&& ((e.alliance_id is Some && e.alliance_tag is Some) ==> {
            &&& r.has_alliance(e.alliance_id->0)
            &&& (match crate::rowseq::find_first(
                r.alliances,
                crate::store::alliance_key(e.alliance_id->0),
            ) {
                Some(a) => a.tag == e.alliance_tag->0 && a.updated_at == now,
                None => false,
            })
            &&& (match crate::rowseq::find_first(r.players, crate::store::player_key(pid)) {
                Some(p) => p.alliance_id == Some(e.alliance_id->0) && p.updated_at == now,
                None => false,
            })
        })
    }
}

/// Applying one entry establishes its facts and touches nothing else:
/// bodies at other positions, other players and other alliances are
/// found as before.
pub proof fn lemma_apply_entry_char(m: StoreModel, g: i64, s: i64, e: ScanPlanetModel, now: i64)
    ensures
        ({
            let r = apply_entry_spec(m, g, s, e, now);
            &&& entry_stable(r, g, s, e, now)
            &&& forall|g2: i64, s2: i64, p2: i64, k2: PlanetType|
                !(g2 == g && s2 == s && p2 == e.position)
                    ==> #[trigger] find_planet_row(r.planets, g2, s2, p2, k2) == find_planet_row(
                    m.planets,
                    g2,
                    s2,
                    p2,
                    k2,
                )
            &&& forall|id: i64|
                !(entry_has_owner(e) && e.player_id->0 == id) ==> crate::rowseq::find_first(
                    r.players,
                    #[trigger] crate::store::player_key(id),
                ) == crate::rowseq::find_first(m.players, crate::store::player_key(id))
            &&& forall|id: i64|
                !(entry_has_owner(e) && e.alliance_id == Some(id) && e.alliance_tag is Some)
                    ==> crate::rowseq::find_first(
                    r.alliances,
                    #[trigger] crate::store::alliance_key(id),
                ) == crate::rowseq::find_first(m.alliances, crate::store::alliance_key(id))
            &&& forall|id: i64| m.has_player(id) ==> r.has_player(id)
            &&& forall|id: i64| m.has_alliance(id) ==> r.has_alliance(id)
            &&& r.next_report_id == m.next_report_id
            &&& same_aux(r, m)
        }),
{
    let r = apply_entry_spec(m, g, s, e, now);
    if !entry_has_owner(e) {
    } else {
        let pid = e.player_id->0;
        let m1 = ensure_player_spec(m, pid, entry_name(e), now);
        if m.has_player(pid) {
            lemma_ensure_player_present_noop(m, pid, entry_name(e), now);
        } else {
            lemma_ensure_player_absent(m, pid, entry_name(e), now);
        }
        assert(m1.planets == m.planets && m1.alliances == m.alliances);
        assert(m1.has_player(pid)) by {
            if m.has_player(pid) {
                let w = choose|w: int| 0 <= w < m.players.len() && m.players[w].id == pid;
                assert(m1.players[w].id == pid);
            }
        }
        assert forall|id: i64| m.has_player(id) implies m1.has_player(id) by {
            let w = choose|w: int| 0 <= w < m.players.len() && m.players[w].id == id;
            assert(m1.players[w].id == id);
        }
        let with_ally = e.alliance_id is Some && e.alliance_tag is Some;
        let m2 = if with_ally {
            link_player_alliance_spec(
                ensure_alliance_spec(m1, e.alliance_id->0, e.alliance_tag->0, now),
                pid,
                e.alliance_id->0,
                now,
            )
        } else {
            m1
        };
        if with_ally {
            let aid = e.alliance_id->0;
            let ma = ensure_alliance_spec(m1, aid, e.alliance_tag->0, now);
            lemma_ensure_alliance_find(m1, aid, e.alliance_tag->0, now);
            lemma_link_find(ma, pid, aid, now);
            assert(m2.alliances == ma.alliances);
            assert(m2.planets == m.planets);
            assert(m2.has_player(pid)) by {
                let w = choose|w: int| 0 <= w < ma.players.len() && ma.players[w].id == pid;
                assert(m1.players == ma.players);
                assert(ma.has_player(pid));
            }
            // The first player row carries the link and the stamp.
            assert(match crate::rowseq::find_first(m2.players, crate::store::player_key(pid)) {
                Some(p) => p.alliance_id == Some(aid) && p.updated_at == now,
                None => false,
            }) by {
                assert(ma.has_player(pid));
                crate::rowseq::lemma_find_first_index(m2.players, crate::store::player_key(pid));
                if crate::rowseq::find_first(ma.players, crate::store::player_key(pid)) is None {
                    let w = choose|w: int| 0 <= w < ma.players.len() && ma.players[w].id == pid;
                    crate::rowseq::lemma_find_first_index(
                        ma.players,
                        crate::store::player_key(pid),
                    );
                }
            }
        }
        let m3 = upsert_planet_spec(
            m2,
            pid,
            g,
            s,
            e.position,
            PlanetType::Planet,
            e.planet_name,
            e.planet_id,
            now,
        );
        lemma_upsert_planet_find(m2, pid, g, s, e.position, PlanetType::Planet, e.planet_name, e.planet_id, now);
        if entry_moon(e) {
            lemma_upsert_planet_find(
                m3,
                pid,
                g,
                s,
                e.position,
                PlanetType::Moon,
                e.moon_name,
                e.moon_id,
                now,
            );
            assert(r == upsert_planet_spec(
                m3,
                pid,
                g,
                s,
                e.position,
                PlanetType::Moon,
                e.moon_name,
                e.moon_id,
                now,
            ));
            assert(find_planet_row(r.planets, g, s, e.position, PlanetType::Planet)
                == find_planet_row(m3.planets, g, s, e.position, PlanetType::Planet));
        } else {
            assert(r == m3);
        }
        // Player presence carries through the planet upserts untouched.
        assert(r.players == m2.players && r.alliances == m2.alliances);
        assert(r.has_player(pid)) by {
            let w = choose|w: int| 0 <= w < m2.players.len() && m2.players[w].id == pid;
            assert(r.players[w].id == pid);
        }
        assert forall|id: i64| m.has_player(id) implies r.has_player(id) by {
            assert(m2.players == (if with_ally {
                link_player_alliance_spec(
                    ensure_alliance_spec(m1, e.alliance_id->0, e.alliance_tag->0, now),
                    pid,
                    e.alliance_id->0,
                    now,
                ).players
            } else {
                m1.players
            }));
            if with_ally {
                let ma = ensure_alliance_spec(m1, e.alliance_id->0, e.alliance_tag->0, now);
                assert(ma.players == m1.players);
                assert(m1.has_player(id));
                lemma_link_find(ma, pid, e.alliance_id->0, now);
                assert(ma.has_player(id));
            } else {
                assert(m1.has_player(id));
            }
            let w = choose|w: int| 0 <= w < m2.players.len() && m2.players[w].id == id;
            assert(r.players[w].id == id);
        }
        assert forall|id: i64| m.has_alliance(id) implies r.has_alliance(id) by {
            if with_ally {
                let ma = ensure_alliance_spec(m1, e.alliance_id->0, e.alliance_tag->0, now);
                assert(m1.alliances == m.alliances);
                assert(m1.has_alliance(id)) by {
                    let w = choose|w: int| 0 <= w < m.alliances.len() && m.alliances[w].id == id;
                    assert(m1.alliances[w].id == id);
                }
                lemma_ensure_alliance_find(m1, e.alliance_id->0, e.alliance_tag->0, now);
                assert(ma.has_alliance(id));
                let w = choose|w: int| 0 <= w < ma.alliances.len() && ma.alliances[w].id == id;
                assert(r.alliances[w].id == id);
            } else {
                let w = choose|w: int| 0 <= w < m.alliances.len() && m.alliances[w].id == id;
                assert(r.alliances[w].id == id);
            }
        }
        if with_ally {
            let aid = e.alliance_id->0;
            assert(r.has_alliance(aid)) by {
                let ma = ensure_alliance_spec(m1, aid, e.alliance_tag->0, now);
                lemma_ensure_alliance_find(m1, aid, e.alliance_tag->0, now);
                let w = choose|w: int| 0 <= w < ma.alliances.len() && ma.alliances[w].id == aid;
                assert(r.alliances[w].id == aid);
            }
        }
    }
}


/// What the entries fold leaves found: every entry's facts hold, and
/// bodies at other positions, other players and other alliances are
/// found as before.
pub proof fn lemma_entries_char(m: StoreModel, g: i64, s: i64, l: Seq<ScanPlanetModel>, now: i64)
    requires
        forall|i: int, j: int| 0 <= i < j < l.len() ==> l[i].position != l[j].position,
        forall|i: int, j: int|
            0 <= i < l.len() && 0 <= j < l.len() && entry_has_owner(l[i]) && entry_has_owner(l[j])
                && (#[trigger] l[i].player_id) == (#[trigger] l[j].player_id) ==> l[i].alliance_id
                == l[j].alliance_id && l[i].alliance_tag == l[j].alliance_tag,
        forall|i: int, j: int|
            0 <= i < l.len() && 0 <= j < l.len() && entry_has_owner(l[i]) && entry_has_owner(l[j])
                && (#[trigger] l[i].alliance_id) == (#[trigger] l[j].alliance_id)
                ==> l[i].alliance_tag == l[j].alliance_tag,
    ensures
        ({
            let r = apply_entries_spec(m, g, s, l, now);
            &&& forall|i: int| 0 <= i < l.len() ==> entry_stable(r, g, s, #[trigger] l[i], now)
            &&& forall|g2: i64, s2: i64, p2: i64, k2: PlanetType|
                !(exists|i: int| 0 <= i < l.len() && g2 == g && s2 == s && (#[trigger] l[i]).position == p2)
                    ==> #[trigger] find_planet_row(r.planets, g2, s2, p2, k2) == find_planet_row(
                    m.planets,
                    g2,
                    s2,
                    p2,
                    k2,
                )
            &&& forall|id: i64|
                !(exists|i: int|
                    0 <= i < l.len() && entry_has_owner(#[trigger] l[i]) && l[i].player_id->0 == id)
                    ==> crate::rowseq::find_first(r.players, #[trigger] crate::store::player_key(id))
                    == crate::rowseq::find_first(m.players, crate::store::player_key(id))
            &&& forall|id: i64|
                !(exists|i: int|
                    0 <= i < l.len() && entry_has_owner(#[trigger] l[i]) && l[i].alliance_id == Some(
                        id,
                    ) && l[i].alliance_tag is Some) ==> crate::rowseq::find_first(
                    r.alliances,
                    #[trigger] crate::store::alliance_key(id),
                ) == crate::rowseq::find_first(m.alliances, crate::store::alliance_key(id))
            &&& forall|id: i64| m.has_player(id) ==> r.has_player(id)
            &&& forall|id: i64| m.has_alliance(id) ==> r.has_alliance(id)
            &&& r.next_report_id == m.next_report_id
            &&& same_aux(r, m)
        }),
    decreases l.len(),
{
    if l.len() == 0 {
    } else {
        let e0 = l[0];
        let m0 = apply_entry_spec(m, g, s, e0, now);
        lemma_apply_entry_char(m, g, s, e0, now);
        let tail = l.skip(1);
        assert(forall|j: int| 0 <= j < tail.len() ==> #[trigger] tail[j] == l[j + 1]);
        lemma_entries_char(m0, g, s, tail, now);
        let r = apply_entries_spec(m, g, s, l, now);
        assert(r == apply_entries_spec(m0, g, s, tail, now));

        // The head entry's facts survive the tail: its position, player
        // and alliance are either untouched by the tail or rewritten to
        // the same values.
        assert(entry_stable(r, g, s, e0, now)) by {
            if entry_has_owner(e0) {
                let pid = e0.player_id->0;
                assert(m0.has_player(pid));
                assert(r.has_player(pid));
                assert(!(exists|i: int|
                    0 <= i < tail.len() && g == g && s == s && (#[trigger] tail[i]).position
                        == e0.position)) by {
                    if exists|i: int|
                        0 <= i < tail.len() && g == g && s == s && (#[trigger] tail[i]).position
                            == e0.position {
                        let i = choose|i: int|
                            0 <= i < tail.len() && (#[trigger] tail[i]).position == e0.position;
                        assert(l[i + 1].position == l[0].position);
                    }
                }
                assert(find_planet_row(r.planets, g, s, e0.position, PlanetType::Planet)
                    == find_planet_row(m0.planets, g, s, e0.position, PlanetType::Planet));
                assert(find_planet_row(r.planets, g, s, e0.position, PlanetType::Moon)
                    == find_planet_row(m0.planets, g, s, e0.position, PlanetType::Moon));
                if e0.alliance_id is Some && e0.alliance_tag is Some {
                    let aid = e0.alliance_id->0;
                    assert(m0.has_alliance(aid));
                    assert(r.has_alliance(aid));
                    // The alliance row: either no tail entry names it, or
                    // one does with the same tag by consistency.
                    if exists|i: int|
                        0 <= i < tail.len() && entry_has_owner(#[trigger] tail[i])
                            && tail[i].alliance_id == Some(aid) && tail[i].alliance_tag is Some {
                        let i = choose|i: int|
                            0 <= i < tail.len() && entry_has_owner(#[trigger] tail[i])
                                && tail[i].alliance_id == Some(aid) && tail[i].alliance_tag is Some;
                        assert(entry_stable(r, g, s, tail[i], now));
                        assert(l[i + 1].alliance_id == Some(aid));
                    } else {
                        assert(crate::rowseq::find_first(
                            r.alliances,
                            crate::store::alliance_key(aid),
                        ) == crate::rowseq::find_first(
                            m0.alliances,
                            crate::store::alliance_key(aid),
                        ));
                    }
                    // The player row: either no tail entry names the
                    // player, or one does carrying the same alliance.
                    if exists|i: int|
                        0 <= i < tail.len() && entry_has_owner(#[trigger] tail[i])
                            && tail[i].player_id->0 == pid {
                        let i = choose|i: int|
                            0 <= i < tail.len() && entry_has_owner(#[trigger] tail[i])
                                && tail[i].player_id->0 == pid;
                        assert(l[i + 1].player_id == l[0].player_id);
                        assert(l[i + 1].alliance_id == l[0].alliance_id && l[i + 1].alliance_tag
                            == l[0].alliance_tag);
                        assert(entry_stable(r, g, s, tail[i], now));
                    } else {
                        assert(crate::rowseq::find_first(
                            r.players,
                            crate::store::player_key(pid),
                        ) == crate::rowseq::find_first(m0.players, crate::store::player_key(pid)));
                    }
                }
            }
        }

        // Tail entries' facts are the tail characterization itself.
        assert forall|i: int| 0 <= i < l.len() implies entry_stable(r, g, s, #[trigger] l[i], now) by {
            if i > 0 {
                assert(tail[i - 1] == l[i]);
                assert(entry_stable(r, g, s, tail[i - 1], now));
            }
        }

        // Frames compose.
        assert forall|g2: i64, s2: i64, p2: i64, k2: PlanetType|
            !(exists|i: int| 0 <= i < l.len() && g2 == g && s2 == s && (#[trigger] l[i]).position == p2)
                implies #[trigger] find_planet_row(r.planets, g2, s2, p2, k2) == find_planet_row(
                m.planets,
                g2,
                s2,
                p2,
                k2,
            ) by {
            assert(!(g2 == g && s2 == s && e0.position == p2)) by {
                if g2 == g && s2 == s && e0.position == p2 {
                    assert(0 <= 0 < l.len() && l[0].position == p2);
                }
            }
            assert(!(exists|i: int|
                0 <= i < tail.len() && g2 == g && s2 == s && (#[trigger] tail[i]).position == p2)) by {
                if exists|i: int|
                    0 <= i < tail.len() && g2 == g && s2 == s && (#[trigger] tail[i]).position
                        == p2 {
                    let i = choose|i: int|
                        0 <= i < tail.len() && g2 == g && s2 == s && (#[trigger] tail[i]).position
                            == p2;
                    assert(l[i + 1].position == p2);
                }
            }
        }
        assert forall|id: i64|
            !(exists|i: int|
                0 <= i < l.len() && entry_has_owner(#[trigger] l[i]) && l[i].player_id->0 == id)
                implies crate::rowseq::find_first(r.players, #[trigger] crate::store::player_key(id))
                == crate::rowseq::find_first(m.players, crate::store::player_key(id)) by {
            assert(!(entry_has_owner(e0) && e0.player_id->0 == id)) by {
                if entry_has_owner(e0) && e0.player_id->0 == id {
                    assert(0 <= 0 < l.len() && entry_has_owner(l[0]) && l[0].player_id->0 == id);
                }
            }
            assert(!(exists|i: int|
                0 <= i < tail.len() && entry_has_owner(#[trigger] tail[i]) && tail[i].player_id->0
                    == id)) by {
                if exists|i: int|
                    0 <= i < tail.len() && entry_has_owner(#[trigger] tail[i])
                        && tail[i].player_id->0 == id {
                    let i = choose|i: int|
                        0 <= i < tail.len() && entry_has_owner(#[trigger] tail[i])
                            && tail[i].player_id->0 == id;
                    assert(entry_has_owner(l[i + 1]) && l[i + 1].player_id->0 == id);
                }
            }
        }
        assert forall|id: i64|
            !(exists|i: int|
                0 <= i < l.len() && entry_has_owner(#[trigger] l[i]) && l[i].alliance_id == Some(id)
                    && l[i].alliance_tag is Some) implies crate::rowseq::find_first(
                r.alliances,
                #[trigger] crate::store::alliance_key(id),
            ) == crate::rowseq::find_first(m.alliances, crate::store::alliance_key(id)) by {
            assert(!(entry_has_owner(e0) && e0.alliance_id == Some(id) && e0.alliance_tag is Some))
                by {
                if entry_has_owner(e0) && e0.alliance_id == Some(id) && e0.alliance_tag is Some {
                    assert(0 <= 0 < l.len() && entry_has_owner(l[0]) && l[0].alliance_id == Some(id)
                        && l[0].alliance_tag is Some);
                }
            }
            assert(!(exists|i: int|
                0 <= i < tail.len() && entry_has_owner(#[trigger] tail[i]) && tail[i].alliance_id
                    == Some(id) && tail[i].alliance_tag is Some)) by {
                if exists|i: int|
                    0 <= i < tail.len() && entry_has_owner(#[trigger] tail[i]) && tail[i].alliance_id
                        == Some(id) && tail[i].alliance_tag is Some {
                    let i = choose|i: int|
                        0 <= i < tail.len() && entry_has_owner(#[trigger] tail[i])
                            && tail[i].alliance_id == Some(id) && tail[i].alliance_tag is Some;
                    assert(entry_has_owner(l[i + 1]) && l[i + 1].alliance_id == Some(id)
                        && l[i + 1].alliance_tag is Some);
                }
            }
        }
    }
}

/// Re-applying an entry whose facts already hold changes nothing.
pub proof fn lemma_apply_entry_noop(t: StoreModel, g: i64, s: i64, e: ScanPlanetModel, now: i64)
    requires
        entry_stable(t, g, s, e, now),
    ensures
        apply_entry_spec(t, g, s, e, now) == t,
{
    if !entry_has_owner(e) {
    } else {
        let pid = e.player_id->0;
        lemma_ensure_player_present_noop(t, pid, entry_name(e), now);
        let m1 = ensure_player_spec(t, pid, entry_name(e), now);
        assert(m1 == t);
        let with_ally = e.alliance_id is Some && e.alliance_tag is Some;
        let m2 = if with_ally {
            link_player_alliance_spec(
                ensure_alliance_spec(m1, e.alliance_id->0, e.alliance_tag->0, now),
                pid,
                e.alliance_id->0,
                now,
            )
        } else {
            m1
        };
        if with_ally {
            lemma_ensure_alliance_noop(t, e.alliance_id->0, e.alliance_tag->0, now);
            lemma_link_noop(t, pid, e.alliance_id->0, now);
        }
        assert(m2 == t);
        lemma_upsert_planet_noop(
            t,
            pid,
            g,
            s,
            e.position,
            PlanetType::Planet,
            e.planet_name,
            e.planet_id,
            now,
        );
        if entry_moon(e) {
            lemma_upsert_planet_noop(t, pid, g, s, e.position, PlanetType::Moon, e.moon_name, e.moon_id, now);
        }
    }
}

/// When every entry fixes a state, the whole fold does.
proof fn lemma_entries_fold_fixed(t: StoreModel, g: i64, s: i64, l: Seq<ScanPlanetModel>, now: i64)
    requires
        forall|j: int| 0 <= j < l.len() ==> apply_entry_spec(t, g, s, #[trigger] l[j], now) == t,
    ensures
        apply_entries_spec(t, g, s, l, now) == t,
    decreases l.len(),
{
    if l.len() > 0 {
        assert(apply_entry_spec(t, g, s, l[0], now) == t);
        assert(forall|j: int| 0 <= j < l.skip(1).len() ==> #[trigger] l.skip(1)[j] == l[j + 1]);
        lemma_entries_fold_fixed(t, g, s, l.skip(1), now);
    }
}


/// Idempotence of the whole galaxy scan reconciliation: applying one
/// well-shaped scan twice in a row yields exactly the same stored state
/// as applying it once — same rows, same counters, no duplicates.
pub proof fn lemma_galaxy_scan_idempotent(m: StoreModel, sc: GalaxyScanModel, now: i64)
    requires
        scan_well_shaped(sc),
    ensures
        apply_galaxy_scan_spec(apply_galaxy_scan_spec(m, sc, now), sc, now)
            == apply_galaxy_scan_spec(m, sc, now),
{
    let g = sc.galaxy;
    let s = sc.system;
    let m1 = ensure_player_spec(m, 0, "System"@, now);
    let m2 = upsert_planet_spec(
        m1,
        0,
        g,
        s,
        0,
        PlanetType::Planet,
        Some(marker_name(sc)),
        None,
        now,
    );
    let m3 = apply_destroyed_spec(m2, g, s, sc.destroyed, now);
    let s1 = apply_entries_spec(m3, g, s, sc.planets, now);
    assert(s1 == apply_galaxy_scan_spec(m, sc, now));

    // The synthetic player is present throughout.
    assert(m1.has_player(0)) by {
        if m.has_player(0) {
            lemma_ensure_player_present_noop(m, 0, "System"@, now);
        } else {
            lemma_ensure_player_absent(m, 0, "System"@, now);
        }
    }
    lemma_upsert_planet_find(m1, 0, g, s, 0, PlanetType::Planet, Some(marker_name(sc)), None, now);
    assert(m2.has_player(0)) by {
        let w = choose|w: int| 0 <= w < m1.players.len() && m1.players[w].id == 0;
        assert(m2.players[w].id == 0);
    }
    lemma_destroyed_char(m2, g, s, sc.destroyed, now);
    assert(m3.has_player(0)) by {
        let w = choose|w: int| 0 <= w < m2.players.len() && m2.players[w].id == 0;
        assert(m3.players[w].id == 0);
    }
    lemma_entries_char(m3, g, s, sc.planets, now);
    assert(s1.has_player(0));

    // The marker row keeps the sentinel name, owner and stamp.
    let marker_key_covered = exists|j: int|
        0 <= j < sc.destroyed.len() && (#[trigger] sc.destroyed[j]).position == 0
            && sc.destroyed[j].kind == PlanetType::Planet;
    assert(match find_planet_row(m3.planets, g, s, 0, PlanetType::Planet) {
        Some(row) => row.player_id == 0 && row.name == Some(marker_name(sc)) && row.updated_at
            == now,
        None => false,
    }) by {
        if marker_key_covered {
            assert(match (find_planet_row(m3.planets, g, s, 0, PlanetType::Planet),
            find_planet_row(m2.planets, g, s, 0, PlanetType::Planet)) {
                (Some(a), Some(b)) => a == (PlanetModel {
                    status: crate::models::Status::Deleted,
                    updated_at: now,
                    ..b
                }),
                (None, None) => true,
                _ => false,
            });
        } else {
            assert(find_planet_row(m3.planets, g, s, 0, PlanetType::Planet) == find_planet_row(
                m2.planets,
                g,
                s,
                0,
                PlanetType::Planet,
            ));
        }
    }
    assert(!(exists|i: int|
        0 <= i < sc.planets.len() && g == g && s == s && (#[trigger] sc.planets[i]).position
            == 0)) by {
        if exists|i: int| 0 <= i < sc.planets.len() && (#[trigger] sc.planets[i]).position == 0 {
            let i = choose|i: int|
                0 <= i < sc.planets.len() && (#[trigger] sc.planets[i]).position == 0;
            assert(sc.planets[i].position >= 1);
        }
    }
    assert(find_planet_row(s1.planets, g, s, 0, PlanetType::Planet) == find_planet_row(
        m3.planets,
        g,
        s,
        0,
        PlanetType::Planet,
    ));

    // Destroyed rows are flagged and stamped, and the entries leave them
    // alone.
    assert forall|j: int| 0 <= j < sc.destroyed.len() implies (match find_planet_row(
        s1.planets,
        g,
        s,
        (#[trigger] sc.destroyed[j]).position,
        sc.destroyed[j].kind,
    ) {
        Some(row) => row.status == crate::models::Status::Deleted && row.updated_at == now,
        None => true,
    }) by {
        let d = sc.destroyed[j];
        assert(exists|j2: int|
            0 <= j2 < sc.destroyed.len() && g == g && s == s && (
            #[trigger] sc.destroyed[j2]).position == d.position && sc.destroyed[j2].kind == d.kind)
            by {
            assert(0 <= j < sc.destroyed.len() && sc.destroyed[j].position == d.position
                && sc.destroyed[j].kind == d.kind);
        }
        assert(match (find_planet_row(m3.planets, g, s, d.position, d.kind), find_planet_row(
            m2.planets,
            g,
            s,
            d.position,
            d.kind,
        )) {
            (Some(a), Some(b)) => a == (PlanetModel {
                status: crate::models::Status::Deleted,
                updated_at: now,
                ..b
            }),
            (None, None) => true,
            _ => false,
        });
        assert(!(exists|i: int|
            0 <= i < sc.planets.len() && g == g && s == s && (#[trigger] sc.planets[i]).position
                == d.position)) by {
            if exists|i: int|
                0 <= i < sc.planets.len() && (#[trigger] sc.planets[i]).position == d.position {
                let i = choose|i: int|
                    0 <= i < sc.planets.len() && (#[trigger] sc.planets[i]).position == d.position;
                assert(sc.planets[i].position != sc.destroyed[j].position);
            }
        }
        assert(find_planet_row(s1.planets, g, s, d.position, d.kind) == find_planet_row(
            m3.planets,
            g,
            s,
            d.position,
            d.kind,
        ));
    }

    // The second run replays every step onto its own result.
    lemma_ensure_player_present_noop(s1, 0, "System"@, now);
    lemma_upsert_planet_noop(s1, 0, g, s, 0, PlanetType::Planet, Some(marker_name(sc)), None, now);
    assert forall|j: int|
        0 <= j < sc.destroyed.len() implies mark_planet_deleted_spec(
        s1,
        g,
        s,
        (#[trigger] sc.destroyed[j]).position,
        sc.destroyed[j].kind,
        now,
    ) == s1 by {
        lemma_mark_deleted_noop(s1, g, s, sc.destroyed[j].position, sc.destroyed[j].kind, now);
    }
    lemma_destroyed_fold_fixed(s1, g, s, sc.destroyed, now);
    assert forall|j: int|
        0 <= j < sc.planets.len() implies apply_entry_spec(s1, g, s, #[trigger] sc.planets[j], now)
        == s1 by {
        assert(entry_stable(s1, g, s, sc.planets[j], now));
        lemma_apply_entry_noop(s1, g, s, sc.planets[j], now);
    }
    lemma_entries_fold_fixed(s1, g, s, sc.planets, now);
    assert(apply_galaxy_scan_spec(s1, sc, now) == s1);
}


} // verus!
