//! The remaining ingestion flows at the payload boundary: single-planet
//! creation from a coordinate string, the full player-card upsert with
//! its alliance resolution, research submission and the language
//! preference update.

use vstd::prelude::*;
use vstd::string::StringExecFns;
use crate::errors::AppError;
use crate::models::{CountEntry, CountMap, PlanetType};
use crate::requests::ResearchInput;
use crate::store::{
    ensure_alliance_spec, lemma_has_player_same, upsert_planet_spec, update_player_research_spec,
    upsert_player_full_spec, PlayerUpsert, Store, StoreModel,
};
use crate::textutil::{coord_parts, i64_of_string, parse_i64, split_coordinates};

verus! {

/// What strict coordinate parsing yields for the single-planet flow: the
/// three figures, or the part that failed.
pub open spec fn strict_coords(s: Seq<char>) -> Result<(i64, i64, i64), int> {
    match coord_parts(s) {
        Some((a, b, c)) => (match (i64_of_string(a), i64_of_string(b), i64_of_string(c)) {
            (Some(g), Some(sy), Some(p)) => Ok((g, sy, p)),
            (None, _, _) => Err(1),
            (Some(_), None, _) => Err(2),
            (Some(_), Some(_), None) => Err(3),
        }),
        None => Err(0),
    }
}

/// What creating one planet does: the planet row upserted, and a moon row
/// beside it when a moon name is supplied.
pub open spec fn create_planet_spec(
    m: StoreModel,
    player_id: i64,
    g: i64,
    s: i64,
    pos: i64,
    planet_name: Option<Seq<char>>,
    moon_name: Option<Seq<char>>,
    now: i64,
) -> StoreModel {
    let m1 = upsert_planet_spec(m, player_id, g, s, pos, PlanetType::Planet, planet_name, None, now);
    if moon_name is Some {
        upsert_planet_spec(m1, player_id, g, s, pos, PlanetType::Moon, moon_name, None, now)
    } else {
        m1
    }
}

/// Creates one planet (and its moon, when named) from a coordinate
/// string; a malformed string or figure is rejected as bad input, naming
/// the failing part, and an unknown owner as a storage failure — the
/// constraint an owner-less planet row would violate.
pub fn create_planet(
    store: &mut Store,
    coordinates: &str,
    player_id: i64,
    planet_name: Option<String>,
    moon_name: Option<String>,
    now: i64,
) -> (r: Result<(), AppError>)
    requires
        old(store).wf(),
        old(store)@.next_planet_id + 3 < 0x7fff_ffff_ffff_ffff,
    ensures
        final(store).wf(),
        (match strict_coords(coordinates@) {
            Ok((g, s, pos)) => if old(store)@.has_player(player_id) {
                r is Ok && final(store)@ == create_planet_spec(
                    old(store)@,
                    player_id,
                    g,
                    s,
                    pos,
                    crate::models::opt_str_view(planet_name),
                    crate::models::opt_str_view(moon_name),
                    now,
                )
            } else {
                (r matches Err(e) && e is Storage) && final(store)@ == old(store)@
            },
            Err(_) => (r matches Err(e) && e is BadRequest) && final(store)@ == old(store)@,
        }),
{
    let (a, b, c) = match split_coordinates(coordinates) {
        Some(parts) => parts,
        None => {
            return Err(AppError::BadRequest(String::from_str("Ungueltige Koordinaten")));
        },
    };
    let g = match parse_i64(a) {
        Some(v) => v,
        None => {
            return Err(AppError::BadRequest(String::from_str("Ungueltige Galaxy")));
        },
    };
    let s = match parse_i64(b) {
        Some(v) => v,
        None => {
            return Err(AppError::BadRequest(String::from_str("Ungueltiges System")));
        },
    };
    let pos = match parse_i64(c) {
        Some(v) => v,
        None => {
            return Err(AppError::BadRequest(String::from_str("Ungueltiger Planet")));
        },
    };
    if store.find_player(player_id).is_none() {
        // The row would reference a nonexistent player.
        return Err(
            AppError::Storage(String::from_str("Ein Datenbankfehler ist aufgetreten")),
        );
    }
    let with_moon = moon_name.is_some();
    store.upsert_planet(player_id, g, s, pos, PlanetType::Planet, planet_name, None, now);
    if with_moon {
        proof {
            lemma_has_player_same(old(store)@, store@, player_id);
        }
        store.upsert_planet(player_id, g, s, pos, PlanetType::Moon, moon_name, None, now);
    }
    Ok(())
}

/// What the full player-card flow does: resolve the alliance when both
/// id and tag are supplied, then upsert the card.
pub open spec fn upsert_player_flow_spec(m: StoreModel, u: crate::store::PlayerUpsertModel, tag: Option<Seq<char>>, now: i64) -> StoreModel {
    let m1 = (match (u.alliance_id, tag) {
        (Some(aid), Some(t)) => ensure_alliance_spec(m, aid, t, now),
        _ => m,
    });
    upsert_player_full_spec(m1, u, now)
}

/// Upserts a full player card: when both alliance id and tag are
/// supplied the alliance is resolved first; a card naming an alliance
/// without a tag must reference a known alliance, else the write is a
/// storage failure — the constraint it would violate.
pub fn upsert_player(store: &mut Store, u: PlayerUpsert, alliance_tag: Option<String>, now: i64) -> (r:
    Result<(), AppError>)
    requires
        old(store).wf(),
    ensures
        final(store).wf(),
        r is Ok ==> final(store)@ == upsert_player_flow_spec(
            old(store)@,
            u@,
            crate::models::opt_str_view(alliance_tag),
            now,
        ),
        r is Err ==> final(store)@ == old(store)@ && (match u@.alliance_id {
            Some(aid) => crate::models::opt_str_view(alliance_tag) is None && !old(
                store,
            )@.has_alliance(aid),
            None => false,
        }),
{
    let ghost m0 = store@;
    match (u.alliance_id, alliance_tag) {
        (Some(aid), Some(tag)) => {
            store.ensure_alliance(aid, tag, now);
            store.upsert_player_full(u, now);
            Ok(())
        },
        (Some(aid), None) => {
            if store.find_alliance(aid).is_none() {
                return Err(
                    AppError::Storage(String::from_str("Ein Datenbankfehler ist aufgetreten")),
                );
            }
            store.upsert_player_full(u, now);
            Ok(())
        },
        (None, _) => {
            store.upsert_player_full(u, now);
            Ok(())
        },
    }
}

/// The research list of the submission flow, as a typed mapping.
pub open spec fn research_map_of(l: Seq<ResearchInput>) -> Seq<CountEntry>
    decreases l.len(),
{
    if l.len() == 0 {
        Seq::<CountEntry>::empty()
    } else {
        research_map_of(l.drop_last()).push(
            CountEntry {
                id: (if 0 <= l.last().id {
                    l.last().id as u64
                } else {
                    0
                }),
                n: l.last().level,
            },
        )
    }
}

/// Submits a player's own research levels: the list becomes the typed
/// research map of the caller's player row, negative tech ids collapsing
/// to zero.  A caller without a linked player is rejected as bad input.
pub fn post_research(
    store: &mut Store,
    caller_player_id: Option<i64>,
    research: &Vec<ResearchInput>,
    now: i64,
) -> (r: Result<(), AppError>)
    requires
        old(store).wf(),
    ensures
        final(store).wf(),
        (match caller_player_id {
            Some(pid) => r is Ok && final(store)@ == update_player_research_spec(
                old(store)@,
                pid,
                research_map_of(research@),
                now,
            ),
            None => (r matches Err(e) && e is BadRequest) && final(store)@ == old(store)@,
        }),
{
    let pid = match caller_player_id {
        Some(p) => p,
        None => {
            return Err(AppError::BadRequest(String::from_str("Kein Spieler zugeordnet")));
        },
    };
    let mut map: CountMap = Vec::new();
    let mut i: usize = 0;
    proof {
        assert(research@.take(0) =~= Seq::<ResearchInput>::empty());
        assert(map@ =~= research_map_of(research@.take(0)));
    }
    while i < research.len()
        invariant
            0 <= i <= research@.len(),
            map@ == research_map_of(research@.take(i as int)),
        decreases research@.len() - i,
    {
        proof {
            assert(research@.take(i + 1).drop_last() =~= research@.take(i as int));
            assert(research@.take(i + 1).last() == research@[i as int]);
        }
        let e = &research[i];
        let id: u64 = if 0 <= e.id {
            e.id as u64
        } else {
            0
        };
        map.push(CountEntry { id, n: e.level });
        i = i + 1;
    }
    proof {
        assert(research@.take(research@.len() as int) =~= research@);
    }
    store.update_player_research(pid, map, now);
    Ok(())
}

/// Updates the caller's language preference; only known languages pass.
pub fn update_language(store: &mut Store, user_id: i64, language: &str, now: i64) -> (r: Result<
    (),
    AppError,
>)
    requires
        old(store).wf(),
    ensures
        final(store).wf(),
        crate::i18n::valid_language(language@) ==> r is Ok && final(store)@ == (StoreModel {
            users: crate::rowseq::update_first(
                old(store)@.users,
                crate::store::user_key(user_id),
                crate::store::language_merge(language@, now),
            ),
            ..old(store)@
        }),
        !crate::i18n::valid_language(language@) ==> (r matches Err(e) && e is BadRequest)
            && final(store)@ == old(store)@,
{
    if !crate::i18n::is_valid_language(language) {
        return Err(AppError::BadRequest(String::from_str("Invalid language")));
    }
    store.update_user_language(user_id, String::from_str(language), now);
    Ok(())
}

} // verus!
