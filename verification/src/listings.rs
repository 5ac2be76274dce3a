//! Read-side listings over the store, and the new-planet tracking the
//! bot consumes: message-id dedup, the new-planet feed with its
//! seen-marking, and the rows feeding the leaderboard maxima.

use vstd::prelude::*;
use crate::aggregate::LeaderRow;
use crate::models::{
    clone_opt_count_map, opt_str_view, PlanetModel, PlanetType, PlayerModel,
    Status,
};
use crate::rowseq::update_first;
use crate::store::{views_of, SpyReport, Store, StoreModel};

verus! {

// ===========================================================================
// Message-id dedup
// ===========================================================================

/// The subset of a batch never seen before, in batch order; duplicates
/// within the batch are all reported new, as the batch is screened
/// against the state before any recording.
pub open spec fn new_ids_spec(msgs: Seq<i64>, ids: Seq<i64>) -> Seq<i64>
    decreases ids.len(),
{
    if ids.len() == 0 {
        Seq::<i64>::empty()
    } else {
        let rest = new_ids_spec(msgs, ids.drop_last());
        if msgs.contains(ids.last()) {
            rest
        } else {
            rest.push(ids.last())
        }
    }
}

/// The message table after durably recording a batch, each id once.
pub open spec fn record_msgs_spec(msgs: Seq<i64>, ids: Seq<i64>) -> Seq<i64>
    decreases ids.len(),
{
    if ids.len() == 0 {
        msgs
    } else {
        record_msgs_spec(
            (if msgs.contains(ids[0]) {
                msgs
            } else {
                msgs.push(ids[0])
            }),
            ids.skip(1),
        )
    }
}

/// Peeling one id off the end of a prefix.
proof fn lemma_record_snoc(msgs: Seq<i64>, ids: Seq<i64>, i: int)
    requires
        0 <= i < ids.len(),
    ensures
        record_msgs_spec(msgs, ids.subrange(0, i + 1)) == (if record_msgs_spec(
            msgs,
            ids.subrange(0, i),
        ).contains(ids[i]) {
            record_msgs_spec(msgs, ids.subrange(0, i))
        } else {
            record_msgs_spec(msgs, ids.subrange(0, i)).push(ids[i])
        }),
    decreases i,
{
    if i == 0 {
        assert(ids.subrange(0, 1).skip(1) =~= Seq::<i64>::empty());
        assert(ids.subrange(0, 0) =~= Seq::<i64>::empty());
        assert(ids.subrange(0, 1)[0] == ids[0]);
        let e = if msgs.contains(ids[0]) {
            msgs
        } else {
            msgs.push(ids[0])
        };
        assert(record_msgs_spec(msgs, ids.subrange(0, 1)) == record_msgs_spec(
            e,
            ids.subrange(0, 1).skip(1),
        ));
        assert(record_msgs_spec(e, Seq::<i64>::empty()) == e);
        assert(record_msgs_spec(msgs, Seq::<i64>::empty()) == msgs);
    } else {
        let l1 = ids.skip(1);
        let e = if msgs.contains(ids[0]) {
            msgs
        } else {
            msgs.push(ids[0])
        };
        lemma_record_snoc(e, l1, i - 1);
        assert(ids.subrange(0, i + 1)[0] == ids[0]);
        assert(ids.subrange(0, i)[0] == ids[0]);
        assert(ids.subrange(0, i + 1).skip(1) =~= l1.subrange(0, i));
        assert(ids.subrange(0, i).skip(1) =~= l1.subrange(0, i - 1));
        assert(l1[i - 1] == ids[i]);
        assert(record_msgs_spec(msgs, ids.subrange(0, i + 1)) == record_msgs_spec(
            e,
            l1.subrange(0, i),
        ));
        assert(record_msgs_spec(msgs, ids.subrange(0, i)) == record_msgs_spec(
            e,
            l1.subrange(0, i - 1),
        ));
    }
}

impl Store {
    /// Screens a batch of externally observed message ids, returning only
    /// those never seen before, and durably records the whole batch.
    pub fn check_messages(&mut self, ids: &Vec<i64>) -> (r: Vec<i64>)
        requires
            old(self).wf(),
        ensures
            final(self).wf(),
            r@ == new_ids_spec(old(self)@.messages, ids@),
            final(self)@ == (StoreModel {
                messages: record_msgs_spec(old(self)@.messages, ids@),
                ..old(self)@
            }),
    {
        let ghost m0 = self@;
        let mut new_ids: Vec<i64> = Vec::new();
        let mut i: usize = 0;
        proof {
            assert(ids@.take(0) =~= Seq::<i64>::empty());
            assert(new_ids@ =~= new_ids_spec(m0.messages, ids@.take(0)));
        }
        while i < ids.len()
            invariant
                0 <= i <= ids@.len(),
                self@ == m0,
                self.wf(),
                new_ids@ == new_ids_spec(m0.messages, ids@.take(i as int)),
            decreases ids@.len() - i,
        {
            proof {
                assert(ids@.take(i + 1).drop_last() =~= ids@.take(i as int));
                assert(ids@.take(i + 1).last() == ids@[i as int]);
            }
            if !self.message_seen(ids[i]) {
                new_ids.push(ids[i]);
            }
            i = i + 1;
        }
        proof {
            assert(ids@.take(ids@.len() as int) =~= ids@);
        }
        let mut j: usize = 0;
        proof {
            assert(ids@.subrange(0, 0) =~= Seq::<i64>::empty());
            assert(self@ =~= (StoreModel {
                messages: record_msgs_spec(m0.messages, ids@.subrange(0, 0)),
                ..m0
            }));
        }
        while j < ids.len()
            invariant
                0 <= j <= ids@.len(),
                self.wf(),
                self@ == (StoreModel {
                    messages: record_msgs_spec(m0.messages, ids@.subrange(0, j as int)),
                    ..m0
                }),
            decreases ids@.len() - j,
        {
            self.record_message(ids[j]);
            proof {
                lemma_record_snoc(m0.messages, ids@, j as int);
                assert(self@ =~= (StoreModel {
                    messages: record_msgs_spec(m0.messages, ids@.subrange(0, j + 1)),
                    ..m0
                }));
            }
            j = j + 1;
        }
        proof {
            assert(ids@.subrange(0, ids@.len() as int) =~= ids@);
        }
        new_ids
    }
}

// ===========================================================================
// New-planet tracking
// ===========================================================================

/// One newly discovered planet, with its owner's display names joined.
pub struct NewPlanet {
    pub id: i64,
    pub galaxy: i64,
    pub system: i64,
    pub planet: i64,
    pub player_name: Option<String>,
    pub alliance_tag: Option<String>,
    pub created_at: Option<i64>,
}

/// Mathematical value of one new-planet row.
#[verifier::ext_equal]
pub ghost struct NewPlanetModel {
    pub id: i64,
    pub galaxy: i64,
    pub system: i64,
    pub planet: i64,
    pub player_name: Option<Seq<char>>,
    pub alliance_tag: Option<Seq<char>>,
    pub created_at: Option<i64>,
}

impl View for NewPlanet {
    type V = NewPlanetModel;

    open spec fn view(&self) -> NewPlanetModel {
        NewPlanetModel {
            id: self.id,
            galaxy: self.galaxy,
            system: self.system,
            planet: self.planet,
            player_name: opt_str_view(self.player_name),
            alliance_tag: opt_str_view(self.alliance_tag),
            created_at: self.created_at,
        }
    }
}

/// What one stored planet row lists as.
pub open spec fn new_planet_of(m: StoreModel, p: PlanetModel) -> NewPlanetModel {
    let player = crate::export::find_player_row(m.players, p.player_id);
    NewPlanetModel {
        id: p.id,
        galaxy: p.galaxy,
        system: p.system,
        planet: p.position,
        player_name: (match player {
            Some(pl) => Some(pl.name),
            None => None,
        }),
        alliance_tag: (match player {
            Some(pl) => (match pl.alliance_id {
                Some(aid) => (match crate::export::find_alliance_row(m.alliances, aid) {
                    Some(a) => Some(a.tag),
                    None => None,
                }),
                None => None,
            }),
            None => None,
        }),
        created_at: Some(p.created_at),
    }
}

/// The new, planet-kind rows in store order, with names joined.
pub open spec fn new_planets_spec(m: StoreModel, planets: Seq<PlanetModel>) -> Seq<NewPlanetModel>
    decreases planets.len(),
{
    if planets.len() == 0 {
        Seq::<NewPlanetModel>::empty()
    } else {
        let rest = new_planets_spec(m, planets.drop_last());
        if planets.last().status == Status::New && planets.last().kind == PlanetType::Planet {
            rest.push(new_planet_of(m, planets.last()))
        } else {
            rest
        }
    }
}

/// How many rows are new planet-kind bodies.
pub open spec fn new_planet_count(planets: Seq<PlanetModel>) -> int
    decreases planets.len(),
{
    if planets.len() == 0 {
        0
    } else {
        new_planet_count(planets.drop_last()) + (if planets.last().status == Status::New
            && planets.last().kind == PlanetType::Planet {
            1int
        } else {
            0int
        })
    }
}

/// The seen-marking of one planet row.
pub open spec fn seen_merge(now: i64) -> spec_fn(PlanetModel) -> PlanetModel {
    |p: PlanetModel| PlanetModel { status: Status::Seen, updated_at: now, ..p }
}

/// The planet table with every new row marked seen.
pub open spec fn mark_all_seen_spec(planets: Seq<PlanetModel>, now: i64) -> Seq<PlanetModel> {
    planets.map_values(
        |p: PlanetModel|
            if p.status == Status::New {
                PlanetModel { status: Status::Seen, updated_at: now, ..p }
            } else {
                p
            },
    )
}

impl Store {
    /// Lists the new planets for the bot's feed, with owner and alliance
    /// display names joined, in store order.
    pub fn get_new_planets(&self) -> (r: Vec<NewPlanet>)
        requires
            self.wf(),
        ensures
            views_of(r@) == new_planets_spec(self@, self@.planets),
    {
        let ghost m = self@;
        let mut out: Vec<NewPlanet> = Vec::new();
        let mut i: usize = 0;
        proof {
            assert(m.planets.take(0) =~= Seq::<PlanetModel>::empty());
            assert(views_of(out@) =~= new_planets_spec(m, m.planets.take(0)));
        }
        while i < self.planets.len()
            invariant
                0 <= i <= self@.planets.len(),
                self@ == m,
                self.wf(),
                self@.planets.len() == self.planets@.len(),
                views_of(out@) == new_planets_spec(m, m.planets.take(i as int)),
            decreases self@.planets.len() - i,
        {
            let ghost pv = m.planets[i as int];
            proof {
                assert(m.planets.take(i + 1).drop_last() =~= m.planets.take(i as int));
                assert(m.planets.take(i + 1).last() == pv);
            }
            let p = &self.planets[i];
            if (match p.status {
                Status::New => true,
                _ => false,
            }) && (match p.kind {
                PlanetType::Planet => true,
                PlanetType::Moon => false,
            }) {
                let player = self.player_ref(p.player_id);
                let (pname, tag) = match player {
                    Some(pl) => {
                        let tag = match pl.alliance_id {
                            Some(aid) => match self.alliance_ref(aid) {
                                Some(a) => Some(a.tag.clone()),
                                None => None,
                            },
                            None => None,
                        };
                        (Some(pl.name.clone()), tag)
                    },
                    None => (None, None),
                };
                let row = NewPlanet {
                    id: p.id,
                    galaxy: p.galaxy,
                    system: p.system,
                    planet: p.position,
                    player_name: pname,
                    alliance_tag: tag,
                    created_at: Some(p.created_at),
                };
                proof {
                    assert(row@ =~~= new_planet_of(m, pv));
                }
                out.push(row);
                proof {
                    assert(views_of(out@) =~= new_planets_spec(m, m.planets.take(i + 1)));
                }
            } else {
                proof {
                    assert(new_planets_spec(m, m.planets.take(i + 1)) == new_planets_spec(
                        m,
                        m.planets.take(i as int),
                    ));
                }
            }
            i = i + 1;
        }
        proof {
            assert(m.planets.take(m.planets.len() as int) =~= m.planets);
        }
        out
    }

    /// Counts the new planets awaiting the bot's feed.
    pub fn count_new_planets(&self) -> (r: i64)
        requires
            self.wf(),
            self@.planets.len() < 0x7fff_ffff_ffff_ffff,
        ensures
            r == new_planet_count(self@.planets),
    {
        let mut count: i64 = 0;
        let mut i: usize = 0;
        proof {
            assert(self@.planets.take(0) =~= Seq::<PlanetModel>::empty());
        }
        while i < self.planets.len()
            invariant
                0 <= i <= self@.planets.len(),
                self@.planets.len() == self.planets@.len(),
                self@.planets.len() < 0x7fff_ffff_ffff_ffff,
                count == new_planet_count(self@.planets.take(i as int)),
                0 <= count <= i,
            decreases self@.planets.len() - i,
        {
            proof {
                assert(self@.planets.take(i + 1).drop_last() =~= self@.planets.take(i as int));
                assert(self@.planets.take(i + 1).last() == self@.planets[i as int]);
            }
            let p = &self.planets[i];
            if (match p.status {
                Status::New => true,
                _ => false,
            }) && (match p.kind {
                PlanetType::Planet => true,
                PlanetType::Moon => false,
            }) {
                count = count + 1;
            }
            i = i + 1;
        }
        proof {
            assert(self@.planets.take(self@.planets.len() as int) =~= self@.planets);
        }
        count
    }

    /// Marks every new planet seen, stamping the update time; returns how
    /// many rows changed status.
    pub fn mark_all_planets_seen(&mut self, now: i64) -> (r: u64)
        requires
            old(self).wf(),
            old(self)@.planets.len() <= 0xffff_ffff_ffff_ffff,
        ensures
            final(self).wf(),
            final(self)@ == (StoreModel {
                planets: mark_all_seen_spec(old(self)@.planets, now),
                ..old(self)@
            }),
            r == crate::listings::new_count_all(old(self)@.planets),
    {
        let ghost m0 = self@;
        let mut count: u64 = 0;
        let mut i: usize = 0;
        proof {
            assert(m0.planets.take(0) =~= Seq::<PlanetModel>::empty());
            assert(mark_all_seen_spec(m0.planets.take(0), now) =~= Seq::<PlanetModel>::empty());
            assert(mark_all_seen_spec(m0.planets.take(0), now) + m0.planets.skip(0) =~= m0.planets);
            assert(self@ =~= (StoreModel {
                planets: mark_all_seen_spec(m0.planets.take(0), now) + m0.planets.skip(0),
                ..m0
            }));
            assert(new_count_all(m0.planets.take(0)) == 0);
        }
        while i < self.planets.len()
            invariant
                0 <= i <= m0.planets.len(),
                m0.planets.len() == self.planets@.len(),
                m0.planets.len() <= 0xffff_ffff_ffff_ffff,
                self.wf(),
                self@ == (StoreModel {
                    planets: mark_all_seen_spec(m0.planets.take(i as int), now) + m0.planets.skip(
                        i as int,
                    ),
                    ..m0
                }),
                count == new_count_all(m0.planets.take(i as int)),
                count <= i,
            decreases m0.planets.len() - i,
        {
            let ghost before = self@;
            proof {
                assert(m0.planets.take(i + 1).drop_last() =~= m0.planets.take(i as int));
                assert(m0.planets.take(i + 1).last() == m0.planets[i as int]);
                assert(before.planets[i as int] == m0.planets[i as int]);
            }
            let is_new = match self.planets[i].status {
                Status::New => true,
                _ => false,
            };
            if is_new {
                let mut merged = crate::store::clone_planet(&self.planets[i]);
                merged.status = Status::Seen;
                merged.updated_at = now;
                let ghost mv = merged@;
                proof {
                    assert(mv =~~= seen_merge(now)(m0.planets[i as int]));
                    assert(before.has_player(before.planets[i as int].player_id));
                    crate::store::lemma_wf_planet_update(before, i as int, mv);
                }
                self.planets.set(i, merged);
                count = count + 1;
                proof {
                    assert(views_of(self.planets@) =~= before.planets.update(i as int, mv));
                    assert(self@ =~= (StoreModel {
                        planets: before.planets.update(i as int, mv),
                        ..before
                    }));
                    assert(self@.planets =~= mark_all_seen_spec(m0.planets.take(i + 1), now)
                        + m0.planets.skip(i + 1));
                    assert(self@ =~= (StoreModel {
                        planets: mark_all_seen_spec(m0.planets.take(i + 1), now) + m0.planets.skip(
                            i + 1,
                        ),
                        ..m0
                    }));
                }
            } else {
                proof {
                    assert(self@.planets =~= mark_all_seen_spec(m0.planets.take(i + 1), now)
                        + m0.planets.skip(i + 1));
                    assert(self@ =~= (StoreModel {
                        planets: mark_all_seen_spec(m0.planets.take(i + 1), now) + m0.planets.skip(
                            i + 1,
                        ),
                        ..m0
                    }));
                }
            }
            i = i + 1;
        }
        proof {
            assert(m0.planets.take(m0.planets.len() as int) =~= m0.planets);
            assert(mark_all_seen_spec(m0.planets, now) + m0.planets.skip(m0.planets.len() as int)
                =~= mark_all_seen_spec(m0.planets, now));
        }
        count
    }
}

/// How many rows are new, of any kind (the whole-table seen-marking
/// counts moons too, as it updates by status alone).
pub open spec fn new_count_all(planets: Seq<PlanetModel>) -> int
    decreases planets.len(),
{
    if planets.len() == 0 {
        0
    } else {
        new_count_all(planets.drop_last()) + (if planets.last().status == Status::New {
            1int
        } else {
            0int
        })
    }
}

// ===========================================================================
// Leaderboard inputs
// ===========================================================================

/// The research leaderboard rows of one alliance: its players' names and
/// research maps, in store order.
pub open spec fn research_rows_spec(players: Seq<PlayerModel>, aid: i64) -> Seq<
    crate::aggregate::LeaderRowModel,
>
    decreases players.len(),
{
    if players.len() == 0 {
        Seq::<crate::aggregate::LeaderRowModel>::empty()
    } else {
        let rest = research_rows_spec(players.drop_last(), aid);
        if players.last().alliance_id == Some(aid) {
            rest.push(
                crate::aggregate::LeaderRowModel {
                    name: players.last().name,
                    map: players.last().research,
                },
            )
        } else {
            rest
        }
    }
}

/// The buildings leaderboard rows of one alliance: its players' planets'
/// owner names and building maps, in store order.
pub open spec fn buildings_rows_spec(m: StoreModel, planets: Seq<PlanetModel>, aid: i64) -> Seq<
    crate::aggregate::LeaderRowModel,
>
    decreases planets.len(),
{
    if planets.len() == 0 {
        Seq::<crate::aggregate::LeaderRowModel>::empty()
    } else {
        let rest = buildings_rows_spec(m, planets.drop_last(), aid);
        let owner = crate::export::find_player_row(m.players, planets.last().player_id);
        if planets.last().kind == PlanetType::Planet && (match owner {
            Some(pl) => pl.alliance_id == Some(aid),
            None => false,
        }) {
            rest.push(
                crate::aggregate::LeaderRowModel {
                    name: owner->0.name,
                    map: planets.last().buildings,
                },
            )
        } else {
            rest
        }
    }
}

impl Store {
    /// Lists the research leaderboard rows of one alliance.
    pub fn research_rows(&self, alliance_id: i64) -> (r: Vec<LeaderRow>)
        ensures
            views_of(r@) == research_rows_spec(self@.players, alliance_id),
    {
        let mut out: Vec<LeaderRow> = Vec::new();
        let mut i: usize = 0;
        proof {
            assert(self@.players.take(0) =~= Seq::<PlayerModel>::empty());
            assert(views_of(out@) =~= research_rows_spec(self@.players.take(0), alliance_id));
        }
        while i < self.players.len()
            invariant
                0 <= i <= self@.players.len(),
                self@.players.len() == self.players@.len(),
                views_of(out@) == research_rows_spec(self@.players.take(i as int), alliance_id),
            decreases self@.players.len() - i,
        {
            proof {
                assert(self@.players.take(i + 1).drop_last() =~= self@.players.take(i as int));
                assert(self@.players.take(i + 1).last() == self@.players[i as int]);
            }
            let p = &self.players[i];
            let selected = match p.alliance_id {
                Some(a) => a == alliance_id,
                None => false,
            };
            if selected {
                let row = LeaderRow {
                    name: p.name.clone(),
                    map: clone_opt_count_map(&p.research),
                };
                proof {
                    assert(row@ =~~= (crate::aggregate::LeaderRowModel {
                        name: self@.players[i as int].name,
                        map: self@.players[i as int].research,
                    }));
                }
                out.push(row);
                proof {
                    assert(views_of(out@) =~= research_rows_spec(
                        self@.players.take(i + 1),
                        alliance_id,
                    ));
                }
            } else {
                proof {
                    assert(research_rows_spec(self@.players.take(i + 1), alliance_id)
                        == research_rows_spec(self@.players.take(i as int), alliance_id));
                }
            }
            i = i + 1;
        }
        proof {
            assert(self@.players.take(self@.players.len() as int) =~= self@.players);
        }
        out
    }

    /// Lists the buildings leaderboard rows of one alliance.
    pub fn buildings_rows(&self, alliance_id: i64) -> (r: Vec<LeaderRow>)
        ensures
            views_of(r@) == buildings_rows_spec(self@, self@.planets, alliance_id),
    {
        let ghost m = self@;
        let mut out: Vec<LeaderRow> = Vec::new();
        let mut i: usize = 0;
        proof {
            assert(m.planets.take(0) =~= Seq::<PlanetModel>::empty());
            assert(views_of(out@) =~= buildings_rows_spec(m, m.planets.take(0), alliance_id));
        }
        while i < self.planets.len()
            invariant
                0 <= i <= self@.planets.len(),
                self@ == m,
                self@.planets.len() == self.planets@.len(),
                views_of(out@) == buildings_rows_spec(m, m.planets.take(i as int), alliance_id),
            decreases self@.planets.len() - i,
        {
            let ghost pv = m.planets[i as int];
            proof {
                assert(m.planets.take(i + 1).drop_last() =~= m.planets.take(i as int));
                assert(m.planets.take(i + 1).last() == pv);
            }
            let p = &self.planets[i];
            let is_planet = match p.kind {
                PlanetType::Planet => true,
                PlanetType::Moon => false,
            };
            if is_planet {
                match self.player_ref(p.player_id) {
                    Some(pl) => {
                        let in_alliance = match pl.alliance_id {
                            Some(a) => a == alliance_id,
                            None => false,
                        };
                        if in_alliance {
                            let row = LeaderRow {
                                name: pl.name.clone(),
                                map: clone_opt_count_map(&p.buildings),
                            };
                            proof {
                                assert(row@ =~~= (crate::aggregate::LeaderRowModel {
                                    name: crate::export::find_player_row(
                                        m.players,
                                        pv.player_id,
                                    )->0.name,
                                    map: pv.buildings,
                                }));
                            }
                            out.push(row);
                            proof {
                                assert(views_of(out@) =~= buildings_rows_spec(
                                    m,
                                    m.planets.take(i + 1),
                                    alliance_id,
                                ));
                            }
                        } else {
                            proof {
                                assert(buildings_rows_spec(m, m.planets.take(i + 1), alliance_id)
                                    == buildings_rows_spec(m, m.planets.take(i as int), alliance_id));
                            }
                        }
                    },
                    None => {
                        proof {
                            assert(buildings_rows_spec(m, m.planets.take(i + 1), alliance_id)
                                == buildings_rows_spec(m, m.planets.take(i as int), alliance_id));
                        }
                    },
                }
            } else {
                proof {
                    assert(buildings_rows_spec(m, m.planets.take(i + 1), alliance_id)
                        == buildings_rows_spec(m, m.planets.take(i as int), alliance_id));
                }
            }
            i = i + 1;
        }
        proof {
            assert(m.planets.take(m.planets.len() as int) =~= m.planets);
        }
        out
    }

    /// The most recently ingested spy report at a coordinate triple, of
    /// planet kind; among equal ingestion times the last ingested wins.
    pub fn latest_spy_report(&self, g: i64, s: i64, pos: i64) -> (r: Option<&SpyReport>)
        ensures
            (match r {
                Some(rep) => latest_spy_spec(self@.spy_reports, g, s, pos) == Some(rep@),
                None => latest_spy_spec(self@.spy_reports, g, s, pos) is None,
            }),
    {
        let mut best: Option<usize> = None;
        let mut i: usize = 0;
        proof {
            assert(self@.spy_reports.take(0) =~= Seq::<crate::store::SpyReportModel>::empty());
        }
        while i < self.spy_reports.len()
            invariant
                0 <= i <= self@.spy_reports.len(),
                self@.spy_reports.len() == self.spy_reports@.len(),
                (match best {
                    Some(b) => b < i && latest_spy_spec(self@.spy_reports.take(i as int), g, s, pos)
                        == Some(self@.spy_reports[b as int]),
                    None => latest_spy_spec(self@.spy_reports.take(i as int), g, s, pos) is None,
                }),
            decreases self@.spy_reports.len() - i,
        {
            proof {
                assert(self@.spy_reports.take(i + 1).drop_last() =~= self@.spy_reports.take(
                    i as int,
                ));
                assert(self@.spy_reports.take(i + 1).last() == self@.spy_reports[i as int]);
            }
            let rep = &self.spy_reports[i];
            let matching = rep.galaxy == g && rep.system == s && rep.position == pos && (match rep.kind {
                PlanetType::Planet => true,
                PlanetType::Moon => false,
            });
            if matching {
                let take = match best {
                    Some(b) => rep.created_at >= self.spy_reports[b].created_at,
                    None => true,
                };
                if take {
                    best = Some(i);
                }
            }
            i = i + 1;
        }
        proof {
            assert(self@.spy_reports.take(self@.spy_reports.len() as int) =~= self@.spy_reports);
        }
        match best {
            Some(b) => Some(&self.spy_reports[b]),
            None => None,
        }
    }
}

/// The most recent planet-kind spy report at a triple, later rows
/// winning ties.
pub open spec fn latest_spy_spec(
    reports: Seq<crate::store::SpyReportModel>,
    g: i64,
    s: i64,
    pos: i64,
) -> Option<crate::store::SpyReportModel>
    decreases reports.len(),
{
    if reports.len() == 0 {
        None
    } else {
        let rest = latest_spy_spec(reports.drop_last(), g, s, pos);
        let x = reports.last();
        if x.galaxy == g && x.system == s && x.position == pos && x.kind == PlanetType::Planet {
            match rest {
                Some(y) => if x.created_at >= y.created_at {
                    Some(x)
                } else {
                    Some(y)
                },
                None => Some(x),
            }
        } else {
            rest
        }
    }
}

} // verus!
