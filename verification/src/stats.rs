//! The statistics sync: leaderboard pages upserted onto player rows, and
//! the append-only score history that the delta queries read.

use vstd::prelude::*;
use crate::models::{ScoresInfo, ScoreSnapshot};
use crate::store::{
    str_eq, update_player_inactive_spec,
    update_player_score_spec, upsert_player_name_spec, upsert_player_stats_spec, views_of, StatType,
    Store, StoreModel,
};

verus! {

/// One row of a leaderboard statistics page.
pub struct PlayerStatRow {
    pub player_id: i64,
    pub player_name: String,
    pub alliance_tag: Option<String>,
    pub rank: i64,
    pub score: i64,
    pub is_inactive: bool,
    pub is_long_inactive: bool,
}

/// Mathematical value of one leaderboard row.
#[verifier::ext_equal]
pub ghost struct PlayerStatRowModel {
    pub player_id: i64,
    pub player_name: Seq<char>,
    pub alliance_tag: Option<Seq<char>>,
    pub rank: i64,
    pub score: i64,
    pub is_inactive: bool,
    pub is_long_inactive: bool,
}

impl View for PlayerStatRow {
    type V = PlayerStatRowModel;

    open spec fn view(&self) -> PlayerStatRowModel {
        PlayerStatRowModel {
            player_id: self.player_id,
            player_name: self.player_name@,
            alliance_tag: crate::models::opt_str_view(self.alliance_tag),
            rank: self.rank,
            score: self.score,
            is_inactive: self.is_inactive,
            is_long_inactive: self.is_long_inactive,
        }
    }
}

/// One statistics sync payload: the page category and its rows.
pub struct StatsSyncRequest {
    pub stat_type: String,
    pub players: Vec<PlayerStatRow>,
}

/// Mathematical value of a statistics sync payload.
#[verifier::ext_equal]
pub ghost struct StatsSyncRequestModel {
    pub stat_type: Seq<char>,
    pub players: Seq<PlayerStatRowModel>,
}

impl View for StatsSyncRequest {
    type V = StatsSyncRequestModel;

    open spec fn view(&self) -> StatsSyncRequestModel {
        StatsSyncRequestModel { stat_type: self.stat_type@, players: views_of(self.players@) }
    }
}

/// The category a page name denotes, if any.
pub open spec fn stat_type_of(s: Seq<char>) -> Option<StatType> {
    if s == "total"@ {
        Some(StatType::Total)
    } else if s == "fleet"@ {
        Some(StatType::Fleet)
    } else if s == "research"@ {
        Some(StatType::Research)
    } else if s == "buildings"@ {
        Some(StatType::Buildings)
    } else if s == "defense"@ {
        Some(StatType::Defense)
    } else if s == "honor"@ {
        Some(StatType::Honor)
    } else {
        None
    }
}

/// Parses a statistics page name.
pub fn parse_stat_type(s: &str) -> (r: Option<StatType>)
    ensures
        r == stat_type_of(s@),
{
    if str_eq(s, "total") {
        Some(StatType::Total)
    } else if str_eq(s, "fleet") {
        Some(StatType::Fleet)
    } else if str_eq(s, "research") {
        Some(StatType::Research)
    } else if str_eq(s, "buildings") {
        Some(StatType::Buildings)
    } else if str_eq(s, "defense") {
        Some(StatType::Defense)
    } else if str_eq(s, "honor") {
        Some(StatType::Honor)
    } else {
        None
    }
}

/// The history record appended when a total-score page row is ingested.
/// Only the total feeds history, to keep it one row per sync event.
pub open spec fn total_snapshot(row: PlayerStatRowModel, now: i64) -> ScoreSnapshot {
    ScoreSnapshot {
        player_id: row.player_id,
        score_total: row.score,
        score_economy: 0,
        score_research: 0,
        score_military: 0,
        score_defense: 0,
        rank_total: Some(row.rank),
        recorded_at: now,
    }
}

/// What one leaderboard row does to the store: record the name, apply the
/// inactivity information, overwrite the page's score category, and, for
/// the total page only, append to score history.
pub open spec fn apply_stat_row_spec(
    m: StoreModel,
    t: Option<StatType>,
    row: PlayerStatRowModel,
    now: i64,
) -> StoreModel {
    let m1 = upsert_player_name_spec(m, row.player_id, row.player_name, now);
    let m2 = update_player_inactive_spec(m1, row.player_id, row.is_inactive, row.is_long_inactive, now);
    match t {
        Some(tt) => {
            let m3 = update_player_score_spec(m2, row.player_id, tt, row.score, row.rank, now);
            if tt == StatType::Total {
                StoreModel { score_history: m3.score_history.push(total_snapshot(row, now)), ..m3 }
            } else {
                m3
            }
        },
        None => m2,
    }
}

/// The page's rows applied in order.
pub open spec fn apply_stat_rows_spec(
    m: StoreModel,
    t: Option<StatType>,
    l: Seq<PlayerStatRowModel>,
    now: i64,
) -> StoreModel
    decreases l.len(),
{
    if l.len() == 0 {
        m
    } else {
        apply_stat_rows_spec(apply_stat_row_spec(m, t, l[0], now), t, l.skip(1), now)
    }
}

/// What a whole statistics sync does.
pub open spec fn apply_statistics_sync_spec(m: StoreModel, req: StatsSyncRequestModel, now: i64) -> StoreModel {
    apply_stat_rows_spec(m, stat_type_of(req.stat_type), req.players, now)
}

/// Peeling one row off the end of a prefix.
proof fn lemma_stat_rows_snoc(
    m: StoreModel,
    t: Option<StatType>,
    l: Seq<PlayerStatRowModel>,
    i: int,
    now: i64,
)
    requires
        0 <= i < l.len(),
    ensures
        apply_stat_rows_spec(m, t, l.subrange(0, i + 1), now) == apply_stat_row_spec(
            apply_stat_rows_spec(m, t, l.subrange(0, i), now),
            t,
            l[i],
            now,
        ),
    decreases i,
{
    if i == 0 {
        assert(l.subrange(0, 1).skip(1) =~= Seq::<PlayerStatRowModel>::empty());
        assert(l.subrange(0, 0) =~= Seq::<PlayerStatRowModel>::empty());
        assert(l.subrange(0, 1)[0] == l[0]);
        let e = apply_stat_row_spec(m, t, l[0], now);
        assert(apply_stat_rows_spec(m, t, l.subrange(0, 1), now) == apply_stat_rows_spec(
            e,
            t,
            l.subrange(0, 1).skip(1),
            now,
        ));
        assert(apply_stat_rows_spec(e, t, Seq::<PlayerStatRowModel>::empty(), now) == e);
        assert(apply_stat_rows_spec(m, t, Seq::<PlayerStatRowModel>::empty(), now) == m);
    } else {
        let l1 = l.skip(1);
        lemma_stat_rows_snoc(apply_stat_row_spec(m, t, l[0], now), t, l1, i - 1, now);
        assert(l.subrange(0, i + 1)[0] == l[0]);
        assert(l.subrange(0, i)[0] == l[0]);
        assert(l.subrange(0, i + 1).skip(1) =~= l1.subrange(0, i));
        assert(l.subrange(0, i).skip(1) =~= l1.subrange(0, i - 1));
        assert(l1[i - 1] == l[i]);
        let e = apply_stat_row_spec(m, t, l[0], now);
        assert(apply_stat_rows_spec(m, t, l.subrange(0, i + 1), now) == apply_stat_rows_spec(
            e,
            t,
            l1.subrange(0, i),
            now,
        ));
        assert(apply_stat_rows_spec(m, t, l.subrange(0, i), now) == apply_stat_rows_spec(
            e,
            t,
            l1.subrange(0, i - 1),
            now,
        ));
    }
}

/// Applies one leaderboard statistics page: every row's player is
/// upserted by name, inactivity applied, the page's score category
/// overwritten, and — for the `total` page only — a score history record
/// appended per row.  An unknown page name still records names and
/// inactivity, as the boundary accepts such pages.
pub fn apply_statistics_sync(store: &mut Store, req: StatsSyncRequest, now: i64)
    requires
        old(store).wf(),
    ensures
        final(store).wf(),
        final(store)@ == apply_statistics_sync_spec(old(store)@, req@, now),
{
    let ghost m0 = store@;
    let ghost rv = req@;
    let t = parse_stat_type(req.stat_type.as_str());
    let mut i: usize = 0;
    proof {
        assert(rv.players.subrange(0, 0) =~= Seq::<PlayerStatRowModel>::empty());
    }
    while i < req.players.len()
        invariant
            0 <= i <= req.players@.len(),
            rv.players == views_of(req.players@),
            rv.players.len() == req.players@.len(),
            t == stat_type_of(rv.stat_type),
            store.wf(),
            store@ == apply_stat_rows_spec(m0, t, rv.players.subrange(0, i as int), now),
        decreases req.players@.len() - i,
    {
        let ghost before = store@;
        let ghost pv = rv.players[i as int];
        proof {
            assert(pv == req.players@[i as int]@);
        }
        let row = &req.players[i];
        let id = row.player_id;
        store.upsert_player_name(id, row.player_name.clone(), now);
        let ghost e1 = store@;
        store.update_player_inactive(id, row.is_inactive, row.is_long_inactive, now);
        let ghost e2 = store@;
        match t {
            Some(tt) => {
                store.update_player_score(id, tt, row.score, row.rank, now);
                if tt == StatType::Total {
                    store.append_score_snapshot(
                        ScoreSnapshot {
                            player_id: id,
                            score_total: row.score,
                            score_economy: 0,
                            score_research: 0,
                            score_military: 0,
                            score_defense: 0,
                            rank_total: Some(row.rank),
                            recorded_at: now,
                        },
                    );
                }
            },
            None => {},
        }
        proof {
            assert(store@ == apply_stat_row_spec(before, t, pv, now));
            lemma_stat_rows_snoc(m0, t, rv.players, i as int, now);
        }
        i = i + 1;
    }
    proof {
        assert(rv.players.subrange(0, rv.players.len() as int) =~= rv.players);
    }
}

/// One entry of the legacy five-category score sync.
pub struct PlayerStats {
    pub id: i64,
    pub name: String,
    pub alliance_id: Option<i64>,
    pub score_total: i64,
    pub score_economy: i64,
    pub score_research: i64,
    pub score_military: i64,
    pub score_defense: i64,
    pub rank: Option<i64>,
}

/// Mathematical value of one legacy score entry.
#[verifier::ext_equal]
pub ghost struct PlayerStatsModel {
    pub id: i64,
    pub name: Seq<char>,
    pub alliance_id: Option<i64>,
    pub score_total: i64,
    pub score_economy: i64,
    pub score_research: i64,
    pub score_military: i64,
    pub score_defense: i64,
    pub rank: Option<i64>,
}

impl View for PlayerStats {
    type V = PlayerStatsModel;

    open spec fn view(&self) -> PlayerStatsModel {
        PlayerStatsModel {
            id: self.id,
            name: self.name@,
            alliance_id: self.alliance_id,
            score_total: self.score_total,
            score_economy: self.score_economy,
            score_research: self.score_research,
            score_military: self.score_military,
            score_defense: self.score_defense,
            rank: self.rank,
        }
    }
}

/// The five-category snapshot an entry carries.
pub open spec fn entry_scores(e: PlayerStatsModel) -> ScoresInfo {
    ScoresInfo {
        total: e.score_total,
        economy: e.score_economy,
        research: e.score_research,
        military: e.score_military,
        defense: e.score_defense,
    }
}

/// The history record one legacy entry appends.
pub open spec fn entry_snapshot(e: PlayerStatsModel, now: i64) -> ScoreSnapshot {
    ScoreSnapshot {
        player_id: e.id,
        score_total: e.score_total,
        score_economy: e.score_economy,
        score_research: e.score_research,
        score_military: e.score_military,
        score_defense: e.score_defense,
        rank_total: e.rank,
        recorded_at: now,
    }
}

/// The alliance an entry may link, guarded by referential integrity: an
/// unknown alliance is silently not linked rather than failing the batch.
pub open spec fn guarded_alliance(m: StoreModel, a: Option<i64>) -> Option<i64> {
    match a {
        Some(aid) => if m.has_alliance(aid) {
            Some(aid)
        } else {
            None
        },
        None => None,
    }
}

/// What one legacy score entry does: upsert the player (name, guarded
/// alliance link, five-category snapshot) and append a history record.
pub open spec fn apply_score_entry_spec(m: StoreModel, e: PlayerStatsModel, now: i64) -> StoreModel {
    let m1 = upsert_player_stats_spec(
        m,
        e.id,
        e.name,
        guarded_alliance(m, e.alliance_id),
        entry_scores(e),
        now,
    );
    StoreModel { score_history: m1.score_history.push(entry_snapshot(e, now)), ..m1 }
}

/// The entries applied in order.
pub open spec fn apply_score_entries_spec(m: StoreModel, l: Seq<PlayerStatsModel>, now: i64) -> StoreModel
    decreases l.len(),
{
    if l.len() == 0 {
        m
    } else {
        apply_score_entries_spec(apply_score_entry_spec(m, l[0], now), l.skip(1), now)
    }
}

/// Peeling one entry off the end of a prefix.
proof fn lemma_score_entries_snoc(m: StoreModel, l: Seq<PlayerStatsModel>, i: int, now: i64)
    requires
        0 <= i < l.len(),
    ensures
        apply_score_entries_spec(m, l.subrange(0, i + 1), now) == apply_score_entry_spec(
            apply_score_entries_spec(m, l.subrange(0, i), now),
            l[i],
            now,
        ),
    decreases i,
{
    if i == 0 {
        assert(l.subrange(0, 1).skip(1) =~= Seq::<PlayerStatsModel>::empty());
        assert(l.subrange(0, 0) =~= Seq::<PlayerStatsModel>::empty());
        assert(l.subrange(0, 1)[0] == l[0]);
        let e = apply_score_entry_spec(m, l[0], now);
        assert(apply_score_entries_spec(m, l.subrange(0, 1), now) == apply_score_entries_spec(
            e,
            l.subrange(0, 1).skip(1),
            now,
        ));
        assert(apply_score_entries_spec(e, Seq::<PlayerStatsModel>::empty(), now) == e);
        assert(apply_score_entries_spec(m, Seq::<PlayerStatsModel>::empty(), now) == m);
    } else {
        let l1 = l.skip(1);
        lemma_score_entries_snoc(apply_score_entry_spec(m, l[0], now), l1, i - 1, now);
        assert(l.subrange(0, i + 1)[0] == l[0]);
        assert(l.subrange(0, i)[0] == l[0]);
        assert(l.subrange(0, i + 1).skip(1) =~= l1.subrange(0, i));
        assert(l.subrange(0, i).skip(1) =~= l1.subrange(0, i - 1));
        assert(l1[i - 1] == l[i]);
        let e = apply_score_entry_spec(m, l[0], now);
        assert(apply_score_entries_spec(m, l.subrange(0, i + 1), now) == apply_score_entries_spec(
            e,
            l1.subrange(0, i),
            now,
        ));
        assert(apply_score_entries_spec(m, l.subrange(0, i), now) == apply_score_entries_spec(
            e,
            l1.subrange(0, i - 1),
            now,
        ));
    }
}

/// Applies a batch of legacy five-category score entries, appending one
/// score history record per entry; returns how many were applied.
pub fn upsert_stats(store: &mut Store, stats: Vec<PlayerStats>, now: i64) -> (r: u64)
    requires
        old(store).wf(),
        stats@.len() <= 0xffff_ffff_ffff_ffff,
    ensures
        final(store).wf(),
        final(store)@ == apply_score_entries_spec(old(store)@, views_of(stats@), now),
        r == stats@.len(),
{
    let ghost m0 = store@;
    let ghost sv = views_of(stats@);
    let mut count: u64 = 0;
    let mut i: usize = 0;
    proof {
        assert(sv.subrange(0, 0) =~= Seq::<PlayerStatsModel>::empty());
    }
    while i < stats.len()
        invariant
            0 <= i <= stats@.len(),
            sv == views_of(stats@),
            sv.len() == stats@.len(),
            store.wf(),
            store@ == apply_score_entries_spec(m0, sv.subrange(0, i as int), now),
            count == i,
        decreases stats@.len() - i,
    {
        let ghost before = store@;
        let ghost ev = sv[i as int];
        proof {
            assert(ev == stats@[i as int]@);
        }
        let e = &stats[i];
        let alliance = match e.alliance_id {
            Some(aid) => match store.find_alliance(aid) {
                Some(_) => Some(aid),
                None => None,
            },
            None => None,
        };
        proof {
            if e.alliance_id is Some && before.has_alliance(e.alliance_id->0) {
                let w = choose|w: int|
                    0 <= w < before.alliances.len() && before.alliances[w].id == e.alliance_id->0;
            }
            assert(alliance == guarded_alliance(before, ev.alliance_id));
        }
        let scores = ScoresInfo {
            total: e.score_total,
            economy: e.score_economy,
            research: e.score_research,
            military: e.score_military,
            defense: e.score_defense,
        };
        store.upsert_player_stats(e.id, e.name.clone(), alliance, scores, now);
        store.append_score_snapshot(
            ScoreSnapshot {
                player_id: e.id,
                score_total: e.score_total,
                score_economy: e.score_economy,
                score_research: e.score_research,
                score_military: e.score_military,
                score_defense: e.score_defense,
                rank_total: e.rank,
                recorded_at: now,
            },
        );
        count = count + 1;
        proof {
            assert(store@ == apply_score_entry_spec(before, ev, now));
            lemma_score_entries_snoc(m0, sv, i as int, now);
        }
        i = i + 1;
    }
    proof {
        assert(sv.subrange(0, sv.len() as int) =~= sv);
    }
    count
}

} // verus!
