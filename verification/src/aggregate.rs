//! The aggregation engine: read-only derived views over the reconciled
//! state — score deltas over fixed lookback windows, activity statistics,
//! leaderboard maxima, distance calculation and periodic-sync freshness.

use vstd::prelude::*;
use crate::models::{count_of, CountEntry, CountMap, ScoreSnapshot};
use crate::rowseq::{lemma_upsert_found, lemma_upsert_none, no_match, upsert_seq};
use crate::store::{views_of, BattleReport, ExpeditionReport, RecycleReport, StatView};

verus! {

/// The absolute value of an integer.
pub open spec fn abs(v: int) -> int {
    if v < 0 {
        -v
    } else {
        v
    }
}

/// The distance between two coordinate triples, piecewise by difference:
/// different galaxy, same galaxy different system, same system different
/// position, identical position.
pub open spec fn distance_spec(fg: int, fs: int, fp: int, tg: int, ts: int, tp: int) -> int {
    if fg != tg {
        20000 * abs(fg - tg)
    } else if fs != ts {
        2700 + 95 * abs(fs - ts)
    } else if fp != tp {
        1000 + 5 * abs(fp - tp)
    } else {
        5
    }
}

/// Calculates the static distance estimate between two coordinate
/// triples.  No randomization: this sorts targets for display, it is not
/// flight-time physics.
pub fn calculate_distance(
    from_galaxy: i64,
    from_system: i64,
    from_planet: i64,
    to_galaxy: i64,
    to_system: i64,
    to_planet: i64,
) -> (r: i64)
    requires
        -1000000 <= from_galaxy <= 1000000,
        -1000000 <= from_system <= 1000000,
        -1000000 <= from_planet <= 1000000,
        -1000000 <= to_galaxy <= 1000000,
        -1000000 <= to_system <= 1000000,
        -1000000 <= to_planet <= 1000000,
    ensures
        r == distance_spec(
            from_galaxy as int,
            from_system as int,
            from_planet as int,
            to_galaxy as int,
            to_system as int,
            to_planet as int,
        ),
{
    if from_galaxy != to_galaxy {
        let d = if from_galaxy >= to_galaxy {
            from_galaxy - to_galaxy
        } else {
            to_galaxy - from_galaxy
        };
        20000 * d
    } else if from_system != to_system {
        let d = if from_system >= to_system {
            from_system - to_system
        } else {
            to_system - from_system
        };
        2700 + 95 * d
    } else if from_planet != to_planet {
        let d = if from_planet >= to_planet {
            from_planet - to_planet
        } else {
            to_planet - from_planet
        };
        1000 + 5 * d
    } else {
        5
    }
}

/// Addition clamped to the i64 range.
pub open spec fn sat_add_i64(a: int, b: int) -> int {
    if a + b > 0x7fff_ffff_ffff_ffff {
        0x7fff_ffff_ffff_ffff
    } else if a + b < -0x8000_0000_0000_0000 {
        -0x8000_0000_0000_0000
    } else {
        a + b
    }
}

/// Subtraction clamped to the i64 range.
pub open spec fn sat_sub_i64(a: int, b: int) -> int {
    if a - b > 0x7fff_ffff_ffff_ffff {
        0x7fff_ffff_ffff_ffff
    } else if a - b < -0x8000_0000_0000_0000 {
        -0x8000_0000_0000_0000
    } else {
        a - b
    }
}

/// Saturating addition.
pub fn sat_add(a: i64, b: i64) -> (r: i64)
    ensures
        r == sat_add_i64(a as int, b as int),
{
    if b >= 0 {
        if a > 0x7fff_ffff_ffff_ffffi64 - b {
            0x7fff_ffff_ffff_ffffi64
        } else {
            a + b
        }
    } else {
        if a < (-0x7fff_ffff_ffff_ffffi64 - 1) - b {
            -0x7fff_ffff_ffff_ffffi64 - 1
        } else {
            a + b
        }
    }
}

/// Saturating subtraction.
pub fn sat_sub(a: i64, b: i64) -> (r: i64)
    ensures
        r == sat_sub_i64(a as int, b as int),
{
    if b <= 0 {
        if b == -0x7fff_ffff_ffff_ffffi64 - 1 {
            if a >= -1 {
                0x7fff_ffff_ffff_ffffi64
            } else {
                a - b
            }
        } else if a > 0x7fff_ffff_ffff_ffffi64 + b {
            0x7fff_ffff_ffff_ffffi64
        } else {
            a - b
        }
    } else {
        if a < (-0x7fff_ffff_ffff_ffffi64 - 1) + b {
            -0x7fff_ffff_ffff_ffffi64 - 1
        } else {
            a - b
        }
    }
}

// ===========================================================================
// Score deltas (fixed lookback windows)
// ===========================================================================

/// The most recent history record of a player at or before a cutoff;
/// among records with the same time, the last ingested wins.
pub open spec fn best_snapshot(h: Seq<ScoreSnapshot>, pid: i64, cutoff: i64) -> Option<ScoreSnapshot>
    decreases h.len(),
{
    if h.len() == 0 {
        None
    } else {
        let rest = best_snapshot(h.drop_last(), pid, cutoff);
        let x = h.last();
        if x.player_id == pid && x.recorded_at <= cutoff {
            match rest {
                Some(y) => if x.recorded_at >= y.recorded_at {
                    Some(x)
                } else {
                    Some(y)
                },
                None => Some(x),
            }
        } else {
            rest
        }
    }
}

/// Finds the most recent history record of a player at or before the
/// cutoff.
pub fn latest_snapshot_at_or_before(h: &Vec<ScoreSnapshot>, pid: i64, cutoff: i64) -> (r: Option<
    ScoreSnapshot,
>)
    ensures
        r == best_snapshot(h@, pid, cutoff),
{
    let mut best: Option<ScoreSnapshot> = None;
    let mut i: usize = 0;
    proof {
        assert(h@.take(0) =~= Seq::<ScoreSnapshot>::empty());
    }
    while i < h.len()
        invariant
            0 <= i <= h@.len(),
            best == best_snapshot(h@.take(i as int), pid, cutoff),
        decreases h@.len() - i,
    {
        let x = h[i];
        proof {
            assert(h@.take(i + 1).drop_last() =~= h@.take(i as int));
            assert(h@.take(i + 1).last() == h@[i as int]);
        }
        if x.player_id == pid && x.recorded_at <= cutoff {
            match best {
                Some(y) => {
                    if x.recorded_at >= y.recorded_at {
                        best = Some(x);
                    }
                },
                None => {
                    best = Some(x);
                },
            }
        }
        i = i + 1;
    }
    proof {
        assert(h@.take(h@.len() as int) =~= h@);
    }
    best
}

/// The score delta over one lookback window: the current total minus the
/// most recent total recorded at or before `now - window`; absent history
/// yields an absent delta, never zero.
pub open spec fn delta_spec(
    h: Seq<ScoreSnapshot>,
    pid: i64,
    current_total: i64,
    now: i64,
    window: i64,
) -> Option<i64> {
    match best_snapshot(h, pid, (now - window) as i64) {
        Some(s) => Some(sat_sub_i64(current_total as int, s.score_total as int) as i64),
        None => None,
    }
}

/// Computes the score delta over one lookback window.
pub fn score_delta(
    h: &Vec<ScoreSnapshot>,
    pid: i64,
    current_total: i64,
    now: i64,
    window: i64,
) -> (r: Option<i64>)
    requires
        0 <= window,
        -0x8000_0000_0000_0000 <= now - window,
    ensures
        r == delta_spec(h@, pid, current_total, now, window),
{
    let cutoff = now - window;
    match latest_snapshot_at_or_before(h, pid, cutoff) {
        Some(s) => Some(sat_sub(current_total, s.score_total)),
        None => None,
    }
}

/// The four fixed lookback windows, in seconds: 6, 12, 18 and 24 hours.
pub open spec fn window_seconds(k: int) -> i64 {
    if k == 0 {
        21600
    } else if k == 1 {
        43200
    } else if k == 2 {
        64800
    } else {
        86400
    }
}

/// The deltas over the four fixed windows.
pub struct ScoreDeltas {
    pub diff06: Option<i64>,
    pub diff12: Option<i64>,
    pub diff18: Option<i64>,
    pub diff24: Option<i64>,
}

/// Computes the deltas over the four fixed lookback windows.
pub fn score_deltas(h: &Vec<ScoreSnapshot>, pid: i64, current_total: i64, now: i64) -> (r: ScoreDeltas)
    requires
        -0x8000_0000_0000_0000 + 86400 <= now,
    ensures
        r.diff06 == delta_spec(h@, pid, current_total, now, 21600),
        r.diff12 == delta_spec(h@, pid, current_total, now, 43200),
        r.diff18 == delta_spec(h@, pid, current_total, now, 64800),
        r.diff24 == delta_spec(h@, pid, current_total, now, 86400),
{
    ScoreDeltas {
        diff06: score_delta(h, pid, current_total, now, 21600),
        diff12: score_delta(h, pid, current_total, now, 43200),
        diff18: score_delta(h, pid, current_total, now, 64800),
        diff24: score_delta(h, pid, current_total, now, 86400),
    }
}

// ===========================================================================
// Activity statistics (expeditions, raids, recycling)
// ===========================================================================

/// Lifetime and rolling-24-hour tallies of one activity, with the summed
/// resource fields and the normalized points figure.
#[derive(Clone, Copy, Debug, PartialEq, Eq, Structural)]
pub struct ActivityStats {
    pub count: i64,
    pub count_24h: i64,
    pub metal: i64,
    pub crystal: i64,
    pub deuterium: i64,
    pub points: i64,
}

/// Division by a positive divisor, truncated toward zero.
pub open spec fn div_trunc(a: int, b: int) -> int {
    if a >= 0 {
        a / b
    } else {
        -((-a) / b)
    }
}

/// Divides by one thousand, truncating toward zero.
pub fn div1000(v: i64) -> (r: i64)
    ensures
        r == div_trunc(v as int, 1000),
{
    if v >= 0 {
        v / 1000
    } else if v == -0x7fff_ffff_ffff_ffffi64 - 1 {
        let q = (-(v + 1000)) / 1000;
        proof {
            assert(v as int == -0x8000_0000_0000_0000);
        }
        -q - 1
    } else {
        -((-v) / 1000)
    }
}

/// The amount of one resource an expedition report brought home.
pub open spec fn expo_amount(r: crate::store::ExpeditionReportModel, id: u64) -> int {
    match r.resources {
        Some(m) => (match count_of(m, id) {
            Some(v) => v as int,
            None => 0,
        }),
        None => 0,
    }
}

/// Whether an expedition report counts for this reporter under the
/// optional 24-hour restriction on ingestion time.
pub open spec fn expo_selected(
    r: crate::store::ExpeditionReportModel,
    pid: i64,
    cutoff: i64,
    restrict: bool,
) -> bool {
    r.reported_by == Some(pid) && (!restrict || r.created_at > cutoff)
}

/// How many expedition reports count.
pub open spec fn expo_count(
    l: Seq<crate::store::ExpeditionReportModel>,
    pid: i64,
    cutoff: i64,
    restrict: bool,
) -> int
    decreases l.len(),
{
    if l.len() == 0 {
        0
    } else {
        expo_count(l.drop_last(), pid, cutoff, restrict) + (if expo_selected(
            l.last(),
            pid,
            cutoff,
            restrict,
        ) {
            1int
        } else {
            0int
        })
    }
}

/// The saturating sum of one resource over the counted reports.
pub open spec fn expo_sum(
    l: Seq<crate::store::ExpeditionReportModel>,
    pid: i64,
    cutoff: i64,
    restrict: bool,
    id: u64,
) -> int
    decreases l.len(),
{
    if l.len() == 0 {
        0
    } else if expo_selected(l.last(), pid, cutoff, restrict) {
        sat_add_i64(expo_sum(l.drop_last(), pid, cutoff, restrict, id), expo_amount(l.last(), id))
    } else {
        expo_sum(l.drop_last(), pid, cutoff, restrict, id)
    }
}

/// Computes expedition activity statistics for one reporter: lifetime (or
/// 24-hour-restricted) count, the rolling 24-hour count, the summed
/// metal/crystal/deuterium finds, and `points = (m + c + d) / 1000`.
pub fn expo_stats(reports: &Vec<ExpeditionReport>, pid: i64, now: i64, last_24h: bool) -> (r:
    ActivityStats)
    requires
        -0x8000_0000_0000_0000 + 86400 <= now,
        reports@.len() < 0x7fff_ffff_ffff_ffff,
    ensures
        r.count == expo_count(views_of(reports@), pid, (now - 86400) as i64, last_24h),
        r.count_24h == expo_count(views_of(reports@), pid, (now - 86400) as i64, true),
        r.metal == expo_sum(views_of(reports@), pid, (now - 86400) as i64, last_24h, 901),
        r.crystal == expo_sum(views_of(reports@), pid, (now - 86400) as i64, last_24h, 902),
        r.deuterium == expo_sum(views_of(reports@), pid, (now - 86400) as i64, last_24h, 903),
        r.points == div_trunc(
            sat_add_i64(sat_add_i64(r.metal as int, r.crystal as int), r.deuterium as int),
            1000,
        ),
{
    let cutoff = now - 86400;
    let ghost rv = views_of(reports@);
    let mut count: i64 = 0;
    let mut count_24h: i64 = 0;
    let mut metal: i64 = 0;
    let mut crystal: i64 = 0;
    let mut deuterium: i64 = 0;
    let mut i: usize = 0;
    proof {
        assert(rv.take(0) =~= Seq::<crate::store::ExpeditionReportModel>::empty());
    }
    while i < reports.len()
        invariant
            0 <= i <= reports@.len(),
            rv == views_of(reports@),
            rv.len() == reports@.len(),
            rv.len() < 0x7fff_ffff_ffff_ffff,
            count == expo_count(rv.take(i as int), pid, cutoff, last_24h),
            count_24h == expo_count(rv.take(i as int), pid, cutoff, true),
            metal == expo_sum(rv.take(i as int), pid, cutoff, last_24h, 901),
            crystal == expo_sum(rv.take(i as int), pid, cutoff, last_24h, 902),
            deuterium == expo_sum(rv.take(i as int), pid, cutoff, last_24h, 903),
            0 <= count <= i,
            0 <= count_24h <= i,
        decreases reports@.len() - i,
    {
        let r = &reports[i];
        proof {
            assert(rv.take(i + 1).drop_last() =~= rv.take(i as int));
            assert(rv.take(i + 1).last() == rv[i as int]);
            assert(rv[i as int] == reports@[i as int]@);
        }
        let in_24h = r.created_at > cutoff;
        let matches_reporter = match r.reported_by {
            Some(p) => p == pid,
            None => false,
        };
        let selected = matches_reporter && (!last_24h || in_24h);
        proof {
            assert(selected == expo_selected(rv[i as int], pid, cutoff, last_24h));
            assert((matches_reporter && in_24h) == expo_selected(rv[i as int], pid, cutoff, true));
        }
        if selected {
            count = count + 1;
            let m = match &r.resources {
                Some(map) => match crate::models::count_map_get(map, 901) {
                    Some(v) => v,
                    None => 0,
                },
                None => 0,
            };
            let c = match &r.resources {
                Some(map) => match crate::models::count_map_get(map, 902) {
                    Some(v) => v,
                    None => 0,
                },
                None => 0,
            };
            let d = match &r.resources {
                Some(map) => match crate::models::count_map_get(map, 903) {
                    Some(v) => v,
                    None => 0,
                },
                None => 0,
            };
            proof {
                assert(m == expo_amount(rv[i as int], 901));
                assert(c == expo_amount(rv[i as int], 902));
                assert(d == expo_amount(rv[i as int], 903));
            }
            metal = sat_add(metal, m);
            crystal = sat_add(crystal, c);
            deuterium = sat_add(deuterium, d);
        }
        if matches_reporter && in_24h {
            count_24h = count_24h + 1;
        }
        i = i + 1;
    }
    proof {
        assert(rv.take(rv.len() as int) =~= rv);
    }
    let points = div1000(sat_add(sat_add(metal, crystal), deuterium));
    ActivityStats { count, count_24h, metal, crystal, deuterium, points }
}

/// Whether a battle report counts for this reporter under the optional
/// 24-hour restriction on ingestion time.
pub open spec fn raid_selected(r: BattleReport, pid: i64, cutoff: i64, restrict: bool) -> bool {
    r.reported_by == Some(pid) && (!restrict || r.created_at > cutoff)
}

/// How many battle reports count.
pub open spec fn raid_count(l: Seq<BattleReport>, pid: i64, cutoff: i64, restrict: bool) -> int
    decreases l.len(),
{
    if l.len() == 0 {
        0
    } else {
        raid_count(l.drop_last(), pid, cutoff, restrict) + (if raid_selected(
            l.last(),
            pid,
            cutoff,
            restrict,
        ) {
            1int
        } else {
            0int
        })
    }
}

/// Which plundered resource a raid sum tallies.
#[derive(Clone, Copy, Debug, PartialEq, Eq, Structural)]
pub enum RaidResource {
    Metal,
    Crystal,
    Deuterium,
}

/// The tallied amount of one battle report.
pub open spec fn raid_amount(r: BattleReport, which: RaidResource) -> int {
    match which {
        RaidResource::Metal => r.metal as int,
        RaidResource::Crystal => r.crystal as int,
        RaidResource::Deuterium => r.deuterium as int,
    }
}

/// The saturating sum of one plundered resource over the counted reports.
pub open spec fn raid_sum(
    l: Seq<BattleReport>,
    pid: i64,
    cutoff: i64,
    restrict: bool,
    which: RaidResource,
) -> int
    decreases l.len(),
{
    if l.len() == 0 {
        0
    } else if raid_selected(l.last(), pid, cutoff, restrict) {
        sat_add_i64(raid_sum(l.drop_last(), pid, cutoff, restrict, which), raid_amount(l.last(), which))
    } else {
        raid_sum(l.drop_last(), pid, cutoff, restrict, which)
    }
}

/// Computes raid activity statistics for one reporter from its battle
/// reports: counts and the summed plundered resources, with
/// `points = (m + c + d) / 1000`.
pub fn raid_stats(reports: &Vec<BattleReport>, pid: i64, now: i64, last_24h: bool) -> (r:
    ActivityStats)
    requires
        -0x8000_0000_0000_0000 + 86400 <= now,
        reports@.len() < 0x7fff_ffff_ffff_ffff,
    ensures
        r.count == raid_count(reports@, pid, (now - 86400) as i64, last_24h),
        r.count_24h == raid_count(reports@, pid, (now - 86400) as i64, true),
        r.metal == raid_sum(reports@, pid, (now - 86400) as i64, last_24h, RaidResource::Metal),
        r.crystal == raid_sum(reports@, pid, (now - 86400) as i64, last_24h, RaidResource::Crystal),
        r.deuterium == raid_sum(
            reports@,
            pid,
            (now - 86400) as i64,
            last_24h,
            RaidResource::Deuterium,
        ),
        r.points == div_trunc(
            sat_add_i64(sat_add_i64(r.metal as int, r.crystal as int), r.deuterium as int),
            1000,
        ),
{
    let cutoff = now - 86400;
    let mut count: i64 = 0;
    let mut count_24h: i64 = 0;
    let mut metal: i64 = 0;
    let mut crystal: i64 = 0;
    let mut deuterium: i64 = 0;
    let mut i: usize = 0;
    proof {
        assert(reports@.take(0) =~= Seq::<BattleReport>::empty());
    }
    while i < reports.len()
        invariant
            0 <= i <= reports@.len(),
            reports@.len() < 0x7fff_ffff_ffff_ffff,
            count == raid_count(reports@.take(i as int), pid, cutoff, last_24h),
            count_24h == raid_count(reports@.take(i as int), pid, cutoff, true),
            metal == raid_sum(reports@.take(i as int), pid, cutoff, last_24h, RaidResource::Metal),
            crystal == raid_sum(
                reports@.take(i as int),
                pid,
                cutoff,
                last_24h,
                RaidResource::Crystal,
            ),
            deuterium == raid_sum(
                reports@.take(i as int),
                pid,
                cutoff,
                last_24h,
                RaidResource::Deuterium,
            ),
            0 <= count <= i,
            0 <= count_24h <= i,
        decreases reports@.len() - i,
    {
        let r = reports[i];
        proof {
            assert(reports@.take(i + 1).drop_last() =~= reports@.take(i as int));
            assert(reports@.take(i + 1).last() == reports@[i as int]);
        }
        let in_24h = r.created_at > cutoff;
        let matches_reporter = match r.reported_by {
            Some(p) => p == pid,
            None => false,
        };
        let selected = matches_reporter && (!last_24h || in_24h);
        proof {
            assert(selected == raid_selected(reports@[i as int], pid, cutoff, last_24h));
        }
        if selected {
            count = count + 1;
            metal = sat_add(metal, r.metal);
            crystal = sat_add(crystal, r.crystal);
            deuterium = sat_add(deuterium, r.deuterium);
        }
        if matches_reporter && in_24h {
            count_24h = count_24h + 1;
        }
        i = i + 1;
    }
    proof {
        assert(reports@.take(reports@.len() as int) =~= reports@);
    }
    let points = div1000(sat_add(sat_add(metal, crystal), deuterium));
    ActivityStats { count, count_24h, metal, crystal, deuterium, points }
}

/// Whether a recycle report counts for this reporter under the optional
/// 24-hour restriction on ingestion time.
pub open spec fn recycle_selected(r: RecycleReport, pid: i64, cutoff: i64, restrict: bool) -> bool {
    r.reported_by == Some(pid) && (!restrict || r.created_at > cutoff)
}

/// How many recycle reports count.
pub open spec fn recycle_count(l: Seq<RecycleReport>, pid: i64, cutoff: i64, restrict: bool) -> int
    decreases l.len(),
{
    if l.len() == 0 {
        0
    } else {
        recycle_count(l.drop_last(), pid, cutoff, restrict) + (if recycle_selected(
            l.last(),
            pid,
            cutoff,
            restrict,
        ) {
            1int
        } else {
            0int
        })
    }
}

/// The tallied amount of one recycle report.
pub open spec fn recycle_amount(r: RecycleReport, metal: bool) -> int {
    if metal {
        r.metal as int
    } else {
        r.crystal as int
    }
}

/// The saturating sum of one harvested resource over the counted reports.
pub open spec fn recycle_sum(
    l: Seq<RecycleReport>,
    pid: i64,
    cutoff: i64,
    restrict: bool,
    metal: bool,
) -> int
    decreases l.len(),
{
    if l.len() == 0 {
        0
    } else if recycle_selected(l.last(), pid, cutoff, restrict) {
        sat_add_i64(
            recycle_sum(l.drop_last(), pid, cutoff, restrict, metal),
            recycle_amount(l.last(), metal),
        )
    } else {
        recycle_sum(l.drop_last(), pid, cutoff, restrict, metal)
    }
}

/// Computes recycling activity statistics for one reporter: counts and
/// the summed metal and crystal; recycling has no deuterium, so
/// `points = (m + c) / 1000`.
pub fn recycle_stats(reports: &Vec<RecycleReport>, pid: i64, now: i64, last_24h: bool) -> (r:
    ActivityStats)
    requires
        -0x8000_0000_0000_0000 + 86400 <= now,
        reports@.len() < 0x7fff_ffff_ffff_ffff,
    ensures
        r.count == recycle_count(reports@, pid, (now - 86400) as i64, last_24h),
        r.count_24h == recycle_count(reports@, pid, (now - 86400) as i64, true),
        r.metal == recycle_sum(reports@, pid, (now - 86400) as i64, last_24h, true),
        r.crystal == recycle_sum(reports@, pid, (now - 86400) as i64, last_24h, false),
        r.deuterium == 0,
        r.points == div_trunc(sat_add_i64(r.metal as int, r.crystal as int), 1000),
{
    let cutoff = now - 86400;
    let mut count: i64 = 0;
    let mut count_24h: i64 = 0;
    let mut metal: i64 = 0;
    let mut crystal: i64 = 0;
    let mut i: usize = 0;
    proof {
        assert(reports@.take(0) =~= Seq::<RecycleReport>::empty());
    }
    while i < reports.len()
        invariant
            0 <= i <= reports@.len(),
            reports@.len() < 0x7fff_ffff_ffff_ffff,
            count == recycle_count(reports@.take(i as int), pid, cutoff, last_24h),
            count_24h == recycle_count(reports@.take(i as int), pid, cutoff, true),
            metal == recycle_sum(reports@.take(i as int), pid, cutoff, last_24h, true),
            crystal == recycle_sum(reports@.take(i as int), pid, cutoff, last_24h, false),
            0 <= count <= i,
            0 <= count_24h <= i,
        decreases reports@.len() - i,
    {
        let r = reports[i];
        proof {
            assert(reports@.take(i + 1).drop_last() =~= reports@.take(i as int));
            assert(reports@.take(i + 1).last() == reports@[i as int]);
        }
        let in_24h = r.created_at > cutoff;
        let matches_reporter = match r.reported_by {
            Some(p) => p == pid,
            None => false,
        };
        let selected = matches_reporter && (!last_24h || in_24h);
        if selected {
            count = count + 1;
            metal = sat_add(metal, r.metal);
            crystal = sat_add(crystal, r.crystal);
        }
        if matches_reporter && in_24h {
            count_24h = count_24h + 1;
        }
        i = i + 1;
    }
    proof {
        assert(reports@.take(reports@.len() as int) =~= reports@);
    }
    let points = div1000(sat_add(metal, crystal));
    ActivityStats { count, count_24h, metal, crystal, deuterium: 0, points }
}

// ===========================================================================
// Sync freshness and scan age
// ===========================================================================

/// A periodic sync is current when its last-recorded time falls within
/// the same fixed 6-hour bucket as now: buckets start at hours 0, 6, 12
/// and 18 of the current day, UTC — not a rolling window.
pub open spec fn is_synced_spec(last_sync: Option<i64>, now: i64) -> bool {
    match last_sync {
        Some(t) => t >= (now / 21600) * 21600,
        None => false,
    }
}

/// Decides periodic-sync freshness against the fixed 6-hour buckets.
pub fn is_synced(last_sync: Option<i64>, now: i64) -> (r: bool)
    requires
        now >= 0,
    ensures
        r == is_synced_spec(last_sync, now),
{
    match last_sync {
        Some(t) => t >= (now / 21600) * 21600,
        None => false,
    }
}

/// The freshness decision for one tracked sync kind.
pub fn stat_view_synced(v: &StatView, now: i64) -> (r: bool)
    requires
        now >= 0,
    ensures
        r == is_synced_spec(v.last_sync_at, now),
{
    is_synced(v.last_sync_at, now)
}

/// The whole hours elapsed since a scan, truncated toward zero.
pub fn age_hours(last_scan: i64, now: i64) -> (r: i64)
    requires
        -0x4000_0000_0000_0000 < last_scan < 0x4000_0000_0000_0000,
        -0x4000_0000_0000_0000 < now < 0x4000_0000_0000_0000,
    ensures
        r == (now - last_scan) / 3600 + (if (now - last_scan) % 3600 != 0 && now < last_scan {
            1int
        } else {
            0int
        }),
{
    let diff = now - last_scan;
    if diff >= 0 {
        diff / 3600
    } else {
        -((-diff) / 3600)
    }
}

// ===========================================================================
// Pagination
// ===========================================================================

/// How many pages a listing spans at a page size.
pub open spec fn total_pages_spec(total: int, page_size: int) -> int {
    (total + page_size - 1) / page_size
}

/// Computes the page count of a listing.
pub fn total_pages(total: i64, page_size: i64) -> (r: i64)
    requires
        0 <= total < 0x7fff_ffff_ffff_0000,
        0 < page_size < 0x10000,
    ensures
        r == total_pages_spec(total as int, page_size as int),
{
    (total + page_size - 1) / page_size
}

// ===========================================================================
// Leaderboard maxima
// ===========================================================================

/// One row feeding a leaderboard: a holder name and a count mapping.
pub struct LeaderRow {
    pub name: String,
    pub map: Option<CountMap>,
}

/// Mathematical value of a leaderboard input row.
#[verifier::ext_equal]
pub ghost struct LeaderRowModel {
    pub name: Seq<char>,
    pub map: Option<Seq<CountEntry>>,
}

impl View for LeaderRow {
    type V = LeaderRowModel;

    open spec fn view(&self) -> LeaderRowModel {
        LeaderRowModel { name: self.name@, map: crate::models::opt_map_view(self.map) }
    }
}

/// One leaderboard result entry: the highest level seen for an id and the
/// first-observed holder of that level.
pub struct MaxEntry {
    pub id: u64,
    pub max_level: i64,
    pub player_name: String,
}

/// Mathematical value of a leaderboard result entry.
#[verifier::ext_equal]
pub ghost struct MaxEntryModel {
    pub id: u64,
    pub max_level: i64,
    pub player_name: Seq<char>,
}

impl View for MaxEntry {
    type V = MaxEntryModel;

    open spec fn view(&self) -> MaxEntryModel {
        MaxEntryModel { id: self.id, max_level: self.max_level, player_name: self.player_name@ }
    }
}

/// Merging one observation into the accumulated maxima: a strictly
/// higher level takes the entry over; ties keep the first-seen holder.
pub open spec fn max_merge(level: i64, name: Seq<char>) -> spec_fn(MaxEntryModel) -> MaxEntryModel {
    |e: MaxEntryModel|
        if level > e.max_level {
            MaxEntryModel { id: e.id, max_level: level, player_name: name }
        } else {
            e
        }
}

/// One observation folded into the accumulated maxima.
pub open spec fn fold_observation(
    acc: Seq<MaxEntryModel>,
    id: u64,
    level: i64,
    name: Seq<char>,
) -> Seq<MaxEntryModel> {
    upsert_seq(
        acc,
        |e: MaxEntryModel| e.id == id,
        max_merge(level, name),
        MaxEntryModel { id: id, max_level: level, player_name: name },
    )
}

/// One row's observations folded in, in entry order.
pub open spec fn fold_row_entries(
    acc: Seq<MaxEntryModel>,
    entries: Seq<CountEntry>,
    name: Seq<char>,
) -> Seq<MaxEntryModel>
    decreases entries.len(),
{
    if entries.len() == 0 {
        acc
    } else {
        fold_row_entries(
            fold_observation(acc, entries[0].id, entries[0].n, name),
            entries.skip(1),
            name,
        )
    }
}

/// All rows folded in, in row order.  Row order is the store's stable row
/// order, which makes the first-seen tie-break deterministic.
pub open spec fn fold_rows(acc: Seq<MaxEntryModel>, rows: Seq<LeaderRowModel>) -> Seq<MaxEntryModel>
    decreases rows.len(),
{
    if rows.len() == 0 {
        acc
    } else {
        fold_rows(
            (match rows[0].map {
                Some(entries) => fold_row_entries(acc, entries, rows[0].name),
                None => acc,
            }),
            rows.skip(1),
        )
    }
}

/// Peeling one row off the end of a prefix.
proof fn lemma_fold_rows_snoc(acc: Seq<MaxEntryModel>, rows: Seq<LeaderRowModel>, i: int)
    requires
        0 <= i < rows.len(),
    ensures
        fold_rows(acc, rows.subrange(0, i + 1)) == (match rows[i].map {
            Some(entries) => fold_row_entries(fold_rows(acc, rows.subrange(0, i)), entries, rows[i].name),
            None => fold_rows(acc, rows.subrange(0, i)),
        }),
    decreases i,
{
    if i == 0 {
        assert(rows.subrange(0, 1).skip(1) =~= Seq::<LeaderRowModel>::empty());
        assert(rows.subrange(0, 0) =~= Seq::<LeaderRowModel>::empty());
        assert(rows.subrange(0, 1)[0] == rows[0]);
        let e = match rows[0].map {
            Some(entries) => fold_row_entries(acc, entries, rows[0].name),
            None => acc,
        };
        assert(fold_rows(acc, rows.subrange(0, 1)) == fold_rows(e, rows.subrange(0, 1).skip(1)));
        assert(fold_rows(e, Seq::<LeaderRowModel>::empty()) == e);
        assert(fold_rows(acc, Seq::<LeaderRowModel>::empty()) == acc);
    } else {
        let l1 = rows.skip(1);
        let e = match rows[0].map {
            Some(entries) => fold_row_entries(acc, entries, rows[0].name),
            None => acc,
        };
        lemma_fold_rows_snoc(e, l1, i - 1);
        assert(rows.subrange(0, i + 1)[0] == rows[0]);
        assert(rows.subrange(0, i)[0] == rows[0]);
        assert(rows.subrange(0, i + 1).skip(1) =~= l1.subrange(0, i));
        assert(rows.subrange(0, i).skip(1) =~= l1.subrange(0, i - 1));
        assert(l1[i - 1] == rows[i]);
        assert(fold_rows(acc, rows.subrange(0, i + 1)) == fold_rows(e, l1.subrange(0, i)));
        assert(fold_rows(acc, rows.subrange(0, i)) == fold_rows(e, l1.subrange(0, i - 1)));
    }
}

/// Peeling one observation off the end of a prefix of a row's entries.
proof fn lemma_fold_entries_snoc(
    acc: Seq<MaxEntryModel>,
    entries: Seq<CountEntry>,
    name: Seq<char>,
    i: int,
)
    requires
        0 <= i < entries.len(),
    ensures
        fold_row_entries(acc, entries.subrange(0, i + 1), name) == fold_observation(
            fold_row_entries(acc, entries.subrange(0, i), name),
            entries[i].id,
            entries[i].n,
            name,
        ),
    decreases i,
{
    if i == 0 {
        assert(entries.subrange(0, 1).skip(1) =~= Seq::<CountEntry>::empty());
        assert(entries.subrange(0, 0) =~= Seq::<CountEntry>::empty());
        assert(entries.subrange(0, 1)[0] == entries[0]);
        let e = fold_observation(acc, entries[0].id, entries[0].n, name);
        assert(fold_row_entries(acc, entries.subrange(0, 1), name) == fold_row_entries(
            e,
            entries.subrange(0, 1).skip(1),
            name,
        ));
        assert(fold_row_entries(e, Seq::<CountEntry>::empty(), name) == e);
        assert(fold_row_entries(acc, Seq::<CountEntry>::empty(), name) == acc);
    } else {
        let l1 = entries.skip(1);
        let e = fold_observation(acc, entries[0].id, entries[0].n, name);
        lemma_fold_entries_snoc(e, l1, name, i - 1);
        assert(entries.subrange(0, i + 1)[0] == entries[0]);
        assert(entries.subrange(0, i)[0] == entries[0]);
        assert(entries.subrange(0, i + 1).skip(1) =~= l1.subrange(0, i));
        assert(entries.subrange(0, i).skip(1) =~= l1.subrange(0, i - 1));
        assert(l1[i - 1] == entries[i]);
        assert(fold_row_entries(acc, entries.subrange(0, i + 1), name) == fold_row_entries(
            e,
            l1.subrange(0, i),
            name,
        ));
        assert(fold_row_entries(acc, entries.subrange(0, i), name) == fold_row_entries(
            e,
            l1.subrange(0, i - 1),
            name,
        ));
    }
}

/// Index of the accumulated entry for an id, if any.
fn find_max_entry(acc: &Vec<MaxEntry>, id: u64) -> (r: Option<usize>)
    ensures
        (match r {
            Some(i) => i < acc@.len() && views_of(acc@)[i as int].id == id && (forall|l: int|
                0 <= l < i ==> views_of(acc@)[l].id != id),
            None => forall|l: int| 0 <= l < acc@.len() ==> views_of(acc@)[l].id != id,
        }),
{
    let mut k: usize = 0;
    while k < acc.len()
        invariant
            0 <= k <= acc@.len(),
            forall|l: int| 0 <= l < k ==> views_of(acc@)[l].id != id,
        decreases acc@.len() - k,
    {
        if acc[k].id == id {
            proof {
                assert(views_of(acc@)[k as int].id == id);
            }
            return Some(k);
        }
        k = k + 1;
    }
    None
}

/// Computes per-id maxima across all rows' decoded mappings: for each id
/// the highest level seen and the holder's name; ties keep the
/// first-seen holder in stable row order.
pub fn max_levels(rows: &Vec<LeaderRow>) -> (r: Vec<MaxEntry>)
    ensures
        views_of(r@) == fold_rows(Seq::<MaxEntryModel>::empty(), views_of(rows@)),
{
    let ghost rv = views_of(rows@);
    let mut acc: Vec<MaxEntry> = Vec::new();
    let mut i: usize = 0;
    proof {
        assert(rv.subrange(0, 0) =~= Seq::<LeaderRowModel>::empty());
        assert(views_of(acc@) =~= Seq::<MaxEntryModel>::empty());
    }
    while i < rows.len()
        invariant
            0 <= i <= rows@.len(),
            rv == views_of(rows@),
            rv.len() == rows@.len(),
            views_of(acc@) == fold_rows(Seq::<MaxEntryModel>::empty(), rv.subrange(0, i as int)),
        decreases rows@.len() - i,
    {
        let ghost row_v = rv[i as int];
        proof {
            assert(row_v == rows@[i as int]@);
        }
        let row = &rows[i];
        match &row.map {
            Some(entries) => {
                let ghost ev = entries@;
                let mut j: usize = 0;
                proof {
                    assert(ev.subrange(0, 0) =~= Seq::<CountEntry>::empty());
                }
                while j < entries.len()
                    invariant
                        0 <= j <= ev.len(),
                        ev == entries@,
                        row_v.map == Some(ev),
                        row_v.name == row.name@,
                        views_of(acc@) == fold_row_entries(
                            fold_rows(Seq::<MaxEntryModel>::empty(), rv.subrange(0, i as int)),
                            ev.subrange(0, j as int),
                            row_v.name,
                        ),
                    decreases ev.len() - j,
                {
                    let ghost base = views_of(acc@);
                    let entry = entries[j];
                    let ghost keyf = |e: MaxEntryModel| e.id == entry.id;
                    let ghost mergef = max_merge(entry.n, row_v.name);
                    let ghost fresh = MaxEntryModel {
                        id: entry.id,
                        max_level: entry.n,
                        player_name: row_v.name,
                    };
                    let found = find_max_entry(&acc, entry.id);
                    match found {
                        Some(fi) => {
                            proof {
                                lemma_upsert_found(base, keyf, mergef, fresh, fi as int);
                            }
                            if entry.n > acc[fi].max_level {
                                let updated = MaxEntry {
                                    id: entry.id,
                                    max_level: entry.n,
                                    player_name: row.name.clone(),
                                };
                                proof {
                                    assert(updated@ =~~= mergef(base[fi as int]));
                                }
                                acc.set(fi, updated);
                            } else {
                                proof {
                                    assert(mergef(base[fi as int]) == base[fi as int]);
                                    assert(base.update(fi as int, base[fi as int]) =~= base);
                                }
                            }
                        },
                        None => {
                            proof {
                                assert(no_match(base, keyf));
                                lemma_upsert_none(base, keyf, mergef, fresh);
                            }
                            acc.push(
                                MaxEntry {
                                    id: entry.id,
                                    max_level: entry.n,
                                    player_name: row.name.clone(),
                                },
                            );
                        },
                    }
                    proof {
                        assert(views_of(acc@) =~= fold_observation(
                            base,
                            entry.id,
                            entry.n,
                            row_v.name,
                        ));
                        lemma_fold_entries_snoc(
                            fold_rows(Seq::<MaxEntryModel>::empty(), rv.subrange(0, i as int)),
                            ev,
                            row_v.name,
                            j as int,
                        );
                    }
                    j = j + 1;
                }
                proof {
                    assert(ev.subrange(0, ev.len() as int) =~= ev);
                    lemma_fold_rows_snoc(Seq::<MaxEntryModel>::empty(), rv, i as int);
                }
            },
            None => {
                proof {
                    lemma_fold_rows_snoc(Seq::<MaxEntryModel>::empty(), rv, i as int);
                }
            },
        }
        i = i + 1;
    }
    proof {
        assert(rv.subrange(0, rv.len() as int) =~= rv);
    }
    acc
}

} // verus!
