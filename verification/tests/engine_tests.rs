use hub::aggregate::{
    calculate_distance, expo_stats, is_synced, score_delta, total_pages, LeaderRow, max_levels,
};
use hub::models::{CountEntry, PlanetType, ScoreSnapshot, Status};
use hub::reports::{ExpeditionReportData, SpyReportData};
use hub::scan::{apply_galaxy_scan, DestroyedEntry, GalaxyScan, ScanPlanet};
use hub::store::Store;

fn entry(position: i64, player_id: i64) -> ScanPlanet {
    ScanPlanet {
        position,
        player_id: Some(player_id),
        player_name: Some(format!("Player{}", player_id)),
        planet_name: Some("Colony".to_string()),
        moon_name: None,
        has_moon: None,
        planet_id: None,
        moon_id: None,
        alliance_id: None,
        alliance_tag: None,
    }
}

// Distance formula: the four piecewise cases with exact expected values.
#[test]
fn distance_formula() {
    assert_eq!(calculate_distance(1, 5, 3, 2, 5, 3), 20000);
    assert_eq!(calculate_distance(1, 5, 3, 1, 8, 3), 2700 + 95 * 3);
    assert_eq!(calculate_distance(1, 5, 3, 1, 5, 7), 1000 + 5 * 4);
    assert_eq!(calculate_distance(1, 5, 3, 1, 5, 3), 5);
}

// Score delta: the 24h window selects the latest record at or before the
// cutoff, not a newer one.
#[test]
fn score_delta_picks_latest_before_cutoff() {
    let now: i64 = 1_000_000_000;
    let mut store = Store::new();
    store.append_score_snapshot(ScoreSnapshot {
        player_id: 9,
        score_total: 100,
        score_economy: 0,
        score_research: 0,
        score_military: 0,
        score_defense: 0,
        rank_total: Some(1),
        recorded_at: now - 30 * 3600,
    });
    store.append_score_snapshot(ScoreSnapshot {
        player_id: 9,
        score_total: 100,
        score_economy: 0,
        score_research: 0,
        score_military: 0,
        score_defense: 0,
        rank_total: Some(1),
        recorded_at: now - 2 * 3600,
    });
    let d24 = score_delta(&store.score_history, 9, 150, now, 86400);
    assert_eq!(d24, Some(50));
    // No history for another player: the delta is absent, not zero.
    assert_eq!(score_delta(&store.score_history, 10, 150, now, 86400), None);
}

// Galaxy reconciliation: a later scan with position 5 destroyed leaves
// position 3 untouched, keeps the deleted row, and restamps the marker.
#[test]
fn galaxy_scan_reconciliation() {
    let mut store = Store::new();
    let t1: i64 = 1000;
    let scan1 = GalaxyScan {
        galaxy: 1,
        system: 42,
        planets: vec![entry(3, 7), entry(5, 8)],
        destroyed: vec![],
    };
    apply_galaxy_scan(&mut store, scan1, t1);

    let t2: i64 = 2000;
    let scan2 = GalaxyScan {
        galaxy: 1,
        system: 42,
        planets: vec![entry(3, 7)],
        destroyed: vec![DestroyedEntry { position: 5, kind: PlanetType::Planet }],
    };
    apply_galaxy_scan(&mut store, scan2, t2);

    let i3 = store.find_planet(1, 42, 3, PlanetType::Planet).unwrap();
    assert_eq!(store.planets[i3].player_id, 7);
    assert!(!matches!(store.planets[i3].status, Status::Deleted));

    let i5 = store.find_planet(1, 42, 5, PlanetType::Planet).unwrap();
    assert!(matches!(store.planets[i5].status, Status::Deleted));
    assert_eq!(store.planets[i5].player_id, 8);

    let marker = store.find_planet(1, 42, 0, PlanetType::Planet).unwrap();
    assert_eq!(store.planets[marker].updated_at, t2);
    assert_eq!(store.planets[marker].name.as_deref(), Some("SCANNED"));
}

// FK ordering: a scan entry naming an unknown player and alliance leaves
// the player, the alliance and the planet all present, linked.
#[test]
fn scan_resolves_player_then_alliance_then_planet() {
    let mut store = Store::new();
    let scan = GalaxyScan {
        galaxy: 2,
        system: 7,
        planets: vec![ScanPlanet {
            position: 4,
            player_id: Some(77),
            player_name: Some("Newcomer".to_string()),
            planet_name: Some("Homeworld".to_string()),
            moon_name: Some("Moonlet".to_string()),
            has_moon: Some(true),
            planet_id: Some(4242),
            moon_id: None,
            alliance_id: Some(5),
            alliance_tag: Some("TAG".to_string()),
        }],
        destroyed: vec![],
    };
    let outcome = apply_galaxy_scan(&mut store, scan, 100);
    assert_eq!(outcome.created, 2);
    assert_eq!(outcome.skipped, 0);
    assert_eq!(outcome.deleted, 0);

    let pi = store.find_player(77).unwrap();
    assert_eq!(store.players[pi].name, "Newcomer");
    assert_eq!(store.players[pi].alliance_id, Some(5));
    let ai = store.find_alliance(5).unwrap();
    assert_eq!(store.alliances[ai].tag, "TAG");
    assert_eq!(store.alliances[ai].name, "TAG");
    let pl = store.find_planet(2, 7, 4, PlanetType::Planet).unwrap();
    assert_eq!(store.planets[pl].player_id, 77);
    assert_eq!(store.planets[pl].planet_id, Some(4242));
    assert!(store.find_planet(2, 7, 4, PlanetType::Moon).is_some());
}

// Idempotence: the same scan applied twice in a row yields identical
// stored state and no duplicate rows.
#[test]
fn scan_applied_twice_changes_nothing() {
    let mut store = Store::new();
    let make_scan = || GalaxyScan {
        galaxy: 3,
        system: 9,
        planets: vec![entry(1, 11), entry(2, 12)],
        destroyed: vec![],
    };
    apply_galaxy_scan(&mut store, make_scan(), 500);
    let planets_after_one = store.planets.len();
    let players_after_one = store.players.len();
    let next_after_one = store.next_planet_id;

    apply_galaxy_scan(&mut store, make_scan(), 500);
    assert_eq!(store.planets.len(), planets_after_one);
    assert_eq!(store.players.len(), players_after_one);
    assert_eq!(store.next_planet_id, next_after_one);
    let i1 = store.find_planet(3, 9, 1, PlanetType::Planet).unwrap();
    assert_eq!(store.planets[i1].player_id, 11);
    assert_eq!(store.planets[i1].updated_at, 500);
}

// Idempotence: re-submitting a report with the same external id
// overwrites the payload without creating a duplicate row.
#[test]
fn report_resubmission_overwrites() {
    let mut store = Store::new();
    let data = |metal: i64| SpyReportData {
        external_id: 900,
        galaxy: 1,
        system: 2,
        position: 3,
        kind: PlanetType::Planet,
        resources: Some(vec![CountEntry { id: 901, n: metal }]),
        buildings: None,
        research: None,
        fleet: None,
        defense: None,
        reported_by: Some(1),
        report_time: None,
    };
    store.upsert_spy_report(data(100), 10);
    store.upsert_spy_report(data(250), 20);
    assert_eq!(store.spy_reports.len(), 1);
    assert_eq!(store.spy_reports[0].external_id, 900);
    assert_eq!(store.spy_reports[0].created_at, 20);
    let resources = store.spy_reports[0].resources.as_ref().unwrap();
    assert_eq!(resources[0].n, 250);
}

// Activity stats: three expedition reports, two within the last day,
// each bringing 300 of each resource.
#[test]
fn expedition_activity_stats() {
    let now: i64 = 2_000_000;
    let mut store = Store::new();
    let finds = || {
        Some(vec![
            CountEntry { id: 901, n: 300 },
            CountEntry { id: 902, n: 300 },
            CountEntry { id: 903, n: 300 },
        ])
    };
    for (eid, at) in [(1i64, now - 200_000), (2, now - 3600), (3, now - 7200)] {
        store.upsert_expedition_report(
            ExpeditionReportData {
                external_id: eid,
                message: None,
                outcome: None,
                resources: finds(),
                fleet: None,
                reported_by: Some(7),
                report_time: None,
            },
            at,
        );
    }
    let stats = expo_stats(&store.expedition_reports, 7, now, false);
    assert_eq!(stats.count, 3);
    assert_eq!(stats.count_24h, 2);
    assert_eq!(stats.metal, 900);
    assert_eq!(stats.crystal, 900);
    assert_eq!(stats.deuterium, 900);
    assert_eq!(stats.points, (900 + 900 + 900) / 1000);
    assert_eq!(stats.points, 2);
}

// Freshness windows are the fixed 6-hour buckets, not rolling.
#[test]
fn freshness_buckets() {
    let bucket = 21600i64;
    let now = 10 * bucket + 100;
    assert!(is_synced(Some(10 * bucket + 1), now));
    assert!(!is_synced(Some(10 * bucket - 1), now));
    assert!(!is_synced(None, now));
}

#[test]
fn pagination() {
    assert_eq!(total_pages(0, 20), 0);
    assert_eq!(total_pages(1, 20), 1);
    assert_eq!(total_pages(20, 20), 1);
    assert_eq!(total_pages(21, 20), 2);
}

// Leaderboard maxima: the highest level wins; ties keep the first-seen
// holder in row order.
#[test]
fn leaderboard_maxima() {
    let rows = vec![
        LeaderRow {
            name: "Alice".to_string(),
            map: Some(vec![CountEntry { id: 113, n: 10 }, CountEntry { id: 110, n: 5 }]),
        },
        LeaderRow {
            name: "Bob".to_string(),
            map: Some(vec![CountEntry { id: 113, n: 10 }, CountEntry { id: 110, n: 7 }]),
        },
        LeaderRow { name: "Carol".to_string(), map: None },
    ];
    let maxima = max_levels(&rows);
    assert_eq!(maxima.len(), 2);
    let tech113 = maxima.iter().find(|e| e.id == 113).unwrap();
    assert_eq!(tech113.max_level, 10);
    assert_eq!(tech113.player_name, "Alice");
    let tech110 = maxima.iter().find(|e| e.id == 110).unwrap();
    assert_eq!(tech110.max_level, 7);
    assert_eq!(tech110.player_name, "Bob");
}
