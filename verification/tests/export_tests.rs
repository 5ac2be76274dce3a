use hub::botfmt::{append_value, format_resources, truncate, BotSpyReport};
use hub::empire::{sync_empire, EmpirePlanet, EmpireProduction, EmpireSyncRequest};
use hub::export::export_groups;
use hub::models::{CountEntry, PlanetType, Status};
use hub::scan::{apply_galaxy_scan, GalaxyScan, ScanPlanet};
use hub::store::Store;

fn entry(position: i64, player_id: i64, has_moon: bool) -> ScanPlanet {
    ScanPlanet {
        position,
        player_id: Some(player_id),
        player_name: Some(format!("P{}", player_id)),
        planet_name: None,
        moon_name: None,
        has_moon: Some(has_moon),
        planet_id: None,
        moon_id: None,
        alliance_id: Some(9),
        alliance_tag: Some("AXE".to_string()),
    }
}

#[test]
fn export_document_structure() {
    let mut store = Store::new();
    let scan = GalaxyScan {
        galaxy: 1,
        system: 5,
        planets: vec![entry(3, 70, true), entry(8, 71, false)],
        destroyed: vec![],
    };
    apply_galaxy_scan(&mut store, scan, 1_000);

    let rows = store.export_planets();
    // The system marker at position 0 is not exported.
    assert_eq!(rows.len(), 2);
    let r3 = rows.iter().find(|r| r.planet == 3).unwrap();
    assert_eq!(r3.player_id, Some(70));
    assert_eq!(r3.has_moon, 1);
    assert_eq!(r3.alliance_name, "AXE");
    // Freshness comes from the system marker, in milliseconds.
    assert_eq!(r3.timepoint, 1_000_000);

    let groups = export_groups(&rows);
    assert_eq!(groups.len(), 1);
    let g = &groups[0];
    assert_eq!((g.galaxy, g.system), (1, 5));
    assert_eq!(g.slots.len(), 15);
    assert!(g.slots[2].is_some());
    assert!(g.slots[7].is_some());
    assert!(g.slots[0].is_none());
    assert_eq!(g.timepoint, 1_000_000);
    let slot3 = g.slots[2].as_ref().unwrap();
    assert_eq!(slot3.playerid, 70);
    assert!(slot3.hasmoon);

    let players = store.export_players();
    // The synthetic system player is exported too, like every player row.
    assert!(players.iter().any(|p| p.id == 70));
    let alliances = store.export_alliances();
    // The sentinel closes the list with the maximum freshness.
    let sentinel = alliances.last().unwrap();
    assert_eq!(sentinel.id, -1);
    assert_eq!(sentinel.name, "-");
    assert_eq!(sentinel.timepoint, 1_000_000);
}

#[test]
fn new_planet_feed_and_seen_marking() {
    let mut store = Store::new();
    let scan = GalaxyScan {
        galaxy: 2,
        system: 2,
        planets: vec![entry(1, 80, false)],
        destroyed: vec![],
    };
    apply_galaxy_scan(&mut store, scan, 10);

    let fresh = store.get_new_planets();
    // The system marker at position 0 is a planet-kind row with status
    // new, so the feed lists it alongside the occupied position.
    assert_eq!(fresh.len(), 2);
    let occupied = fresh.iter().find(|p| p.planet == 1).unwrap();
    assert_eq!(occupied.player_name.as_deref(), Some("P80"));
    assert_eq!(occupied.alliance_tag.as_deref(), Some("AXE"));
    assert_eq!(store.count_new_planets(), 2);

    let marked = store.mark_all_planets_seen(20);
    // The marker row at position 0 was new too, so two rows changed.
    assert_eq!(marked, 2);
    assert_eq!(store.count_new_planets(), 0);
    let i = store.find_planet(2, 2, 1, PlanetType::Planet).unwrap();
    assert!(matches!(store.planets[i].status, Status::Seen));
    assert_eq!(store.planets[i].updated_at, 20);
}

#[test]
fn battle_and_recycle_and_hostile_upserts() {
    let mut store = Store::new();
    store.upsert_battle_report(5, 1, 2, 3, PlanetType::Planet, 10, 20, 100, 200, 300, 40, 50, None, Some(1), 7);
    store.upsert_battle_report(5, 1, 2, 3, PlanetType::Planet, 11, 21, 101, 201, 301, 41, 51, None, Some(1), 8);
    assert_eq!(store.battle_reports.len(), 1);
    assert_eq!(store.battle_reports[0].attacker_lost, 11);

    store.upsert_recycle_report(6, 1, 2, 3, 500, 600, 50, 60, None, Some(1), 7);
    store.upsert_recycle_report(7, 1, 2, 3, 1, 2, 3, 4, None, Some(1), 8);
    assert_eq!(store.recycle_reports.len(), 2);

    store.upsert_hostile_spying(9, Some("1:2:3".to_string()), Some("4:5:6".to_string()), None, 7);
    store.upsert_hostile_spying(9, Some("1:2:3".to_string()), Some("7:8:9".to_string()), None, 8);
    assert_eq!(store.hostile_spying.len(), 1);
    assert_eq!(store.hostile_spying[0].target_coordinates.as_deref(), Some("7:8:9"));
}

#[test]
fn spy_block_formatting() {
    let report = BotSpyReport {
        created_at: None,
        galaxy: 1,
        system: 2,
        planet: 3,
        player_name: None,
        alliance_name: None,
        reporter_name: None,
        resources: vec![CountEntry { id: 901, n: 1500 }, CountEntry { id: 903, n: 0 }],
        buildings: vec![],
        fleet: vec![],
        defense: vec![],
    };
    let block = format_resources(&report, "en");
    // Only the positive metal line appears, compactly formatted.
    assert_eq!(block, "Metal: **1.5K**");
    let empty = BotSpyReport { resources: vec![], ..report };
    assert_eq!(format_resources(&empty, "en"), "no data");
}

#[test]
fn append_and_truncate() {
    let mut s = String::new();
    append_value(&mut s, "A", Some(5));
    append_value(&mut s, "B", Some(0));
    append_value(&mut s, "C", None);
    append_value(&mut s, "D", Some(7));
    assert_eq!(s, "A: **5**\nD: **7**");
    assert_eq!(truncate("short", 18), "short");
    assert_eq!(truncate("a-very-long-player-name", 10), "a-very-...");
}

#[test]
fn user_language_and_activity() {
    let mut store = Store::new();
    let uid = store.create_user(
        "key".to_string(),
        Some(4),
        None,
        "en".to_string(),
        hub::models::UserRole::User,
        5,
    );
    store.update_user_language(uid, "de".to_string(), 6);
    store.update_user_activity(uid, 7);
    let i = store.find_user(uid).unwrap();
    assert_eq!(store.users[i].language, "de");
    assert_eq!(store.users[i].last_activity_at, Some(7));
    assert_eq!(store.find_user_by_api_key("key"), Some(i));
    assert_eq!(store.find_user_by_api_key("nope"), None);
    assert_eq!(store.find_user_by_player_id(4), Some(i));
}

#[test]
fn empire_sync_applied_twice_changes_nothing() {
    let mut store = Store::new();
    let req = || EmpireSyncRequest {
        player_id: 12,
        player_name: "Again".to_string(),
        research: vec![CountEntry { id: 113, n: 9 }],
        planets: vec![EmpirePlanet {
            external_id: 77,
            name: "Base".to_string(),
            coordinates: "3:4:5".to_string(),
            fields_used: 1,
            fields_max: 2,
            temperature: 3,
            points: 4,
            resources: vec![],
            production: EmpireProduction {
                metal: 1,
                crystal: 2,
                deuterium: 3,
                energy_used: 4,
                energy_max: 5,
            },
            buildings: vec![],
            fleet: vec![],
            defense: vec![],
        }],
    };
    sync_empire(&mut store, req(), None, None, 99).unwrap();
    let planets_once = store.planets.len();
    let next_once = store.next_planet_id;
    sync_empire(&mut store, req(), None, None, 99).unwrap();
    assert_eq!(store.planets.len(), planets_once);
    assert_eq!(store.next_planet_id, next_once);
    let i = store.find_planet(3, 4, 5, PlanetType::Planet).unwrap();
    assert_eq!(store.planets[i].planet_id, Some(77));
    assert_eq!(store.planets[i].points, 4);
}
