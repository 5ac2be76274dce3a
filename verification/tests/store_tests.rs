use hub::access::{
    admin_delete_user, admin_update_config, admin_update_user_role, bot_create_user, get_permission,
    mask_api_key, require_admin, Permission,
};
use hub::aggregate::age_hours;
use hub::botfmt::format_number;
use hub::clock::current_time;
use hub::empire::{sync_empire, EmpirePlanet, EmpireProduction, EmpireSyncRequest};
use hub::errors::AppError;
use hub::models::{Coordinates, CountEntry, PlanetType, UserRole};
use hub::stats::{apply_statistics_sync, upsert_stats, PlayerStatRow, PlayerStats, StatsSyncRequest};
use hub::store::Store;
use hub::textutil::parse_i64;

#[test]
fn coordinates_roundtrip() {
    let c = Coordinates::new(1, 197, 12);
    assert_eq!(c.text(), "1:197:12");
    let parsed = Coordinates::from_str("1:197:12").unwrap();
    assert_eq!(parsed.galaxy, 1);
    assert_eq!(parsed.system, 197);
    assert_eq!(parsed.planet, 12);
    assert!(Coordinates::from_str("1:197").is_err());
    assert!(Coordinates::from_str("1:197:900").is_err());
    assert!(Coordinates::from_str("x:1:2").is_err());
}

#[test]
fn integer_parsing() {
    assert_eq!(parse_i64("42"), Some(42));
    assert_eq!(parse_i64("-42"), Some(-42));
    assert_eq!(parse_i64("+7"), Some(7));
    assert_eq!(parse_i64(""), None);
    assert_eq!(parse_i64("12x"), None);
    assert_eq!(parse_i64("99999999999999999999"), None);
    assert_eq!(parse_i64("9223372036854775807"), Some(i64::MAX));
    assert_eq!(parse_i64("-9223372036854775808"), Some(i64::MIN));
}

#[test]
fn masking() {
    assert_eq!(mask_api_key("12345678"), "********");
    assert_eq!(mask_api_key("abcdefghijkl"), "abcd...ijkl");
    assert_eq!(mask_api_key(""), "");
}

#[test]
fn number_formatting() {
    assert_eq!(format_number(999), "999");
    assert_eq!(format_number(1_500), "1.5K");
    assert_eq!(format_number(2_340), "2.3K");
    assert_eq!(format_number(1_500_000), "1.5M");
    assert_eq!(format_number(-1_500_000), "-1.5M");
    assert_eq!(format_number(0), "0");
}

#[test]
fn permissions() {
    let admin_roles = vec![10u64, 11];
    let user_roles = vec![20u64];
    assert!(matches!(get_permission(&vec![11], &admin_roles, &user_roles), Permission::Admin));
    assert!(matches!(get_permission(&vec![20], &admin_roles, &user_roles), Permission::User));
    assert!(matches!(get_permission(&vec![99], &admin_roles, &user_roles), Permission::Denied));
    assert!(get_permission(&vec![11], &admin_roles, &user_roles).can_manage_users());
    assert!(get_permission(&vec![20], &admin_roles, &user_roles).can_use_commands());
    assert!(!get_permission(&vec![99], &admin_roles, &user_roles).can_use_commands());
    assert!(require_admin(UserRole::User).is_err());
    assert!(require_admin(UserRole::Admin).is_ok());
}

#[test]
fn empire_sync_requires_a_player() {
    let mut store = Store::new();
    let req = EmpireSyncRequest {
        player_id: 0,
        player_name: "Anon".to_string(),
        research: vec![],
        planets: vec![],
    };
    let r = sync_empire(&mut store, req, None, None, 100);
    assert!(matches!(r, Err(AppError::BadRequest(_))));
    assert_eq!(store.players.len(), 0);
}

#[test]
fn empire_sync_upserts_planets_and_skips_malformed() {
    let mut store = Store::new();
    let planet = |coords: &str| EmpirePlanet {
        external_id: 5,
        name: "Main".to_string(),
        coordinates: coords.to_string(),
        fields_used: 100,
        fields_max: 163,
        temperature: 40,
        points: 1234,
        resources: vec![CountEntry { id: 901, n: 1000 }],
        production: EmpireProduction {
            metal: 100,
            crystal: 50,
            deuterium: 25,
            energy_used: 10,
            energy_max: 20,
        },
        buildings: vec![CountEntry { id: 1, n: 20 }],
        fleet: vec![],
        defense: vec![],
    };
    let req = EmpireSyncRequest {
        player_id: 3,
        player_name: "Emp".to_string(),
        research: vec![CountEntry { id: 113, n: 12 }],
        planets: vec![planet("1:2:3"), planet("not-coordinates")],
    };
    let r = sync_empire(&mut store, req, None, Some(5), 100);
    assert!(r.is_ok());
    // One parsable planet, and the research persisted on the player.
    assert_eq!(store.find_planet(1, 2, 3, PlanetType::Planet).is_some(), true);
    assert_eq!(store.planets.len(), 1);
    assert!(matches!(store.planets[0].status, hub::models::Status::Seen));
    assert_eq!(store.planets[0].planet_id, Some(5));
    let pi = store.find_player(3).unwrap();
    let research = store.players[pi].research.as_ref().unwrap();
    assert_eq!(research[0].id, 113);
    assert_eq!(research[0].n, 12);
    // The caller's alliance is not linked when the alliance is unknown.
    assert_eq!(store.players[pi].alliance_id, None);
}

#[test]
fn statistics_sync_total_feeds_history() {
    let mut store = Store::new();
    let row = |id: i64, score: i64| PlayerStatRow {
        player_id: id,
        player_name: format!("P{}", id),
        alliance_tag: None,
        rank: 1,
        score,
        is_inactive: false,
        is_long_inactive: false,
    };
    apply_statistics_sync(
        &mut store,
        StatsSyncRequest { stat_type: "total".to_string(), players: vec![row(1, 100)] },
        50,
    );
    assert_eq!(store.score_history.len(), 1);
    assert_eq!(store.score_history[0].score_total, 100);
    let pi = store.find_player(1).unwrap();
    assert_eq!(store.players[pi].score_total, Some(100));

    // A fleet page updates the fleet score but never appends history.
    apply_statistics_sync(
        &mut store,
        StatsSyncRequest { stat_type: "fleet".to_string(), players: vec![row(1, 77)] },
        60,
    );
    assert_eq!(store.score_history.len(), 1);
    let pi = store.find_player(1).unwrap();
    assert_eq!(store.players[pi].score_fleet, Some(77));

    // An unknown page records the name but no score.
    apply_statistics_sync(
        &mut store,
        StatsSyncRequest { stat_type: "mystery".to_string(), players: vec![row(2, 5)] },
        70,
    );
    assert!(store.find_player(2).is_some());
    assert_eq!(store.score_history.len(), 1);
}

#[test]
fn legacy_stats_upsert_counts_and_appends() {
    let mut store = Store::new();
    let entries = vec![
        PlayerStats {
            id: 1,
            name: "A".to_string(),
            alliance_id: None,
            score_total: 10,
            score_economy: 1,
            score_research: 2,
            score_military: 3,
            score_defense: 4,
            rank: Some(9),
        },
        PlayerStats {
            id: 2,
            name: "B".to_string(),
            alliance_id: Some(999),
            score_total: 20,
            score_economy: 0,
            score_research: 0,
            score_military: 0,
            score_defense: 0,
            rank: None,
        },
    ];
    let n = upsert_stats(&mut store, entries, 40);
    assert_eq!(n, 2);
    assert_eq!(store.score_history.len(), 2);
    // The unknown alliance is silently not linked.
    let p2 = store.find_player(2).unwrap();
    assert_eq!(store.players[p2].alliance_id, None);
    let scores = store.players[store.find_player(1).unwrap()].scores.unwrap();
    assert_eq!(scores.total, 10);
    assert_eq!(scores.defense, 4);
}

#[test]
fn message_dedup() {
    let mut store = Store::new();
    let first = store.check_messages(&vec![1, 2, 2]);
    assert_eq!(first, vec![1, 2, 2]);
    let second = store.check_messages(&vec![2, 3]);
    assert_eq!(second, vec![3]);
    assert_eq!(store.messages.len(), 3);
}

#[test]
fn admin_delete_and_role_guards() {
    let mut store = Store::new();
    let uid = store.create_user(
        "k-1".to_string(),
        None,
        None,
        "en".to_string(),
        UserRole::Admin,
        10,
    );
    // Not an admin: forbidden.
    assert!(matches!(
        admin_delete_user(&mut store, UserRole::User, uid, uid),
        Err(AppError::Forbidden)
    ));
    // Self-deletion: bad input.
    assert!(matches!(
        admin_delete_user(&mut store, UserRole::Admin, uid, uid),
        Err(AppError::BadRequest(_))
    ));
    // Unknown user: not found.
    assert!(matches!(
        admin_delete_user(&mut store, UserRole::Admin, uid, uid + 5),
        Err(AppError::NotFound(_))
    ));
    // The last admin cannot demote themselves.
    assert!(matches!(
        admin_update_user_role(&mut store, UserRole::Admin, uid, uid, "user", 20),
        Err(AppError::BadRequest(_))
    ));
    // An unknown role string is bad input.
    let other = store.create_user(
        "k-2".to_string(),
        None,
        None,
        "en".to_string(),
        UserRole::User,
        11,
    );
    assert!(matches!(
        admin_update_user_role(&mut store, UserRole::Admin, uid, other, "owner", 20),
        Err(AppError::BadRequest(_))
    ));
    assert!(admin_update_user_role(&mut store, UserRole::Admin, uid, other, "admin", 20).is_ok());
    // Deleting the other user works now.
    assert!(admin_delete_user(&mut store, UserRole::Admin, uid, other).is_ok());
    assert_eq!(store.users.len(), 1);
}

#[test]
fn config_validation() {
    let mut store = Store::new();
    assert!(matches!(
        admin_update_config(&mut store, UserRole::Admin, Some(0), None, None),
        Err(AppError::BadRequest(_))
    ));
    assert!(matches!(
        admin_update_config(&mut store, UserRole::Admin, None, Some(1000), None),
        Err(AppError::BadRequest(_))
    ));
    assert!(admin_update_config(&mut store, UserRole::Admin, Some(5), Some(300), Some(false)).is_ok());
    assert_eq!(store.config.galaxies, 5);
    assert_eq!(store.config.systems, 300);
    assert!(!store.config.galaxy_wrapped);
}

#[test]
fn bot_user_creation_issues_a_credential() {
    let mut store = Store::new();
    // No such player yet.
    assert!(matches!(
        bot_create_user(&mut store, "Ghost", 1, 5),
        Err(AppError::NotFound(_))
    ));
    store.ensure_player(7, "Known".to_string(), 1);
    let (uid, key) = bot_create_user(&mut store, "known", 1, 5).unwrap();
    // The credential comes from the real generator: hyphenated, 36 chars.
    assert_eq!(key.len(), 36);
    let ui = store.find_user(uid).unwrap();
    assert_eq!(store.users[ui].player_id, Some(7));
    assert_eq!(store.users[ui].alliance_id, Some(1));
}

#[test]
fn clock_runs() {
    let t = current_time();
    assert!(t >= 0);
    // A sane machine clock is past the year 2000.
    assert!(t > 946_684_800);
    assert!(age_hours(t - 7200, t) == 2);
}

#[test]
fn create_planet_flow() {
    let mut store = Store::new();
    store.ensure_player(4, "Owner".to_string(), 1);
    // Malformed coordinate string: bad input, nothing written.
    assert!(matches!(
        hub::flows::create_planet(&mut store, "1:2", 4, None, None, 2),
        Err(AppError::BadRequest(_))
    ));
    assert!(matches!(
        hub::flows::create_planet(&mut store, "x:2:3", 4, None, None, 2),
        Err(AppError::BadRequest(_))
    ));
    // Unknown owner: the write would break the ownership constraint.
    assert!(matches!(
        hub::flows::create_planet(&mut store, "1:2:3", 99, None, None, 2),
        Err(AppError::Storage(_))
    ));
    assert_eq!(store.planets.len(), 0);
    // A planet and its moon.
    hub::flows::create_planet(&mut store, "1:2:3", 4, Some("Home".to_string()), Some("Luna".to_string()), 2)
        .unwrap();
    assert!(store.find_planet(1, 2, 3, PlanetType::Planet).is_some());
    assert!(store.find_planet(1, 2, 3, PlanetType::Moon).is_some());
}

#[test]
fn research_submission_flow() {
    let mut store = Store::new();
    store.ensure_player(6, "R".to_string(), 1);
    assert!(matches!(
        hub::flows::post_research(&mut store, None, &vec![], 2),
        Err(AppError::BadRequest(_))
    ));
    let list = vec![
        hub::requests::ResearchInput { id: 113, level: 10 },
        hub::requests::ResearchInput { id: 110, level: 7 },
    ];
    hub::flows::post_research(&mut store, Some(6), &list, 2).unwrap();
    let i = store.find_player(6).unwrap();
    let research = store.players[i].research.as_ref().unwrap();
    assert_eq!(research.len(), 2);
    assert_eq!((research[0].id, research[0].n), (113, 10));
}

#[test]
fn language_update_flow() {
    let mut store = Store::new();
    let uid = store.create_user("k".to_string(), None, None, "en".to_string(), UserRole::User, 1);
    assert!(matches!(
        hub::flows::update_language(&mut store, uid, "fr", 2),
        Err(AppError::BadRequest(_))
    ));
    hub::flows::update_language(&mut store, uid, "de", 2).unwrap();
    let i = store.find_user(uid).unwrap();
    assert_eq!(store.users[i].language, "de");
}
