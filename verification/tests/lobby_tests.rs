use rgj_core::assoc::{
    DeletedStatus, KeyMapAssociation, KeyUnitsAssociation, UsernameKeyAssociation,
};
use rgj_core::genome::{animal_name, animal_type, AnimalKind, Hybrid, TerrainType};
use rgj_core::lobby::{authorize, countdown_step, game_state_step, waiting_status, AuthorizationDecision, GameState};
use rgj_core::protocol::{Countdown, WhoseTurn};

#[test]
fn username_association_is_two_way() {
    let mut assoc = UsernameKeyAssociation::new();
    assoc.insert("ada".to_string(), 7);
    assoc.insert("grace".to_string(), 9);
    assert_eq!(assoc.get_from_name("ada"), Some(7));
    assert_eq!(assoc.get_from_name("grace"), Some(9));
    assert_eq!(assoc.get_from_key(9).map(|s| s.as_str()), Some("grace"));
    assert_eq!(assoc.get_from_name("nobody"), None);
    assert_eq!(assoc.get_from_key(42), None);
}

#[test]
fn username_deletion_removes_both_directions() {
    let mut assoc = UsernameKeyAssociation::new();
    assoc.insert("ada".to_string(), 7);
    assert_eq!(assoc.delete_from_name("ada"), DeletedStatus::Deleted);
    assert_eq!(assoc.get_from_name("ada"), None);
    assert_eq!(assoc.get_from_key(7), None);
    assert_eq!(assoc.delete_from_name("ada"), DeletedStatus::AssociatedNotFound);
    assoc.insert("ada".to_string(), 7);
    assert_eq!(assoc.delete_from_key(7), DeletedStatus::Deleted);
    assert_eq!(assoc.get_from_name("ada"), None);
}

#[test]
fn key_map_association_is_two_way() {
    let mut assoc = KeyMapAssociation::new();
    assoc.insert(1, 100);
    assoc.insert(2, 200);
    assert_eq!(assoc.get_from_key(1), Some(100));
    assert_eq!(assoc.get_from_entity(200), Some(2));
    assert_eq!(assoc.delete_from_key(1), DeletedStatus::Deleted);
    assert_eq!(assoc.get_from_entity(100), None);
    assert_eq!(assoc.delete_from_entity(200), DeletedStatus::Deleted);
    assert_eq!(assoc.get_from_key(2), None);
    assert_eq!(assoc.delete_from_key(3), DeletedStatus::AssociatedNotFound);
}

#[test]
fn key_units_association_tracks_ownership() {
    let mut assoc = KeyUnitsAssociation::new();
    assoc.insert(1, 10);
    assoc.insert(1, 11);
    assoc.insert(2, 20);
    assert_eq!(assoc.get_from_entity(10), Some(1));
    assert_eq!(assoc.get_from_entity(11), Some(1));
    assert_eq!(assoc.get_from_entity(20), Some(2));
    assert_eq!(assoc.get_from_key(1).unwrap(), &vec![10u64, 11]);
    // Deleting one unit keeps the owner's other units.
    assert_eq!(assoc.delete_from_entity(10), DeletedStatus::Deleted);
    assert_eq!(assoc.get_from_entity(10), None);
    assert_eq!(assoc.get_from_entity(11), Some(1));
    // Deleting a key drops all of that player's units.
    assert_eq!(assoc.delete_from_key(1), DeletedStatus::Deleted);
    assert_eq!(assoc.get_from_entity(11), None);
    assert_eq!(assoc.get_from_entity(20), Some(2));
}

#[test]
fn authorization_checks_run_in_order() {
    let mut assoc = UsernameKeyAssociation::new();
    assoc.insert("taken".to_string(), 1);
    assert_eq!(
        authorize("new", "wrong", "secret", &assoc, 1, 4),
        AuthorizationDecision::RejectWrongPassword
    );
    assert_eq!(
        authorize("taken", "secret", "secret", &assoc, 1, 4),
        AuthorizationDecision::RejectDuplicateUsername
    );
    assert_eq!(
        authorize("new", "secret", "secret", &assoc, 5, 4),
        AuthorizationDecision::RejectLobbyFull
    );
    assert_eq!(
        authorize("new", "secret", "secret", &assoc, 1, 4),
        AuthorizationDecision::Accept
    );
}

#[test]
fn countdown_counts_down_and_starts_play() {
    assert_eq!(countdown_step(3), (2, false));
    assert_eq!(countdown_step(2), (1, false));
    assert_eq!(countdown_step(1), (0, true));
    assert_eq!(Countdown::new().secs_left, 10);
}

#[test]
fn waiting_status_counts_missing_players() {
    assert_eq!(waiting_status(4, 1), Some(3));
    assert_eq!(waiting_status(4, 4), None);
    assert_eq!(waiting_status(2, 0), Some(2));
}

#[test]
fn whose_turn_reads_for_each_recipient() {
    let yours = WhoseTurn::for_recipient(1, 1, "ada".to_string(), rgj_core::protocol::PlayerId::Red, 3);
    assert!(matches!(yours, WhoseTurn::Yours { turn_number: 3 }));
    assert_eq!(yours.turn_number(), 3);
    let theirs =
        WhoseTurn::for_recipient(2, 1, "ada".to_string(), rgj_core::protocol::PlayerId::Red, 3);
    match &theirs {
        WhoseTurn::Player { username, turn_number, .. } => {
            assert_eq!(username, "ada");
            assert_eq!(*turn_number, 3);
        }
        _ => panic!("expected another player's turn"),
    }
}

#[test]
fn animal_archetypes_expose_their_stats() {
    let deer = animal_type(AnimalKind::Deer);
    assert_eq!(deer.head.viewing_distance, 2);
    assert_eq!(deer.body.health, 7);
    assert_eq!(deer.limbs.terrain_a.terrain_type, TerrainType::Ground);
    assert_eq!(deer.limbs.terrain_a.tiles_per_turn, 6);
    let whale = animal_type(AnimalKind::Whale);
    assert_eq!(whale.body.health, 24);
    assert!(whale.limbs.terrain_b.is_none());
    assert_eq!(animal_name(AnimalKind::VampireBat), "Vampire-Bat");
    assert_eq!(animal_name(AnimalKind::ElectricEel), "Electric-Eel");
}

#[test]
fn hybrids_mix_parts_and_limb_checks_work() {
    let h = Hybrid::from_kinds(AnimalKind::Chicken, AnimalKind::Whale, AnimalKind::Deer);
    assert_eq!(h.head().viewing_distance, 3);
    assert_eq!(h.body().health, 24);
    assert!(h.limbs().can_traverse(TerrainType::Ground));
    assert!(h.limbs().can_traverse(TerrainType::Water));
    assert!(!h.limbs().can_traverse(TerrainType::Air));
    assert_eq!(h.name(), "Chicken-Whale-Deer");
    let hand_built = Hybrid::new(
        animal_type(AnimalKind::Chicken),
        animal_type(AnimalKind::Whale),
        animal_type(AnimalKind::Deer),
    );
    assert_eq!(hand_built, h);
}

#[test]
fn match_phases_advance_in_order() {
    let s = GameState::WaitingForConnections;
    assert_eq!(game_state_step(s, false, false), GameState::WaitingForConnections);
    let s = game_state_step(s, true, false);
    assert_eq!(s, GameState::Countdown);
    assert_eq!(game_state_step(s, true, false), GameState::Countdown);
    let s = game_state_step(s, false, true);
    assert_eq!(s, GameState::Playing);
    assert_eq!(game_state_step(s, true, true), GameState::Playing);
}
