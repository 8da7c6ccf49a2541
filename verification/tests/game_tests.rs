use rgj_core::genome::AnimalKind;
use rgj_core::hex::AxialCoordinates;
use rgj_core::map::{tile_qrz_to_index, MapConfig, TileMap};
use rgj_core::protocol::{LockedStatus, PlayerInputVariant};
use rgj_core::replica::unit_in_scope;
use rgj_core::tile::{ConstructionStatus, Tile, TileStructure, TileType};
use rgj_core::turn::{CommandOutcome, MatchState, MoveError};
use rgj_core::visibility::is_visible;

fn ax(q: u16, r: u16) -> AxialCoordinates {
    AxialCoordinates::new(q, r)
}

fn ten_by_ten(players: Vec<u64>) -> MatchState {
    let cfg = MapConfig { size_width: 10, size_height: 10 };
    let map = TileMap::generate(&cfg);
    MatchState::new(cfg, map, players)
}

fn set_ground(state: &mut MatchState, q: u16, r: u16, tile_type: TileType, structure: TileStructure) {
    let idx = tile_qrz_to_index(&state.config, q as i32, r as i32, 0);
    state.auth_map.tiles[idx] = Tile { tile_type, structure };
}

fn ground_tile(state: &MatchState, q: u16, r: u16) -> Tile {
    let idx = tile_qrz_to_index(&state.config, q as i32, r as i32, 0);
    state.auth_map.tiles[idx]
}

fn replica_ground_tile(state: &MatchState, player: u64, q: u16, r: u16) -> Tile {
    let rep = state.replicas.iter().find(|r| r.key == player).unwrap();
    let idx = tile_qrz_to_index(&state.config, q as i32, r as i32, 0);
    rep.map.tiles[idx]
}

#[test]
fn viewing_distance_two_sees_nineteen_hexes() {
    // A unit with viewing_distance 2 at (5,5) on a 10x10 map sees the
    // closed hex disk of radius 2: exactly 19 hexes.
    let mut state = ten_by_ten(vec![1]);
    state.spawn_starting_unit(1, ax(5, 5));
    assert_eq!(state.units[0].hybrid_type.head().viewing_distance, 2);
    let mut seen = 0;
    for q in 0..10u16 {
        for r in 0..10u16 {
            if is_visible(&state.units, 1, &state.config, q, r) {
                seen += 1;
            }
        }
    }
    assert_eq!(seen, 19);
    // And nothing outside the disk is visible.
    assert!(!is_visible(&state.units, 1, &state.config, 8, 5));
    assert!(!is_visible(&state.units, 1, &state.config, 5, 8));
}

#[test]
fn reconcile_reveals_only_the_visible_disk() {
    let mut state = ten_by_ten(vec![1]);
    state.spawn_starting_unit(1, ax(5, 5));
    state.tick();
    // Inside the disk: the authoritative tile, verbatim.
    assert_eq!(replica_ground_tile(&state, 1, 5, 5).tile_type, TileType::Ocean);
    assert_eq!(replica_ground_tile(&state, 1, 6, 5).tile_type, TileType::Ocean);
    // Outside the union of disks: never copied, still fog.
    assert_eq!(replica_ground_tile(&state, 1, 9, 9).tile_type, TileType::Fog);
    assert_eq!(replica_ground_tile(&state, 1, 8, 5).tile_type, TileType::Fog);
}

#[test]
fn lost_visibility_decays_to_fog_and_reobservation_overwrites() {
    let mut state = ten_by_ten(vec![1]);
    state.spawn_starting_unit(1, ax(5, 5));
    state.tick();
    assert_eq!(replica_ground_tile(&state, 1, 5, 5).tile_type, TileType::Ocean);
    // The unit leaves; on contact loss the old ground fogs over again
    // and the new surroundings are revealed.
    state.units[0].position = ax(0, 0);
    state.tick();
    assert_eq!(replica_ground_tile(&state, 1, 5, 5).tile_type, TileType::Fog);
    assert_eq!(replica_ground_tile(&state, 1, 5, 5).structure, TileStructure::Empty);
    assert_eq!(replica_ground_tile(&state, 1, 0, 0).tile_type, TileType::Ocean);
}

#[test]
fn move_validation_is_all_or_nothing() {
    // The walk from (5,5) towards (7,5) crosses Grass twice and then
    // hits Ocean; a ground-only unit is rejected outright and neither
    // position nor stamina changes.
    let mut state = ten_by_ten(vec![1]);
    set_ground(&mut state, 5, 5, TileType::Grass, TileStructure::Empty);
    set_ground(&mut state, 6, 5, TileType::Grass, TileStructure::Empty);
    set_ground(&mut state, 7, 5, TileType::Ocean, TileStructure::Empty);
    state.spawn_starting_unit(1, ax(5, 5));
    state.units[0].hybrid_type = rgj_core::genome::Hybrid::from_kinds(
        AnimalKind::Rattlesnake,
        AnimalKind::Rattlesnake,
        AnimalKind::Rattlesnake,
    );
    state.units[0].stamina_remaining = 10;
    state.tick();
    let before = state.units.clone();
    let outcome = state.handle_command(1, PlayerInputVariant::MoveEntity(0, ax(7, 5)));
    assert_eq!(outcome, CommandOutcome::MoveRejected(MoveError::Blocked));
    assert_eq!(state.units, before);
    assert!(state.pending_move.is_none());
    assert_eq!(state.units[0].stamina_remaining, 10);
    assert_eq!(state.units[0].position, ax(5, 5));
}

#[test]
fn low_stamina_ground_unit_cannot_reach_the_water() {
    // One remaining stamina, ground-only limbs, Grass then Ocean ahead:
    // the move is rejected and nothing moves.
    let mut state = ten_by_ten(vec![1]);
    set_ground(&mut state, 5, 5, TileType::Grass, TileStructure::Empty);
    set_ground(&mut state, 6, 5, TileType::Grass, TileStructure::Empty);
    set_ground(&mut state, 7, 5, TileType::Ocean, TileStructure::Empty);
    state.spawn_starting_unit(1, ax(5, 5));
    state.units[0].hybrid_type = rgj_core::genome::Hybrid::from_kinds(
        AnimalKind::Rattlesnake,
        AnimalKind::Rattlesnake,
        AnimalKind::Rattlesnake,
    );
    state.units[0].stamina_remaining = 1;
    state.tick();
    let outcome = state.handle_command(1, PlayerInputVariant::MoveEntity(0, ax(7, 5)));
    assert_eq!(outcome, CommandOutcome::MoveRejected(MoveError::Blocked));
    assert_eq!(state.units[0].position, ax(5, 5));
    assert_eq!(state.units[0].stamina_remaining, 1);
    assert!(state.pending_move.is_none());
}

#[test]
fn fog_blocks_movement_planning() {
    // Without a reconcile the replica is all fog: even an otherwise
    // legal move is rejected.
    let mut state = ten_by_ten(vec![1]);
    state.spawn_starting_unit(1, ax(5, 5));
    let outcome = state.handle_command(1, PlayerInputVariant::MoveEntity(0, ax(6, 5)));
    assert_eq!(outcome, CommandOutcome::MoveRejected(MoveError::Blocked));
}

#[test]
fn only_one_pending_move_at_a_time() {
    let mut state = ten_by_ten(vec![1]);
    state.spawn_starting_unit(1, ax(5, 5));
    state.tick();
    let first = state.handle_command(1, PlayerInputVariant::MoveEntity(0, ax(6, 5)));
    assert_eq!(first, CommandOutcome::MoveStarted);
    let path_before: Vec<_> = state.pending_move.as_ref().unwrap().path.clone();
    let units_before = state.units.clone();
    // A second movement command while one is active is rejected with
    // no side effects.
    let second = state.handle_command(1, PlayerInputVariant::MoveEntity(0, ax(4, 5)));
    assert_eq!(second, CommandOutcome::MoveInProgress);
    assert_eq!(state.pending_move.as_ref().unwrap().path, path_before);
    assert_eq!(state.units, units_before);
}

#[test]
fn pending_move_advances_one_waypoint_per_tick() {
    let mut state = ten_by_ten(vec![1]);
    state.spawn_starting_unit(1, ax(5, 5));
    state.tick();
    assert_eq!(
        state.handle_command(1, PlayerInputVariant::MoveEntity(0, ax(6, 5))),
        CommandOutcome::MoveStarted
    );
    // Distance is 2, so two waypoints remain after the starting tile.
    assert_eq!(state.pending_move.as_ref().unwrap().path.len(), 2);
    state.tick();
    assert_eq!(state.units[0].position, ax(6, 5));
    assert_eq!(state.units[0].stamina_remaining, 5);
    assert!(state.pending_move.is_some());
    state.tick();
    assert_eq!(state.units[0].position, ax(6, 5));
    assert_eq!(state.units[0].stamina_remaining, 4);
    assert!(state.pending_move.is_none());
}

#[test]
fn end_turn_from_wrong_player_has_no_effect() {
    let mut state = ten_by_ten(vec![1, 2]);
    assert_eq!(state.turn_tracker.player(), 1);
    assert_eq!(state.turn_tracker.turn_number(), 1);
    let outcome = state.handle_command(2, PlayerInputVariant::EndTurn);
    assert_eq!(outcome, CommandOutcome::NotYourTurn);
    assert_eq!(state.turn_tracker.player(), 1);
    assert_eq!(state.turn_tracker.turn_number(), 1);
}

#[test]
fn turn_rotation_and_numbering() {
    let mut state = ten_by_ten(vec![1, 2]);
    assert_eq!(
        state.handle_command(1, PlayerInputVariant::EndTurn),
        CommandOutcome::TurnEnded { player: 2, turn_number: 1 }
    );
    assert_eq!(
        state.handle_command(2, PlayerInputVariant::EndTurn),
        CommandOutcome::TurnEnded { player: 1, turn_number: 2 }
    );
}

#[test]
fn end_turn_refreshes_the_new_holders_stamina() {
    let mut state = ten_by_ten(vec![1, 2]);
    state.spawn_starting_unit(2, ax(3, 3));
    state.units[0].stamina_remaining = 0;
    state.handle_command(1, PlayerInputVariant::EndTurn);
    // Player 2 now holds the turn; their Deer has its budget back.
    assert_eq!(state.units[0].stamina_remaining, 6);
}

fn facility(genome: AnimalKind) -> TileStructure {
    TileStructure::GenomeFacility { unique_genome: genome, building: None }
}

#[test]
fn build_durations_are_tiered() {
    // Fully matching: 2 turns; one pair matching: 4; all distinct: 6.
    let cases = [
        (AnimalKind::Deer, AnimalKind::Deer, AnimalKind::Deer, 3u16),
        (AnimalKind::Deer, AnimalKind::Deer, AnimalKind::Chicken, 5u16),
        (AnimalKind::Deer, AnimalKind::Chicken, AnimalKind::Whale, 7u16),
    ];
    for (head, body, limbs, finish) in cases {
        let mut state = ten_by_ten(vec![1]);
        set_ground(&mut state, 5, 5, TileType::Grass, facility(AnimalKind::Deer));
        state.spawn_starting_unit(1, ax(5, 5));
        state.genomes[0].genomes.push(AnimalKind::Chicken);
        state.genomes[0].genomes.push(AnimalKind::Whale);
        let outcome =
            state.handle_command(1, PlayerInputVariant::BuildHybrid(ax(5, 5), head, body, limbs));
        assert_eq!(outcome, CommandOutcome::BuildStarted { finished_on: finish });
        match ground_tile(&state, 5, 5).structure {
            TileStructure::GenomeFacility { building: Some(cs), .. } => {
                assert_eq!(cs.finished_on.turn_number, finish);
                assert_eq!(cs.finished_on.player, 1);
                assert_eq!(cs.building.head_type(), head);
                assert_eq!(cs.building.body_type(), body);
                assert_eq!(cs.building.limbs_type(), limbs);
            }
            other => panic!("no construction recorded: {:?}", other),
        }
    }
}

#[test]
fn build_requires_presence_facility_and_genomes() {
    let mut state = ten_by_ten(vec![1]);
    set_ground(&mut state, 5, 5, TileType::Grass, facility(AnimalKind::Deer));
    // No unit on the tile yet.
    let d = AnimalKind::Deer;
    assert_eq!(
        state.handle_command(1, PlayerInputVariant::BuildHybrid(ax(5, 5), d, d, d)),
        CommandOutcome::BuildRejected(rgj_core::turn::BuildError::NoUnitThere)
    );
    state.spawn_starting_unit(1, ax(5, 5));
    // A locked genome is refused.
    let c = AnimalKind::Chicken;
    assert_eq!(
        state.handle_command(1, PlayerInputVariant::BuildHybrid(ax(5, 5), d, d, c)),
        CommandOutcome::BuildRejected(rgj_core::turn::BuildError::GenomeLocked)
    );
    // No facility on a plain tile.
    set_ground(&mut state, 5, 5, TileType::Grass, TileStructure::Empty);
    assert_eq!(
        state.handle_command(1, PlayerInputVariant::BuildHybrid(ax(5, 5), d, d, d)),
        CommandOutcome::BuildRejected(rgj_core::turn::BuildError::NoFacility)
    );
    // A build in progress blocks a second one.
    set_ground(&mut state, 5, 5, TileType::Grass, facility(AnimalKind::Deer));
    assert_eq!(
        state.handle_command(1, PlayerInputVariant::BuildHybrid(ax(5, 5), d, d, d)),
        CommandOutcome::BuildStarted { finished_on: 3 }
    );
    assert_eq!(
        state.handle_command(1, PlayerInputVariant::BuildHybrid(ax(5, 5), d, d, d)),
        CommandOutcome::BuildRejected(rgj_core::turn::BuildError::BuildInProgress)
    );
}

#[test]
fn finished_build_spawns_a_unit_on_the_builders_turn() {
    let mut state = ten_by_ten(vec![1]);
    set_ground(&mut state, 5, 5, TileType::Grass, facility(AnimalKind::Deer));
    state.spawn_starting_unit(1, ax(5, 5));
    let d = AnimalKind::Deer;
    assert_eq!(
        state.handle_command(1, PlayerInputVariant::BuildHybrid(ax(5, 5), d, d, d)),
        CommandOutcome::BuildStarted { finished_on: 3 }
    );
    // Turn 2: not finished yet.
    state.handle_command(1, PlayerInputVariant::EndTurn);
    assert_eq!(state.units.len(), 1);
    // Turn 3: the hybrid appears on the facility, owned by the builder,
    // and the build slot clears.
    state.handle_command(1, PlayerInputVariant::EndTurn);
    assert_eq!(state.units.len(), 2);
    let unit = state.units[1];
    assert_eq!(unit.owner, 1);
    assert_eq!(unit.position, ax(5, 5));
    assert_eq!(unit.current_health, 7);
    assert_eq!(unit.stamina_remaining, 6);
    assert!(matches!(
        ground_tile(&state, 5, 5).structure,
        TileStructure::GenomeFacility { building: None, .. }
    ));
}

#[test]
fn moving_between_facilities_relocks_and_unlocks_genomes() {
    let mut state = ten_by_ten(vec![1]);
    set_ground(&mut state, 5, 5, TileType::Grass, facility(AnimalKind::Deer));
    set_ground(&mut state, 6, 5, TileType::Grass, facility(AnimalKind::Chicken));
    state.spawn_starting_unit(1, ax(5, 5));
    state.tick();
    assert_eq!(
        state.handle_command(1, PlayerInputVariant::MoveEntity(0, ax(6, 5))),
        CommandOutcome::MoveStarted
    );
    let events = state.tick();
    assert_eq!(events.len(), 2);
    assert_eq!(events[0].player, 1);
    assert_eq!(events[0].species, AnimalKind::Deer);
    assert_eq!(events[0].status, LockedStatus::Locked);
    assert_eq!(events[1].species, AnimalKind::Chicken);
    assert_eq!(events[1].status, LockedStatus::Unlocked);
    assert!(!state.genomes[0].genomes.contains(&AnimalKind::Deer));
    assert!(state.genomes[0].genomes.contains(&AnimalKind::Chicken));
}

#[test]
fn scope_hides_units_in_fog() {
    let mut state = ten_by_ten(vec![1, 2]);
    state.spawn_starting_unit(1, ax(0, 0));
    state.spawn_starting_unit(2, ax(9, 9));
    state.tick();
    let rep1 = state.replicas.iter().find(|r| r.key == 1).unwrap().map.clone();
    let own = state.units[0];
    let enemy = state.units[1];
    // A player always hears about their own units, never about enemy
    // units standing in their fog.
    assert!(unit_in_scope(&own, &rep1, &state.config, 1));
    assert!(!unit_in_scope(&enemy, &rep1, &state.config, 1));
    // Once the enemy stands on revealed ground it enters scope.
    state.units[1].position = ax(1, 1);
    state.tick();
    let rep1 = state.replicas.iter().find(|r| r.key == 1).unwrap().map.clone();
    let enemy = state.units[1];
    assert!(unit_in_scope(&enemy, &rep1, &state.config, 1));
}

#[test]
fn unknown_and_foreign_units_are_rejected() {
    let mut state = ten_by_ten(vec![1, 2]);
    state.spawn_starting_unit(2, ax(3, 3));
    state.tick();
    assert_eq!(
        state.handle_command(1, PlayerInputVariant::MoveEntity(99, ax(4, 3))),
        CommandOutcome::MoveRejected(MoveError::UnknownUnit)
    );
    assert_eq!(
        state.handle_command(1, PlayerInputVariant::MoveEntity(0, ax(4, 3))),
        CommandOutcome::MoveRejected(MoveError::NotYourUnit)
    );
    assert_eq!(
        state.handle_command(1, PlayerInputVariant::MoveEntity(0, ax(3, 3))),
        CommandOutcome::MoveRejected(MoveError::NotYourUnit)
    );
}

#[test]
fn out_of_bounds_and_zero_distance_moves_are_rejected() {
    let mut state = ten_by_ten(vec![1]);
    state.spawn_starting_unit(1, ax(5, 5));
    state.tick();
    assert_eq!(
        state.handle_command(1, PlayerInputVariant::MoveEntity(0, ax(10, 5))),
        CommandOutcome::MoveRejected(MoveError::DestinationOutOfBounds)
    );
    assert_eq!(
        state.handle_command(1, PlayerInputVariant::MoveEntity(0, ax(5, 5))),
        CommandOutcome::MoveRejected(MoveError::NoMovement)
    );
}

#[test]
fn construction_status_carries_the_marker() {
    let cs = ConstructionStatus {
        building: rgj_core::genome::Hybrid::from_kinds(
            AnimalKind::Whale,
            AnimalKind::Whale,
            AnimalKind::Whale,
        ),
        finished_on: rgj_core::tile::TurnMarker { player: 4, turn_number: 9 },
    };
    assert_eq!(cs.finished_on.player, 4);
    assert_eq!(cs.finished_on.turn_number, 9);
    assert_eq!(cs.building.name(), "Whale-Whale-Whale");
}

#[test]
fn builds_are_refused_out_of_bounds_and_near_the_turn_limit() {
    let mut state = ten_by_ten(vec![1]);
    set_ground(&mut state, 5, 5, TileType::Grass, facility(AnimalKind::Deer));
    state.spawn_starting_unit(1, ax(5, 5));
    let d = AnimalKind::Deer;
    assert_eq!(
        state.handle_command(1, PlayerInputVariant::BuildHybrid(ax(10, 5), d, d, d)),
        CommandOutcome::BuildRejected(rgj_core::turn::BuildError::OutOfBounds)
    );
    // Push the match to the last representable turns; a build whose
    // completion would overflow the turn number is refused.
    while state.turn_tracker.turn_number() < 65534 {
        let expected = state.turn_tracker.turn_number() + 1;
        assert_eq!(
            state.handle_command(1, PlayerInputVariant::EndTurn),
            CommandOutcome::TurnEnded { player: 1, turn_number: expected }
        );
    }
    assert_eq!(
        state.handle_command(1, PlayerInputVariant::BuildHybrid(ax(5, 5), d, d, d)),
        CommandOutcome::BuildRejected(rgj_core::turn::BuildError::TurnLimit)
    );
}

#[test]
fn visibility_is_clipped_at_the_map_edge() {
    let mut state = ten_by_ten(vec![1]);
    state.spawn_starting_unit(1, ax(0, 0));
    let mut seen = 0;
    for q in 0..10u16 {
        for r in 0..10u16 {
            if is_visible(&state.units, 1, &state.config, q, r) {
                seen += 1;
            }
        }
    }
    // Only the quarter of the radius-2 disk with non-negative offsets
    // whose coordinate sum stays within the radius remains.
    assert_eq!(seen, 6);
}

#[test]
fn replicas_copy_structures_and_fog_clears_them() {
    let mut state = ten_by_ten(vec![1]);
    set_ground(&mut state, 5, 5, TileType::Grass, facility(AnimalKind::Deer));
    state.spawn_starting_unit(1, ax(5, 5));
    state.tick();
    assert!(matches!(
        replica_ground_tile(&state, 1, 5, 5).structure,
        TileStructure::GenomeFacility { .. }
    ));
    state.units[0].position = ax(0, 0);
    state.tick();
    let lost = replica_ground_tile(&state, 1, 5, 5);
    assert_eq!(lost.tile_type, TileType::Fog);
    assert_eq!(lost.structure, TileStructure::Empty);
}
