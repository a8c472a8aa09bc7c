use battleship::board::Board;
use battleship::position::{FirePosition, FiredState, Position};
use battleship::ship::{Ship, ShipSet};

#[test]
fn new_ships_follow_the_standard_layout() {
    let ships = Ship::new_ships();
    let expected: Vec<(&str, usize)> = vec![
        ("Carrier", 5),
        ("Battleship", 4),
        ("Destroyer", 3),
        ("Submarine", 3),
        ("Patrol Boat", 2),
    ];
    assert_eq!(ships.len(), 5);
    for (k, (name, size)) in expected.into_iter().enumerate() {
        assert_eq!(ships[k].name, name);
        let cells: Vec<(usize, usize)> = (0..size).map(|i| (i, k)).collect();
        assert_eq!(ships[k].location, cells);
    }
}

#[test]
fn check_hit_matches_occupied_cells() {
    let ships = Ship::new_ships();
    assert!(ships[0].check_hit(0, 0));
    assert!(ships[0].check_hit(4, 0));
    assert!(!ships[0].check_hit(5, 0));
    assert!(!ships[0].check_hit(0, 1));
    assert!(ships[4].check_hit(1, 4));
    assert!(!ships[4].check_hit(2, 4));
}

#[test]
fn ship_set_builds_one_fleet_per_player() {
    let fleets = ShipSet::new(3);
    assert_eq!(fleets.len(), 3);
    for fleet in &fleets {
        assert_eq!(fleet.len(), 5);
    }
}

#[test]
fn position_new_validates_coordinates() {
    assert!(Position::new(0, 0, None, 2).is_ok());
    assert!(Position::new(9, 9, None, 2).is_ok());
    assert!(Position::new(10, 0, None, 2).is_err());
    assert!(Position::new(0, 10, None, 2).is_err());
    let p = Position::new(1, 1, None, 3).unwrap();
    assert_eq!(p.fired_state.len(), 3);
    assert!(p.fired_state.iter().all(|s| matches!(s, FiredState::Empty)));
}

#[test]
fn position_update_resets_to_untouched_pair() {
    let p = Position::update(2, 3).unwrap();
    assert_eq!(p.fired_state.len(), 2);
    assert!(p.fired_state.iter().all(|s| matches!(s, FiredState::Untouched)));
    assert!(Position::update(10, 0).is_err());
}

#[test]
fn get_fired_state_copies_the_cell() {
    let p = Position::new(0, 0, Some(vec![FiredState::Hit, FiredState::Miss]), 0).unwrap();
    let copy = p.get_fired_state();
    assert!(matches!(copy[0], FiredState::Hit));
    assert!(matches!(copy[1], FiredState::Miss));
}

#[test]
fn board_dimensions_and_initial_state() {
    let board = Board::new(2);
    assert_eq!(board.positions.len(), 10);
    for row in &board.positions {
        assert_eq!(row.len(), 10);
        for cell in row {
            assert_eq!(cell.fired_state.len(), 2);
            assert!(cell.fired_state.iter().all(|s| matches!(s, FiredState::Empty)));
        }
    }
    let empty = Board::empty();
    assert_eq!(empty.positions.len(), 10);
    assert!(empty.ship_set.is_empty());
}

#[test]
fn start_board_resets_every_cell() {
    let mut board = Board::new(2);
    board.start_board();
    for row in &board.positions {
        for cell in row {
            assert!(cell.fired_state.iter().all(|s| matches!(s, FiredState::Untouched)));
        }
    }
}

#[test]
fn board_fire_resolves_hits_and_misses() {
    let mut board = Board::new(2);
    board.start_board();
    // (2, 1) lies on the target's Battleship; (9, 9) lies on nothing.
    let hit = board.fire(2, 1, 1).unwrap();
    assert!(matches!(hit[2][1].fired_state[1], FiredState::Hit));
    assert!(matches!(hit[2][1].fired_state[0], FiredState::Untouched));
    let miss = board.fire(9, 9, 0).unwrap();
    assert!(matches!(miss[9][9].fired_state[0], FiredState::Miss));
}

#[test]
fn board_fire_rejects_bad_targets() {
    let mut board = Board::new(2);
    board.start_board();
    assert!(board.fire(10, 0, 0).is_err());
    assert!(board.fire(0, 10, 0).is_err());
    assert!(board.fire(0, 0, 2).is_err());
}

#[test]
fn personal_view_overlays_own_ships() {
    let mut board = Board::new(2);
    board.start_board();
    let view = board.get_board_with_player_positions(0);
    // Own un-hit ship cells show the ship kind; everything else is stored.
    assert!(matches!(&view[0][0].fired_state[0], FiredState::Ship(kind) if kind == "Carrier"));
    assert!(matches!(&view[1][4].fired_state[0], FiredState::Ship(kind) if kind == "Patrol Boat"));
    assert!(matches!(view[5][0].fired_state[0], FiredState::Untouched));
    assert!(matches!(view[0][0].fired_state[1], FiredState::Untouched));

    // A hit own cell stays Hit rather than turning back into a ship.
    let positions = board.fire(0, 0, 0).unwrap();
    board.positions = positions;
    let view = board.get_board_with_player_positions(0);
    assert!(matches!(view[0][0].fired_state[0], FiredState::Hit));
}

#[test]
fn fire_position_print_names_the_board_path() {
    let fp = FirePosition::new(vec![], 0, 1, 3, 4);
    assert_eq!(fp.print(), "$.board[3][4][1]");
}
