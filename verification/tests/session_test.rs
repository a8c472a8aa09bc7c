use battleship::engine::{
    create_game, fire, get_session_state, join_game, AccessLevel, FireOutcome, JoinOutcome,
};
use battleship::game::Game;
use battleship::keys::PlayerKeys;
use battleship::position::{FirePosition, FiredState};

fn proof_of(keys: &PlayerKeys, plaintext: &str) -> Vec<u8> {
    ecies::encrypt(&keys.encryption_key, plaintext.as_bytes()).unwrap()
}

fn access_key_of(keys: &PlayerKeys) -> String {
    proof_of(keys, "Request")
        .into_iter()
        .map(|b| format!("{:02x}", b))
        .collect::<Vec<String>>()
        .join("")
}

fn two_player_game() -> (Game, PlayerKeys, PlayerKeys) {
    let keys_a = PlayerKeys::new();
    let keys_b = PlayerKeys::new();
    let (mut game, entry, count) = create_game(2, 0);
    assert_eq!(count, 1);
    assert_eq!(entry.game_record_number, 1);
    assert_eq!(entry.total_positions, 2);
    assert!(entry.active_player_names.is_empty());

    let joined = join_game(&mut game, "A".to_string());
    assert!(matches!(joined, JoinOutcome::Joined));
    assert_eq!(game.player_tags, vec!["A".to_string()]);
    assert!(game.challenge.is_empty());

    let started = join_game(&mut game, "B".to_string());
    assert!(matches!(started, JoinOutcome::Started));
    assert_eq!(game.player_tags, vec!["A".to_string(), "B".to_string()]);
    assert_eq!(game.challenge.len(), 10);
    assert_eq!(game.shot_list, 0);
    (game, keys_a, keys_b)
}

#[test]
fn create_join_join_starts_play() {
    // A two-capacity game: empty descriptor, roster [A], then roster [A, B]
    // with ships placed, a non-empty challenge and a clear bitmask.
    let (game, _, _) = two_player_game();
    assert_eq!(game.boards.ship_set.len(), 2);
    for row in &game.boards.positions {
        for cell in row {
            for state in &cell.fired_state {
                assert!(matches!(state, FiredState::Untouched));
            }
        }
    }
}

#[test]
fn roster_never_exceeds_capacity() {
    let (mut game, _, _) = two_player_game();
    assert!(game.player_tags.len() <= game.number_of_players);
    let rejected = join_game(&mut game, "C".to_string());
    assert!(matches!(rejected, JoinOutcome::Full));
    assert!(game.player_tags.len() <= game.number_of_players);
    assert_eq!(game.player_tags, vec!["A".to_string(), "B".to_string()]);
}

#[test]
fn join_is_idempotent() {
    let (mut game, _, _) = two_player_game();
    let roster_before = game.player_tags.clone();
    let challenge_before = game.challenge.clone();
    let again = join_game(&mut game, "A".to_string());
    assert!(matches!(again, JoinOutcome::AlreadyPresent));
    assert_eq!(game.player_tags, roster_before);
    assert_eq!(game.challenge, challenge_before);
}

#[test]
fn full_round_of_fire() {
    let (mut game, keys_a, keys_b) = two_player_game();

    // A fires at (3, 4) targeting B with a valid proof: bit 0 set, and the
    // cell resolves against B's fleet (row 4 holds only x = 0 and 1: Miss).
    let shot_a = FirePosition::new(proof_of(&keys_a, &game.challenge), 0, 1, 3, 4);
    let outcome = fire(&mut game, &shot_a, &keys_a.decryption_key);
    assert!(matches!(outcome, FireOutcome::Accepted));
    assert_eq!(game.shot_list, 0b01);
    assert!(matches!(game.boards.positions[3][4].fired_state[1], FiredState::Miss));

    // A fires again before B has fired: rejected, bitmask unchanged.
    let shot_a2 = FirePosition::new(proof_of(&keys_a, &game.challenge), 0, 1, 4, 4);
    let outcome = fire(&mut game, &shot_a2, &keys_a.decryption_key);
    assert!(matches!(outcome, FireOutcome::AlreadyActed));
    assert_eq!(game.shot_list, 0b01);
    assert!(matches!(game.boards.positions[4][4].fired_state[1], FiredState::Untouched));

    // B fires: the bitmask reaches 0b11, resets to zero, and the round
    // challenge is regenerated.
    let old_challenge = game.challenge.clone();
    let shot_b = FirePosition::new(proof_of(&keys_b, &game.challenge), 1, 0, 9, 9);
    let outcome = fire(&mut game, &shot_b, &keys_b.decryption_key);
    assert!(matches!(outcome, FireOutcome::Accepted));
    assert_eq!(game.shot_list, 0);
    assert_eq!(game.challenge.len(), 10);
    assert_ne!(game.challenge, old_challenge);

    // A proof built from the previous round's challenge is rejected now.
    let stale = FirePosition::new(proof_of(&keys_a, &old_challenge), 0, 1, 5, 5);
    let outcome = fire(&mut game, &stale, &keys_a.decryption_key);
    assert!(matches!(outcome, FireOutcome::AuthenticationFailed));
    assert_eq!(game.shot_list, 0);
}

#[test]
fn fire_rejected_when_bit_already_set_regardless_of_proof() {
    let (mut game, keys_a, _) = two_player_game();
    let first = FirePosition::new(proof_of(&keys_a, &game.challenge), 0, 1, 0, 0);
    assert!(matches!(fire(&mut game, &first, &keys_a.decryption_key), FireOutcome::Accepted));
    // Even a perfectly valid fresh proof is rejected while the bit is set.
    let second = FirePosition::new(proof_of(&keys_a, &game.challenge), 0, 1, 1, 1);
    assert!(matches!(fire(&mut game, &second, &keys_a.decryption_key), FireOutcome::AlreadyActed));
}

#[test]
fn fire_rejected_on_bad_proof() {
    let (mut game, keys_a, _) = two_player_game();
    let nonsense = FirePosition::new(proof_of(&keys_a, "NotTheChallenge"), 0, 1, 0, 0);
    assert!(matches!(
        fire(&mut game, &nonsense, &keys_a.decryption_key),
        FireOutcome::AuthenticationFailed
    ));
    assert_eq!(game.shot_list, 0);
    let garbage = FirePosition::new(vec![1, 2, 3], 0, 1, 0, 0);
    assert!(matches!(
        fire(&mut game, &garbage, &keys_a.decryption_key),
        FireOutcome::AuthenticationFailed
    ));
}

#[test]
fn fire_rejected_out_of_range() {
    let (mut game, keys_a, _) = two_player_game();
    let wide = FirePosition::new(proof_of(&keys_a, &game.challenge), 0, 1, 10, 0);
    assert!(matches!(fire(&mut game, &wide, &keys_a.decryption_key), FireOutcome::OutOfRange));
    let high = FirePosition::new(proof_of(&keys_a, &game.challenge), 0, 1, 0, 10);
    assert!(matches!(fire(&mut game, &high, &keys_a.decryption_key), FireOutcome::OutOfRange));
    let target = FirePosition::new(proof_of(&keys_a, &game.challenge), 0, 2, 0, 0);
    assert!(matches!(fire(&mut game, &target, &keys_a.decryption_key), FireOutcome::OutOfRange));
    let from = FirePosition::new(proof_of(&keys_a, &game.challenge), 2, 1, 0, 0);
    assert!(matches!(fire(&mut game, &from, &keys_a.decryption_key), FireOutcome::OutOfRange));
    assert_eq!(game.shot_list, 0);
}

#[test]
fn fire_rejected_before_game_starts() {
    let keys_a = PlayerKeys::new();
    let (mut game, _, _) = create_game(2, 0);
    join_game(&mut game, "A".to_string());
    let early = FirePosition::new(proof_of(&keys_a, ""), 0, 1, 0, 0);
    assert!(matches!(
        fire(&mut game, &early, &keys_a.decryption_key),
        FireOutcome::AuthenticationFailed
    ));
}

#[test]
fn fire_over_ship_cell_hits_and_stays_hit() {
    let (mut game, keys_a, keys_b) = two_player_game();

    // (0, 0) is a cell of B's Carrier: Untouched becomes Hit.
    assert!(matches!(game.boards.positions[0][0].fired_state[1], FiredState::Untouched));
    let shot = FirePosition::new(proof_of(&keys_a, &game.challenge), 0, 1, 0, 0);
    assert!(matches!(fire(&mut game, &shot, &keys_a.decryption_key), FireOutcome::Accepted));
    assert!(matches!(game.boards.positions[0][0].fired_state[1], FiredState::Hit));

    // B completes the round; the bitmask resets.
    let shot_b = FirePosition::new(proof_of(&keys_b, &game.challenge), 1, 0, 9, 9);
    assert!(matches!(fire(&mut game, &shot_b, &keys_b.decryption_key), FireOutcome::Accepted));
    assert_eq!(game.shot_list, 0);

    // The same shot in the next round still consumes A's turn bit and the
    // cell stays Hit.
    let again = FirePosition::new(proof_of(&keys_a, &game.challenge), 0, 1, 0, 0);
    assert!(matches!(fire(&mut game, &again, &keys_a.decryption_key), FireOutcome::Accepted));
    assert!(matches!(game.boards.positions[0][0].fired_state[1], FiredState::Hit));
    assert_eq!(game.shot_list, 0b01);
}

#[test]
fn spectator_sees_no_ships() {
    let (game, _, _) = two_player_game();
    let keys_c = PlayerKeys::new();
    let view = get_session_state(
        &game,
        &"C".to_string(),
        &access_key_of(&keys_c),
        Some(&keys_c.decryption_key),
    );
    assert!(matches!(view.access, AccessLevel::Spectator));
    assert!(view.challenge.is_empty());
    assert_eq!(view.roster, vec!["A".to_string(), "B".to_string()]);
    assert!(view.ships.is_empty());
    for row in &view.board {
        for cell in row {
            for state in &cell.fired_state {
                assert!(!matches!(state, FiredState::Ship(_)));
            }
        }
    }
}

#[test]
fn unauthenticated_member_sees_no_ships() {
    let (game, keys_a, _) = two_player_game();
    // A bad access key: decrypts to the wrong plaintext.
    let bad_key = proof_of(&keys_a, "NotARequest")
        .into_iter()
        .map(|b| format!("{:02x}", b))
        .collect::<Vec<String>>()
        .join("");
    let view = get_session_state(&game, &"A".to_string(), &bad_key, Some(&keys_a.decryption_key));
    assert!(matches!(view.access, AccessLevel::Unauthenticated));
    assert_eq!(view.challenge, game.challenge);
    assert!(view.ships.is_empty());
    for row in &view.board {
        for cell in row {
            for state in &cell.fired_state {
                assert!(!matches!(state, FiredState::Ship(_)));
            }
        }
    }
}

#[test]
fn authenticated_member_sees_own_ships_only() {
    let (game, keys_a, _) = two_player_game();
    let view = get_session_state(
        &game,
        &"A".to_string(),
        &access_key_of(&keys_a),
        Some(&keys_a.decryption_key),
    );
    assert!(matches!(view.access, AccessLevel::Player(0)));
    assert_eq!(view.challenge, game.challenge);
    assert_eq!(view.ships.len(), 5);
    assert_eq!(view.ships[0].name, "Carrier");
    // A's own slot shows their ships; the opponent's slot shows none.
    assert!(matches!(&view.board[0][0].fired_state[0], FiredState::Ship(kind) if kind == "Carrier"));
    assert!(matches!(view.board[0][0].fired_state[1], FiredState::Untouched));
    assert!(matches!(view.board[9][9].fired_state[0], FiredState::Untouched));
    for row in &view.board {
        for cell in row {
            assert!(!matches!(cell.fired_state[1], FiredState::Ship(_)));
        }
    }
}

#[test]
fn view_before_start_shows_empty_board() {
    let keys_a = PlayerKeys::new();
    let (mut game, _, _) = create_game(2, 0);
    join_game(&mut game, "A".to_string());
    let view = get_session_state(
        &game,
        &"A".to_string(),
        &access_key_of(&keys_a),
        Some(&keys_a.decryption_key),
    );
    // Play has not begun: even a valid proof gives the pending view.
    assert!(matches!(view.access, AccessLevel::Unauthenticated));
    assert!(view.challenge.is_empty());
    assert!(view.ships.is_empty());
    for row in &view.board {
        for cell in row {
            for state in &cell.fired_state {
                assert!(matches!(state, FiredState::Empty));
            }
        }
    }
}

#[test]
fn view_without_key_is_unauthenticated() {
    let (game, _, _) = two_player_game();
    let view = get_session_state(&game, &"A".to_string(), &"00".to_string(), None);
    assert!(matches!(view.access, AccessLevel::Unauthenticated));
    assert!(view.ships.is_empty());
}

#[test]
fn loaded_documents_can_be_validated() {
    let (game, _, _) = two_player_game();
    assert!(game.is_well_formed());

    // A bitmask bit outside the roster is rejected.
    let mut bad = load_like(&game);
    bad.shot_list = 0b100;
    assert!(!bad.is_well_formed());

    // A duplicated roster handle is rejected.
    let mut bad = load_like(&game);
    bad.player_tags = vec!["A".to_string(), "A".to_string()];
    assert!(!bad.is_well_formed());

    // A stored Ship state is rejected: stored boards never show ships.
    let mut bad = load_like(&game);
    bad.boards.positions[2][3].fired_state[0] = FiredState::Ship("Carrier".to_string());
    assert!(!bad.is_well_formed());

    // A truncated grid is rejected.
    let mut bad = load_like(&game);
    bad.boards.positions.pop();
    assert!(!bad.is_well_formed());

    // A challenge of the wrong shape is rejected.
    let mut bad = load_like(&game);
    bad.challenge = "short".to_string();
    assert!(!bad.is_well_formed());
}

fn load_like(game: &Game) -> Game {
    // Rebuild the session the way a store round trip would: plain values,
    // field by field.
    Game {
        boards: battleship::board::Board {
            positions: game
                .boards
                .positions
                .iter()
                .map(|row| {
                    row.iter()
                        .map(|cell| battleship::position::Position {
                            fired_state: cell
                                .fired_state
                                .iter()
                                .map(|s| match s {
                                    FiredState::Hit => FiredState::Hit,
                                    FiredState::Miss => FiredState::Miss,
                                    FiredState::Untouched => FiredState::Untouched,
                                    FiredState::Empty => FiredState::Empty,
                                    FiredState::Ship(kind) => FiredState::Ship(kind.clone()),
                                })
                                .collect(),
                        })
                        .collect()
                })
                .collect(),
            ship_set: game
                .boards
                .ship_set
                .iter()
                .map(|fleet| {
                    fleet
                        .iter()
                        .map(|ship| battleship::ship::Ship {
                            name: ship.name.clone(),
                            location: ship.location.clone(),
                        })
                        .collect()
                })
                .collect(),
            players: game.boards.players,
        },
        number_of_players: game.number_of_players,
        player_tags: game.player_tags.clone(),
        challenge: game.challenge.clone(),
        game_number: game.game_number,
        shot_list: game.shot_list,
    }
}
