use battleship::codec::{dec_string, hex_decode, hex_string, json_u8_string};
use battleship::database::{evocation, game_key, game_update_key, should_wake, DatabaseOption};
use battleship::game::Game;
use battleship::link::GameListEntry;

#[test]
fn decimal_rendering_is_exact() {
    assert_eq!(dec_string(0), "0");
    assert_eq!(dec_string(7), "7");
    assert_eq!(dec_string(10), "10");
    assert_eq!(dec_string(1234567890), "1234567890");
    assert_eq!(dec_string(u64::MAX), "18446744073709551615");
}

#[test]
fn hex_rendering_is_compact() {
    // One digit below 16, two digits otherwise, matching the engine's
    // compact key rendering.
    assert_eq!(hex_string(&vec![]), "");
    assert_eq!(hex_string(&vec![0x0f, 0xa0, 0x05]), "fa05");
    assert_eq!(hex_string(&vec![0x00, 0xff]), "0ff");
}

#[test]
fn hex_decoding_reads_pairs() {
    assert_eq!(hex_decode("0a1f").unwrap(), vec![0x0a, 0x1f]);
    assert_eq!(hex_decode("").unwrap(), Vec::<u8>::new());
    assert_eq!(hex_decode("AB").unwrap(), vec![0xab]);
    // A trailing unpaired character is ignored, as the engine reads keys.
    assert_eq!(hex_decode("0a1").unwrap(), vec![0x0a]);
    assert!(hex_decode("zz").is_none());
    assert!(hex_decode("0g").is_none());
}

#[test]
fn json_byte_arrays_render_like_json() {
    assert_eq!(json_u8_string(&vec![]), "[]");
    assert_eq!(json_u8_string(&vec![4]), "[4]");
    assert_eq!(json_u8_string(&vec![1, 2, 255]), "[1,2,255]");
}

#[test]
fn game_link_and_store_keys() {
    let game = Game::new(2, 42);
    assert_eq!(game.get_link(), "http://127.0.0.1:8000/game/42");
    assert_eq!(game_key(42), "game_42");
    assert_eq!(game_update_key(7), "game_update_7");
}

#[test]
fn database_vocabulary() {
    assert_eq!(DatabaseOption::GET.command_name(), "GET");
    assert_eq!(DatabaseOption::SET.command_name(), "SET");
    assert_eq!(DatabaseOption::RENAME.command_name(), "RENAME");
    assert_eq!(evocation(), "database.rs");
    assert!(should_wake(&"true".to_string()));
    assert!(!should_wake(&"false".to_string()));
    assert!(!should_wake(&"".to_string()));
}

#[test]
fn directory_entries_enforce_capacity() {
    let entry = GameListEntry::new(3, 2);
    assert!(!entry.is_full());
    let one = entry.add_player("A".to_string()).unwrap();
    let two = one.add_player("B".to_string()).unwrap();
    assert!(two.is_full());
    assert_eq!(two.active_player_names, vec!["A".to_string(), "B".to_string()]);
    match two.add_player("C".to_string()) {
        Err(message) => assert_eq!(message, "Game is already full"),
        Ok(_) => panic!("join of a full entry was accepted"),
    }
    // The original entry is untouched: add_player returns a copy.
    assert!(entry.active_player_names.is_empty());
}
