use battleship::animation_level::{AnimationLevel, FromStringify, ToStringify};
use battleship::keys::{issue_identity, player_handle, PlayerKeys};

#[test]
fn fresh_keys_have_serialized_shapes() {
    let keys = PlayerKeys::new();
    assert_eq!(keys.decryption_key.len(), 32);
    assert_eq!(keys.encryption_key.len(), 65);
    assert!(!keys.info_key.is_empty());
    assert!(keys.info_key.chars().all(|c| c.is_ascii_hexdigit()));
    // The info key renders a real ciphertext, not the plaintext itself:
    // the compact hex of the bytes of "Request" would be this.
    assert_ne!(keys.info_key, "52657175657374");
}

#[test]
fn keypair_round_trips_through_the_cipher() {
    let keys = PlayerKeys::new();
    let ciphertext = ecies::encrypt(&keys.encryption_key, b"Request").unwrap();
    let plain = ecies::decrypt(&keys.decryption_key, &ciphertext).unwrap();
    assert_eq!(plain, b"Request");
    // A different keypair cannot read it.
    let other = PlayerKeys::new();
    assert!(ecies::decrypt(&other.decryption_key, &ciphertext).is_err());
}

#[test]
fn public_key_string_is_the_json_of_the_key() {
    let keys = PlayerKeys::new();
    let rendered = keys.public_key_string();
    let expected = serde_json::to_string(&keys.encryption_key).unwrap();
    assert_eq!(rendered, expected);
    let parsed: Vec<u8> = serde_json::from_str(&rendered).unwrap();
    assert_eq!(parsed, keys.encryption_key);
}

#[test]
fn identities_carry_sequential_handles() {
    assert_eq!(player_handle(0), "player_0");
    assert_eq!(player_handle(17), "player_17");
    let (handle, keys, next) = issue_identity(41);
    assert_eq!(handle, "player_41");
    assert_eq!(next, 42);
    assert_eq!(keys.decryption_key.len(), 32);
}

#[test]
fn animation_level_round_trips_through_storage_text() {
    assert_eq!(AnimationLevel::High.convert_to_string(), "High");
    assert_eq!(AnimationLevel::Low.convert_to_string(), "Low");
    assert_eq!(AnimationLevel::Off.convert_to_string(), "None");
    assert!(matches!("High".to_string().convert_from_string(), AnimationLevel::High));
    assert!(matches!("Low".to_string().convert_from_string(), AnimationLevel::Low));
    assert!(matches!("None".to_string().convert_from_string(), AnimationLevel::Off));
    assert!(matches!("anything".to_string().convert_from_string(), AnimationLevel::Off));
    for level in [AnimationLevel::Off, AnimationLevel::Low, AnimationLevel::High] {
        let text = level.convert_to_string();
        assert!(text.convert_from_string() == level);
    }
}
