use poker_module::keys::{game_id_for, player_id_for};
use poker_module::text::{decimal_string, signed_decimal_string};
use poker_module::{GameStatus, Identity, LobbyError, RecordKind, Timestamp};

#[test]
fn decimal_of_small_and_large_numbers() {
    assert_eq!(decimal_string(0), "0");
    assert_eq!(decimal_string(7), "7");
    assert_eq!(decimal_string(9), "9");
    assert_eq!(decimal_string(10), "10");
    assert_eq!(decimal_string(1_234_567_890), "1234567890");
    assert_eq!(decimal_string(u64::MAX), "18446744073709551615");
}

#[test]
fn decimal_agrees_with_the_standard_rendering() {
    let mut n = 1u64;
    for _ in 0..64 {
        assert_eq!(decimal_string(n), n.to_string());
        assert_eq!(decimal_string(n - 1), (n - 1).to_string());
        n = n.wrapping_mul(2);
    }
}

#[test]
fn signed_decimal_at_the_ends_of_the_range() {
    assert_eq!(signed_decimal_string(0), "0");
    assert_eq!(signed_decimal_string(-1), "-1");
    assert_eq!(signed_decimal_string(42), "42");
    assert_eq!(signed_decimal_string(-1_000_000), "-1000000");
    assert_eq!(signed_decimal_string(i64::MAX), "9223372036854775807");
    assert_eq!(signed_decimal_string(i64::MIN), "-9223372036854775808");
}

#[test]
fn game_keys_count_up_in_decimal() {
    assert_eq!(game_id_for(0), "game_0");
    assert_eq!(game_id_for(1), "game_1");
    assert_eq!(game_id_for(10), "game_10");
    assert_eq!(game_id_for(907), "game_907");
    assert_eq!(game_id_for(u64::MAX), "game_18446744073709551615");
}

#[test]
fn player_key_holds_identity_in_hex_and_join_time() {
    let mut bytes = [0u8; 32];
    for (i, b) in bytes.iter_mut().enumerate() {
        *b = i as u8;
    }
    let id = Identity::from_be_bytes(bytes);
    assert_eq!(
        player_id_for(&id, Timestamp::from_micros(1_700_000_000_000_000)),
        "player_000102030405060708090a0b0c0d0e0f101112131415161718191a1b1c1d1e1f_1700000000000000"
    );
}

#[test]
fn player_key_writes_high_digit_first_in_lower_case() {
    let mut bytes = [0u8; 32];
    bytes[0] = 0xC2;
    bytes[1] = 0x00;
    bytes[2] = 0xAB;
    bytes[30] = 0x9F;
    bytes[31] = 0xF0;
    let id = Identity::from_be_bytes(bytes);
    assert_eq!(
        player_id_for(&id, Timestamp::from_micros(-5)),
        "player_c200ab0000000000000000000000000000000000000000000000000000009ff0_-5"
    );
}

#[test]
fn player_key_matches_the_host_rendering() {
    let mut bytes = [0u8; 32];
    for (i, b) in bytes.iter_mut().enumerate() {
        *b = (i as u8).wrapping_mul(37).wrapping_add(11);
    }
    let host = spacetimedb::Identity::from_be_byte_array(bytes);
    let expected = format!("player_{}_{}", host, 123_456_789i64);
    let id = Identity::from_be_bytes(bytes);
    assert_eq!(player_id_for(&id, Timestamp::from_micros(123_456_789)), expected);
}

#[test]
fn identity_keeps_its_bytes() {
    let mut bytes = [0u8; 32];
    bytes[0] = 1;
    bytes[31] = 255;
    let id = Identity::from_be_bytes(bytes);
    assert_eq!(id.to_be_bytes(), bytes);
    let mut other = bytes;
    other[15] = 1;
    let near = Identity::from_be_bytes(other);
    assert!(id.same_as(&Identity::from_be_bytes(bytes)));
    assert!(!id.same_as(&near));
    assert!(!near.same_as(&id));
    let mut last = bytes;
    last[31] = 254;
    assert!(!id.same_as(&Identity::from_be_bytes(last)));
    let mut first = bytes;
    first[0] = 0;
    assert!(!id.same_as(&Identity::from_be_bytes(first)));
}

#[test]
fn every_failure_has_its_sentence() {
    assert_eq!(LobbyError::NotFound(RecordKind::Game).reason(), "Game not found");
    assert_eq!(
        LobbyError::NotFound(RecordKind::Player).reason(),
        "Player not found in this game"
    );
    assert_eq!(LobbyError::Capacity.reason(), "Game is full");
    assert_eq!(LobbyError::Duplicate.reason(), "Player already in this game");
    assert_eq!(LobbyError::InsufficientFunds.reason(), "Not enough chips");
    assert_eq!(LobbyError::Conflict.reason(), "Identifier already in use");
}

#[test]
fn every_phase_has_its_label() {
    assert_eq!(GameStatus::Waiting.label(), "waiting");
    assert_eq!(GameStatus::Active.label(), "active");
    assert_eq!(GameStatus::Finished.label(), "finished");
}

#[test]
fn labels_name_their_phase_and_nothing_else_does() {
    assert_eq!(GameStatus::from_label(&"waiting".to_string()), Some(GameStatus::Waiting));
    assert_eq!(GameStatus::from_label(&"active".to_string()), Some(GameStatus::Active));
    assert_eq!(GameStatus::from_label(&"finished".to_string()), Some(GameStatus::Finished));
    assert_eq!(GameStatus::from_label(&"Waiting".to_string()), None);
    assert_eq!(GameStatus::from_label(&"".to_string()), None);
    assert_eq!(GameStatus::from_label(&"waiting ".to_string()), None);
}
