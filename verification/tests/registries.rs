use poker_module::{
    GameRegistry, GameStatus, Identity, LobbyError, PlayerRegistry, PokerGame, PokerPlayer,
    RecordKind, Timestamp,
};

fn text(s: &str) -> String {
    s.to_string()
}

fn identity(tag: u8) -> Identity {
    let mut bytes = [0u8; 32];
    bytes[0] = tag;
    Identity::from_be_bytes(bytes)
}

fn game(id: &str, buy_in: u64) -> PokerGame {
    PokerGame::open(text(id), text("table"), buy_in, 4, Timestamp::from_micros(1))
}

fn player(id: &str, game_id: &str, tag: u8) -> PokerPlayer {
    PokerPlayer::seat(
        text(id),
        text(game_id),
        identity(tag),
        text("someone"),
        100,
        Timestamp::from_micros(2),
    )
}

#[test]
fn game_registry_finds_what_was_created() {
    let mut games = GameRegistry::new();
    assert_eq!(games.len(), 0);
    assert!(games.find(&text("a")).is_none());
    assert_eq!(games.create(game("a", 10)), Ok(()));
    assert_eq!(games.create(game("b", 20)), Ok(()));
    assert_eq!(games.create(game("c", 30)), Ok(()));
    assert_eq!(games.len(), 3);
    assert_eq!(games.find(&text("a")).unwrap().buy_in, 10);
    assert_eq!(games.find(&text("b")).unwrap().buy_in, 20);
    assert_eq!(games.find(&text("c")).unwrap().buy_in, 30);
    assert!(games.find(&text("d")).is_none());
    assert!(games.find(&text("")).is_none());
    assert_eq!(games.row(0).game_id, "a");
    assert_eq!(games.row(2).game_id, "c");
}

#[test]
fn game_registry_refuses_a_taken_key() {
    let mut games = GameRegistry::new();
    assert_eq!(games.create(game("a", 10)), Ok(()));
    assert_eq!(games.create(game("a", 99)), Err(LobbyError::Conflict));
    assert_eq!(games.len(), 1);
    assert_eq!(games.find(&text("a")).unwrap().buy_in, 10);
}

#[test]
fn game_registry_replaces_by_key() {
    let mut games = GameRegistry::new();
    assert_eq!(games.create(game("a", 10)), Ok(()));
    assert_eq!(games.create(game("b", 20)), Ok(()));
    let changed = games.find(&text("a")).unwrap().credited(7, Timestamp::from_micros(9));
    assert_eq!(games.update(changed), Ok(()));
    assert_eq!(games.len(), 2);
    assert_eq!(games.row(0).game_id, "a");
    assert_eq!(games.row(0).pot_amount, 7);
    assert_eq!(games.row(0).updated_at, Timestamp::from_micros(9));
    assert_eq!(games.row(0).created_at, Timestamp::from_micros(1));
    assert_eq!(games.row(1).pot_amount, 0);

    let missing = games.update(game("z", 1));
    assert_eq!(missing, Err(LobbyError::NotFound(RecordKind::Game)));
    assert_eq!(games.len(), 2);
}

#[test]
fn game_record_steps() {
    let opened = game("a", 10);
    assert_eq!(opened.status, GameStatus::Waiting);
    assert_eq!(opened.current_round, 0);
    assert_eq!(opened.pot_amount, 0);
    let credited = opened.credited(25, Timestamp::from_micros(3));
    assert_eq!(credited.pot_amount, 25);
    assert_eq!(credited.updated_at, Timestamp::from_micros(3));
    assert_eq!(credited.created_at, Timestamp::from_micros(1));
    let touched = credited.touched(Timestamp::from_micros(4));
    assert_eq!(touched.pot_amount, 25);
    assert_eq!(touched.updated_at, Timestamp::from_micros(4));
    assert_eq!(touched.game_id, "a");
    assert_eq!(touched.name, "table");
    assert_eq!(touched.buy_in, 10);
    assert_eq!(touched.max_players, 4);
}

#[test]
fn player_record_steps() {
    let seated = player("p", "g", 1);
    assert!(seated.is_active);
    assert!(!seated.is_folded);
    assert_eq!((seated.chips, seated.current_bet), (100, 0));
    let bet = seated.after_bet(40);
    assert_eq!((bet.chips, bet.current_bet), (60, 40));
    let all_in = bet.after_bet(60);
    assert_eq!((all_in.chips, all_in.current_bet), (0, 100));
    let folded = all_in.folded();
    assert!(folded.is_folded);
    assert!(folded.is_active);
    assert_eq!((folded.chips, folded.current_bet), (0, 100));
    assert_eq!(folded.player_id, "p");
    assert_eq!(folded.game_id, "g");
    assert_eq!(folded.joined_at, Timestamp::from_micros(2));
}

#[test]
fn player_registry_finds_by_key_and_by_seat() {
    let mut players = PlayerRegistry::new();
    assert_eq!(players.create(player("pa", "g1", 1)), Ok(()));
    assert_eq!(players.create(player("pb", "g1", 2)), Ok(()));
    assert_eq!(players.create(player("pc", "g2", 1)), Ok(()));
    assert_eq!(players.len(), 3);
    assert_eq!(players.find(&text("pb")).unwrap().identity, identity(2));
    assert!(players.find(&text("pd")).is_none());
    assert_eq!(
        players.find_by_game_and_identity(&text("g1"), &identity(1)).unwrap().player_id,
        "pa"
    );
    assert_eq!(
        players.find_by_game_and_identity(&text("g2"), &identity(1)).unwrap().player_id,
        "pc"
    );
    assert!(players.find_by_game_and_identity(&text("g2"), &identity(2)).is_none());
    assert!(players.find_by_game_and_identity(&text("g3"), &identity(1)).is_none());
    assert_eq!(players.row(1).player_id, "pb");
}

#[test]
fn player_registry_counts_by_game() {
    let mut players = PlayerRegistry::new();
    assert_eq!(players.count_by_game(&text("g1")), 0);
    assert_eq!(players.create(player("pa", "g1", 1)), Ok(()));
    assert_eq!(players.create(player("pb", "g2", 1)), Ok(()));
    assert_eq!(players.create(player("pc", "g1", 2)), Ok(()));
    assert_eq!(players.create(player("pd", "g1", 3)), Ok(()));
    assert_eq!(players.count_by_game(&text("g1")), 3);
    assert_eq!(players.count_by_game(&text("g2")), 1);
    assert_eq!(players.count_by_game(&text("g3")), 0);
}

#[test]
fn player_registry_refuses_a_taken_key_or_seat() {
    let mut players = PlayerRegistry::new();
    assert_eq!(players.create(player("pa", "g1", 1)), Ok(()));
    assert_eq!(players.create(player("pa", "g2", 2)), Err(LobbyError::Conflict));
    assert_eq!(players.create(player("pb", "g1", 1)), Err(LobbyError::Duplicate));
    assert_eq!(players.create(player("pa", "g1", 1)), Err(LobbyError::Conflict));
    assert_eq!(players.len(), 1);
}

#[test]
fn player_registry_replaces_by_key() {
    let mut players = PlayerRegistry::new();
    assert_eq!(players.create(player("pa", "g1", 1)), Ok(()));
    assert_eq!(players.create(player("pb", "g1", 2)), Ok(()));
    let changed = players.find(&text("pb")).unwrap().after_bet(30);
    assert_eq!(players.update(changed), Ok(()));
    assert_eq!(players.row(1).chips, 70);
    assert_eq!(players.row(1).current_bet, 30);
    assert_eq!(players.row(0).chips, 100);

    let missing = players.update(player("pz", "g1", 9));
    assert_eq!(missing, Err(LobbyError::NotFound(RecordKind::Player)));

    let moved_onto_a_taken_seat = players.update(player("pb", "g1", 1));
    assert_eq!(moved_onto_a_taken_seat, Err(LobbyError::Duplicate));
    assert_eq!(players.row(1).identity, identity(2));
    assert_eq!(players.row(1).chips, 70);

    let moved_to_a_free_seat = players.update(player("pb", "g2", 1));
    assert_eq!(moved_to_a_free_seat, Ok(()));
    assert_eq!(players.row(1).game_id, "g2");
    assert_eq!(players.count_by_game(&text("g1")), 1);
}
