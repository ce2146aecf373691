//! Transactional core of a multiplayer poker lobby: games, players and the
//! four operations that create a game, seat a player, place a bet and fold.
//!
//! The lobby is an in-memory value. A host hands each operation the lobby, the
//! caller's identity and the time of the call; the operation either applies all
//! of its writes or none of them.

pub mod error;
pub mod game;
pub mod identity;
pub mod keys;
pub mod laws;
pub mod ledger;
pub mod lobby;
pub mod player;
pub mod text;

pub use error::{LobbyError, RecordKind};
pub use game::{GameRegistry, GameStatus, PokerGame};
pub use identity::{CallContext, Identity, Timestamp};
pub use lobby::{create_poker_game, fold_poker_hand, join_poker_game, place_poker_bet, Lobby};
pub use player::{PlayerRegistry, PokerPlayer};
