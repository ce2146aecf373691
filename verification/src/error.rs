//! The ways in which a lobby operation can fail.

use vstd::prelude::*;

verus! {

/// The two kinds of record that the lobby keeps.
#[derive(Clone, Copy, Debug, PartialEq, Eq, Structural)]
pub enum RecordKind {
    Game,
    Player,
}

/// Why an operation was refused. A refused operation leaves the lobby as it was.
#[derive(Clone, Copy, Debug, PartialEq, Eq, Structural)]
pub enum LobbyError {
    /// No record of this kind has the key that was asked for.
    NotFound(RecordKind),
    /// The game has no free seat.
    Capacity,
    /// The caller already sits in this game.
    Duplicate,
    /// The bet is larger than the player's chips.
    InsufficientFunds,
    /// The key of a new record is already taken.
    Conflict,
}

impl LobbyError {
    /// The sentence shown to the caller for each kind of failure.
    pub open spec fn reason_text(self) -> Seq<char> {
        match self {
            LobbyError::NotFound(RecordKind::Game) => "Game not found"@,
            LobbyError::NotFound(RecordKind::Player) => "Player not found in this game"@,
            LobbyError::Capacity => "Game is full"@,
            LobbyError::Duplicate => "Player already in this game"@,
            LobbyError::InsufficientFunds => "Not enough chips"@,
            LobbyError::Conflict => "Identifier already in use"@,
        }
    }

    /// A human-readable reason for the failure.
    pub fn reason(&self) -> (text: String)
        ensures
            text@ == self.reason_text(),
    {
        match self {
            LobbyError::NotFound(RecordKind::Game) => "Game not found".to_owned(),
            LobbyError::NotFound(RecordKind::Player) => "Player not found in this game".to_owned(),
            LobbyError::Capacity => "Game is full".to_owned(),
            LobbyError::Duplicate => "Player already in this game".to_owned(),
            LobbyError::InsufficientFunds => "Not enough chips".to_owned(),
            LobbyError::Conflict => "Identifier already in use".to_owned(),
        }
    }
}

} // verus!
