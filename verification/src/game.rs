//! Game records and the registry that stores them by key.

use crate::error::{LobbyError, RecordKind};
use crate::identity::Timestamp;
use vstd::prelude::*;

verus! {

/// The phase of a game. Every game is opened as `Waiting`.
#[derive(Clone, Copy, Debug, PartialEq, Eq, Structural)]
pub enum GameStatus {
    Waiting,
    Active,
    Finished,
}

impl GameStatus {
    /// The lower-case name of the phase.
    pub open spec fn label_text(self) -> Seq<char> {
        match self {
            GameStatus::Waiting => "waiting"@,
            GameStatus::Active => "active"@,
            GameStatus::Finished => "finished"@,
        }
    }

    /// The lower-case name of the phase.
    pub fn label(&self) -> (text: &'static str)
        ensures
            text@ == self.label_text(),
    {
        match self {
            GameStatus::Waiting => "waiting",
            GameStatus::Active => "active",
            GameStatus::Finished => "finished",
        }
    }

    /// The phase that `label` names, if it names one.
    pub fn from_label(label: &String) -> (status: Option<GameStatus>)
        ensures
            status == if label@ == GameStatus::Waiting.label_text() {
                Some(GameStatus::Waiting)
            } else if label@ == GameStatus::Active.label_text() {
                Some(GameStatus::Active)
            } else if label@ == GameStatus::Finished.label_text() {
                Some(GameStatus::Finished)
            } else {
                None
            },
    {
        if *label == "waiting".to_owned() {
            Some(GameStatus::Waiting)
        } else if *label == "active".to_owned() {
            Some(GameStatus::Active)
        } else if *label == "finished".to_owned() {
            Some(GameStatus::Finished)
        } else {
            None
        }
    }
}

/// One table of the lobby.
#[derive(Debug)]
pub struct PokerGame {
    pub game_id: String,
    pub name: String,
    pub status: GameStatus,
    pub current_round: u32,
    pub pot_amount: u64,
    pub buy_in: u64,
    pub max_players: u32,
    pub created_at: Timestamp,
    pub updated_at: Timestamp,
}

/// A game as a mathematical value.
pub struct GameView {
    pub game_id: Seq<char>,
    pub name: Seq<char>,
    pub status: GameStatus,
    pub current_round: nat,
    pub pot_amount: nat,
    pub buy_in: nat,
    pub max_players: nat,
    pub created_at: Timestamp,
    pub updated_at: Timestamp,
}

impl View for PokerGame {
    type V = GameView;

    open spec fn view(&self) -> GameView {
        GameView {
            game_id: self.game_id@,
            name: self.name@,
            status: self.status,
            current_round: self.current_round as nat,
            pot_amount: self.pot_amount as nat,
            buy_in: self.buy_in as nat,
            max_players: self.max_players as nat,
            created_at: self.created_at,
            updated_at: self.updated_at,
        }
    }
}

impl GameView {
    /// A game as it is opened: waiting, in round 0, with an empty pot.
    pub open spec fn opened(
        game_id: Seq<char>,
        name: Seq<char>,
        buy_in: nat,
        max_players: nat,
        now: Timestamp,
    ) -> GameView {
        GameView {
            game_id,
            name,
            status: GameStatus::Waiting,
            current_round: 0,
            pot_amount: 0,
            buy_in,
            max_players,
            created_at: now,
            updated_at: now,
        }
    }

    /// This game after `amount` chips went into its pot at `now`.
    pub open spec fn credited(self, amount: nat, now: Timestamp) -> GameView {
        GameView { pot_amount: self.pot_amount + amount, updated_at: now, ..self }
    }

    /// This game after an operation touched it at `now` without moving chips.
    pub open spec fn touched(self, now: Timestamp) -> GameView {
        GameView { updated_at: now, ..self }
    }
}

impl Clone for PokerGame {
    fn clone(&self) -> (copy: Self)
        ensures
            copy == *self,
    {
        PokerGame {
            game_id: self.game_id.clone(),
            name: self.name.clone(),
            status: self.status,
            current_round: self.current_round,
            pot_amount: self.pot_amount,
            buy_in: self.buy_in,
            max_players: self.max_players,
            created_at: self.created_at,
            updated_at: self.updated_at,
        }
    }
}

impl PokerGame {
    /// Opens a game: waiting, in round 0, with an empty pot, created and last
    /// updated at `now`.
    pub fn open(
        game_id: String,
        name: String,
        buy_in: u64,
        max_players: u32,
        now: Timestamp,
    ) -> (game: PokerGame)
        ensures
            game@ == GameView::opened(game_id@, name@, buy_in as nat, max_players as nat, now),
    {
        PokerGame {
            game_id,
            name,
            status: GameStatus::Waiting,
            current_round: 0,
            pot_amount: 0,
            buy_in,
            max_players,
            created_at: now,
            updated_at: now,
        }
    }

    /// The game with `amount` more chips in its pot, updated at `now`.
    pub fn credited(&self, amount: u64, now: Timestamp) -> (game: PokerGame)
        requires
            self.pot_amount + amount <= u64::MAX,
        ensures
            game@ == self@.credited(amount as nat, now),
    {
        let mut game = self.clone();
        game.pot_amount = self.pot_amount + amount;
        game.updated_at = now;
        game
    }

    /// The game with its update time set to `now`.
    pub fn touched(&self, now: Timestamp) -> (game: PokerGame)
        ensures
            game@ == self@.touched(now),
    {
        let mut game = self.clone();
        game.updated_at = now;
        game
    }
}

/// Whether some game in `games` has the key `id`.
pub open spec fn has_game(games: Seq<GameView>, id: Seq<char>) -> bool {
    exists|i: int| 0 <= i < games.len() && #[trigger] games[i].game_id == id
}

/// The position of the game with key `id`, where there is one.
pub open spec fn game_index(games: Seq<GameView>, id: Seq<char>) -> int {
    choose|i: int| 0 <= i < games.len() && #[trigger] games[i].game_id == id
}

/// No two games share a key.
pub open spec fn distinct_game_ids(games: Seq<GameView>) -> bool {
    forall|i: int, j: int|
        0 <= i < j < games.len() ==> #[trigger] games[i].game_id != #[trigger] games[j].game_id
}

/// In a registry with distinct keys, a position that holds the key is the
/// position of that key.
pub proof fn lemma_game_index_unique(games: Seq<GameView>, id: Seq<char>, i: int)
    requires
        distinct_game_ids(games),
        0 <= i < games.len(),
        games[i].game_id == id,
    ensures
        has_game(games, id),
        game_index(games, id) == i,
{
    let k = game_index(games, id);
    assert(games[k].game_id == games[i].game_id);
}

/// The games of a lobby, stored by key in the order in which they were added.
pub struct GameRegistry {
    rows: Vec<PokerGame>,
}

impl View for GameRegistry {
    type V = Seq<GameView>;

    closed spec fn view(&self) -> Seq<GameView> {
        Seq::new(self.rows@.len(), |i: int| self.rows@[i]@)
    }
}

impl GameRegistry {
    /// The registry's invariant: no two games share a key.
    pub open spec fn wf(&self) -> bool {
        distinct_game_ids(self@)
    }

    /// A registry without games.
    pub fn new() -> (registry: GameRegistry)
        ensures
            registry@ == Seq::<GameView>::empty(),
            registry.wf(),
    {
        let registry = GameRegistry { rows: Vec::new() };
        assert(registry@ =~= Seq::<GameView>::empty());
        registry
    }

    /// The number of games.
    pub fn len(&self) -> (n: usize)
        ensures
            n == self@.len(),
    {
        self.rows.len()
    }

    /// The game at position `i`, in the order in which the games were added.
    pub fn row(&self, i: usize) -> (game: &PokerGame)
        requires
            i < self@.len(),
        ensures
            game@ == self@[i as int],
    {
        &self.rows[i]
    }

    fn position(&self, game_id: &String) -> (found: Option<usize>)
        ensures
            match found {
                Some(i) => i < self@.len() && self@[i as int].game_id == game_id@,
                None => !has_game(self@, game_id@),
            },
    {
        let mut i: usize = 0;
        while i < self.rows.len()
            invariant
                i <= self.rows@.len(),
                forall|j: int| 0 <= j < i ==> (#[trigger] self@[j]).game_id != game_id@,
            decreases self.rows@.len() - i,
        {
            if self.rows[i].game_id == *game_id {
                return Some(i);
            }
            i += 1;
        }
        None
    }

    /// Looks a game up by its key.
    pub fn find(&self, game_id: &String) -> (found: Option<&PokerGame>)
        requires
            self.wf(),
        ensures
            match found {
                Some(game) => {
                    &&& has_game(self@, game_id@)
                    &&& game@ == self@[game_index(self@, game_id@)]
                },
                None => !has_game(self@, game_id@),
            },
    {
        match self.position(game_id) {
            Some(i) => {
                proof {
                    lemma_game_index_unique(self@, game_id@, i as int);
                }
                Some(&self.rows[i])
            },
            None => None,
        }
    }

    /// Adds a game under its key. Fails with `Conflict`, and changes nothing,
    /// when the key is already taken.
    pub fn create(&mut self, record: PokerGame) -> (result: Result<(), LobbyError>)
        requires
            old(self).wf(),
        ensures
            final(self).wf(),
            match result {
                Ok(()) => {
                    &&& !has_game(old(self)@, record@.game_id)
                    &&& final(self)@ == old(self)@.push(record@)
                },
                Err(e) => {
                    &&& e == LobbyError::Conflict
                    &&& has_game(old(self)@, record@.game_id)
                    &&& final(self)@ == old(self)@
                },
            },
    {
        match self.position(&record.game_id) {
            Some(_) => Err(LobbyError::Conflict),
            None => {
                let ghost before = self@;
                let ghost added = record@;
                self.rows.push(record);
                assert(self@ =~= before.push(added));
                Ok(())
            },
        }
    }

    /// Replaces the game that has the key of `record`. Fails with
    /// `NotFound(Game)`, and changes nothing, when no game has that key.
    pub fn update(&mut self, record: PokerGame) -> (result: Result<(), LobbyError>)
        requires
            old(self).wf(),
        ensures
            final(self).wf(),
            match result {
                Ok(()) => {
                    &&& has_game(old(self)@, record@.game_id)
                    &&& final(self)@ == old(self)@.update(
                        game_index(old(self)@, record@.game_id),
                        record@,
                    )
                },
                Err(e) => {
                    &&& e == LobbyError::NotFound(RecordKind::Game)
                    &&& !has_game(old(self)@, record@.game_id)
                    &&& final(self)@ == old(self)@
                },
            },
    {
        match self.position(&record.game_id) {
            Some(i) => {
                let ghost before = self@;
                let ghost replaced = record@;
                proof {
                    lemma_game_index_unique(before, replaced.game_id, i as int);
                }
                self.rows.set(i, record);
                assert(self@ =~= before.update(i as int, replaced));
                Ok(())
            },
            None => Err(LobbyError::NotFound(RecordKind::Game)),
        }
    }
}

} // verus!
