//! The lobby and its four operations. Each operation either succeeds and
//! applies all of its writes, or fails and leaves the lobby as it was.

use crate::error::{LobbyError, RecordKind};
use crate::game::{distinct_game_ids, game_index, has_game, GameRegistry, GameView, PokerGame};
use crate::identity::{CallContext, Timestamp};
use crate::keys::{game_id_for, game_id_text, player_id_for, player_id_text};
use crate::ledger::{
    lemma_create_game_keeps_consistent, lemma_fold_hand_keeps_consistent,
    lemma_join_game_keeps_consistent, lemma_place_bet_keeps_consistent,
};
use crate::player::{
    count_in_game, distinct_player_ids, distinct_seats, has_member, has_player,
    lemma_player_index_unique, seat_index, PlayerRegistry, PlayerView, PokerPlayer,
};
use vstd::prelude::*;

verus! {

/// The shared state: every game, every player, and the serial number that the
/// next game will get.
pub struct Lobby {
    games: GameRegistry,
    players: PlayerRegistry,
    next_game_number: u64,
}

/// A lobby as a mathematical value.
pub struct LobbyView {
    pub games: Seq<GameView>,
    pub players: Seq<PlayerView>,
    pub next_game_number: nat,
}

impl LobbyView {
    /// The lobby before any operation: no game, no player, next number 0.
    pub open spec fn empty() -> LobbyView {
        LobbyView {
            games: Seq::<GameView>::empty(),
            players: Seq::<PlayerView>::empty(),
            next_game_number: 0,
        }
    }

    /// Keys are distinct in both registries, and no identity has two seats in
    /// one game.
    pub open spec fn wf(self) -> bool {
        &&& distinct_game_ids(self.games)
        &&& distinct_player_ids(self.players)
        &&& distinct_seats(self.players)
    }

    /// The game with key `game_id`, where there is one.
    pub open spec fn game(self, game_id: Seq<char>) -> GameView {
        self.games[game_index(self.games, game_id)]
    }

    /// The seat of `identity` in the game `game_id`, where there is one.
    pub open spec fn member(self, game_id: Seq<char>, identity: Seq<u8>) -> PlayerView {
        self.players[seat_index(self.players, game_id, identity)]
    }

    /// What creating a game with `max_players` seats returns: the key of the
    /// new game, `Capacity` for a game without seats, `Conflict` when the
    /// serial numbers are used up or the next key is already taken.
    pub open spec fn create_game_result(self, max_players: nat) -> Result<Seq<char>, LobbyError> {
        if max_players == 0 {
            Err(LobbyError::Capacity)
        } else if self.next_game_number >= u64::MAX || has_game(
            self.games,
            game_id_text(self.next_game_number),
        ) {
            Err(LobbyError::Conflict)
        } else {
            Ok(game_id_text(self.next_game_number))
        }
    }

    /// The lobby after an attempt to create a game.
    pub open spec fn after_create_game(
        self,
        name: Seq<char>,
        buy_in: nat,
        max_players: nat,
        now: Timestamp,
    ) -> LobbyView {
        if self.create_game_result(max_players) is Ok {
            LobbyView {
                games: self.games.push(
                    GameView::opened(
                        game_id_text(self.next_game_number),
                        name,
                        buy_in,
                        max_players,
                        now,
                    ),
                ),
                next_game_number: self.next_game_number + 1,
                ..self
            }
        } else {
            self
        }
    }

    /// What joining returns: the key of the new player, or the first of these
    /// that applies: `NotFound(Game)`, `Duplicate` when the identity already
    /// sits in the game, `Capacity` when every seat is taken, `Conflict` when
    /// the key of the new player is already taken.
    pub open spec fn join_game_result(
        self,
        game_id: Seq<char>,
        identity: Seq<u8>,
        now: Timestamp,
    ) -> Result<Seq<char>, LobbyError> {
        if !has_game(self.games, game_id) {
            Err(LobbyError::NotFound(RecordKind::Game))
        } else if has_member(self.players, game_id, identity) {
            Err(LobbyError::Duplicate)
        } else if count_in_game(self.players, game_id) >= self.game(game_id).max_players {
            Err(LobbyError::Capacity)
        } else if has_player(self.players, player_id_text(identity, now.micros as int)) {
            Err(LobbyError::Conflict)
        } else {
            Ok(player_id_text(identity, now.micros as int))
        }
    }

    /// The lobby after an attempt to join.
    pub open spec fn after_join_game(
        self,
        game_id: Seq<char>,
        identity: Seq<u8>,
        name: Seq<char>,
        now: Timestamp,
    ) -> LobbyView {
        if self.join_game_result(game_id, identity, now) is Ok {
            LobbyView {
                players: self.players.push(
                    PlayerView::seated(
                        player_id_text(identity, now.micros as int),
                        game_id,
                        identity,
                        name,
                        self.game(game_id).buy_in,
                        now,
                    ),
                ),
                ..self
            }
        } else {
            self
        }
    }

    /// What placing a bet returns: success, or the first of these that
    /// applies: `NotFound(Player)`, `InsufficientFunds` when the bet is larger
    /// than the player's chips, `NotFound(Game)`.
    pub open spec fn place_bet_result(
        self,
        game_id: Seq<char>,
        identity: Seq<u8>,
        amount: nat,
    ) -> Result<(), LobbyError> {
        if !has_member(self.players, game_id, identity) {
            Err(LobbyError::NotFound(RecordKind::Player))
        } else if self.member(game_id, identity).chips < amount {
            Err(LobbyError::InsufficientFunds)
        } else if !has_game(self.games, game_id) {
            Err(LobbyError::NotFound(RecordKind::Game))
        } else {
            Ok(())
        }
    }

    /// The lobby after an attempt to place a bet.
    pub open spec fn after_place_bet(
        self,
        game_id: Seq<char>,
        identity: Seq<u8>,
        amount: nat,
        now: Timestamp,
    ) -> LobbyView {
        if self.place_bet_result(game_id, identity, amount) is Ok {
            LobbyView {
                games: self.games.update(
                    game_index(self.games, game_id),
                    self.game(game_id).credited(amount, now),
                ),
                players: self.players.update(
                    seat_index(self.players, game_id, identity),
                    self.member(game_id, identity).after_bet(amount),
                ),
                ..self
            }
        } else {
            self
        }
    }

    /// Whether the bet, if it is accepted, leaves the player's bet and the
    /// game's pot within 64 bits.
    pub open spec fn bet_fits(self, game_id: Seq<char>, identity: Seq<u8>, amount: nat) -> bool {
        self.place_bet_result(game_id, identity, amount) is Ok ==> {
            &&& self.member(game_id, identity).current_bet + amount <= u64::MAX
            &&& self.game(game_id).pot_amount + amount <= u64::MAX
        }
    }

    /// What folding returns: success, or the first of these that applies:
    /// `NotFound(Player)`, `NotFound(Game)`.
    pub open spec fn fold_hand_result(
        self,
        game_id: Seq<char>,
        identity: Seq<u8>,
    ) -> Result<(), LobbyError> {
        if !has_member(self.players, game_id, identity) {
            Err(LobbyError::NotFound(RecordKind::Player))
        } else if !has_game(self.games, game_id) {
            Err(LobbyError::NotFound(RecordKind::Game))
        } else {
            Ok(())
        }
    }

    /// The lobby after an attempt to fold.
    pub open spec fn after_fold_hand(
        self,
        game_id: Seq<char>,
        identity: Seq<u8>,
        now: Timestamp,
    ) -> LobbyView {
        if self.fold_hand_result(game_id, identity) is Ok {
            LobbyView {
                games: self.games.update(
                    game_index(self.games, game_id),
                    self.game(game_id).touched(now),
                ),
                players: self.players.update(
                    seat_index(self.players, game_id, identity),
                    self.member(game_id, identity).folded(),
                ),
                ..self
            }
        } else {
            self
        }
    }
}

impl View for Lobby {
    type V = LobbyView;

    closed spec fn view(&self) -> LobbyView {
        LobbyView {
            games: self.games@,
            players: self.players@,
            next_game_number: self.next_game_number as nat,
        }
    }
}

impl Lobby {
    /// The lobby's invariant: that of its two registries.
    pub open spec fn wf(&self) -> bool {
        self@.wf()
    }

    /// A lobby without games or players, whose first game gets the number 0.
    pub fn new() -> (lobby: Lobby)
        ensures
            lobby.wf(),
            lobby@ == LobbyView::empty(),
    {
        Lobby { games: GameRegistry::new(), players: PlayerRegistry::new(), next_game_number: 0 }
    }

    /// A lobby over the given registries, whose next game gets the number
    /// `next_game_number`.
    pub fn from_parts(
        games: GameRegistry,
        players: PlayerRegistry,
        next_game_number: u64,
    ) -> (lobby: Lobby)
        requires
            games.wf(),
            players.wf(),
        ensures
            lobby.wf(),
            lobby@.games == games@,
            lobby@.players == players@,
            lobby@.next_game_number == next_game_number,
    {
        Lobby { games, players, next_game_number }
    }

    /// The games of the lobby.
    pub fn games(&self) -> (games: &GameRegistry)
        ensures
            games@ == self@.games,
            self.wf() ==> games.wf(),
    {
        &self.games
    }

    /// The players of the lobby.
    pub fn players(&self) -> (players: &PlayerRegistry)
        ensures
            players@ == self@.players,
            self.wf() ==> players.wf(),
    {
        &self.players
    }

    /// The serial number that the next game will get.
    pub fn next_game_number(&self) -> (number: u64)
        ensures
            number == self@.next_game_number,
    {
        self.next_game_number
    }

    /// Whether a bet of `amount` by `ctx.sender` in the game `game_id`, if it
    /// is accepted, leaves the player's bet and the game's pot within 64 bits.
    pub fn bet_fits(&self, ctx: &CallContext, game_id: &String, amount: u64) -> (fits: bool)
        requires
            self.wf(),
        ensures
            fits == self@.bet_fits(game_id@, ctx.sender@, amount as nat),
    {
        let player = match self.players.find_by_game_and_identity(game_id, &ctx.sender) {
            Some(player) => player,
            None => {
                return true;
            },
        };
        if player.chips < amount {
            return true;
        }
        let game = match self.games.find(game_id) {
            Some(game) => game,
            None => {
                return true;
            },
        };
        amount <= u64::MAX - player.current_bet && amount <= u64::MAX - game.pot_amount
    }
}

/// Creates a game named `game_name` with the given buy-in and number of seats,
/// and returns its key. The game starts waiting, in round 0, with an empty
/// pot, created and last updated at `ctx.timestamp`.
///
/// A game without seats is refused with `Capacity`. The key is made from the
/// lobby's next serial number; `Conflict` is returned when the numbers are used
/// up or that key is already taken.
pub fn create_poker_game(
    lobby: &mut Lobby,
    ctx: &CallContext,
    game_name: String,
    buy_in: u64,
    max_players: u32,
) -> (result: Result<String, LobbyError>)
    requires
        old(lobby).wf(),
    ensures
        final(lobby).wf(),
        old(lobby)@.consistent() ==> final(lobby)@.consistent(),
        final(lobby)@ == old(lobby)@.after_create_game(
            game_name@,
            buy_in as nat,
            max_players as nat,
            ctx.timestamp,
        ),
        match result {
            Ok(game_id) => old(lobby)@.create_game_result(max_players as nat)
                == Ok::<Seq<char>, LobbyError>(game_id@),
            Err(e) => old(lobby)@.create_game_result(max_players as nat)
                == Err::<Seq<char>, LobbyError>(e),
        },
{
    proof {
        if lobby@.consistent() {
            lemma_create_game_keeps_consistent(
                lobby@,
                game_name@,
                buy_in as nat,
                max_players as nat,
                ctx.timestamp,
            );
        }
    }
    if max_players == 0 {
        return Err(LobbyError::Capacity);
    }
    if lobby.next_game_number == u64::MAX {
        return Err(LobbyError::Conflict);
    }
    let game_id = game_id_for(lobby.next_game_number);
    let record = PokerGame::open(game_id.clone(), game_name, buy_in, max_players, ctx.timestamp);
    match lobby.games.create(record) {
        Ok(()) => {
            lobby.next_game_number = lobby.next_game_number + 1;
            Ok(game_id)
        },
        Err(e) => Err(e),
    }
}

/// Seats `ctx.sender` in the game `game_id` under the name `player_name`, and
/// returns the key of the new player. The player starts active, not folded,
/// with nothing bet, holding the game's buy-in, joined at `ctx.timestamp`. The
/// game record is not changed.
///
/// Refused, in this order: with `NotFound(Game)` when the game does not exist,
/// with `Duplicate` when the caller already sits in it, with `Capacity` when
/// every seat is taken, with `Conflict` when the new player's key is taken.
pub fn join_poker_game(
    lobby: &mut Lobby,
    ctx: &CallContext,
    game_id: String,
    player_name: String,
) -> (result: Result<String, LobbyError>)
    requires
        old(lobby).wf(),
    ensures
        final(lobby).wf(),
        old(lobby)@.consistent() ==> final(lobby)@.consistent(),
        final(lobby)@ == old(lobby)@.after_join_game(
            game_id@,
            ctx.sender@,
            player_name@,
            ctx.timestamp,
        ),
        match result {
            Ok(player_id) => old(lobby)@.join_game_result(game_id@, ctx.sender@, ctx.timestamp)
                == Ok::<Seq<char>, LobbyError>(player_id@),
            Err(e) => old(lobby)@.join_game_result(game_id@, ctx.sender@, ctx.timestamp)
                == Err::<Seq<char>, LobbyError>(e),
        },
{
    proof {
        if lobby@.consistent() {
            lemma_join_game_keeps_consistent(
                lobby@,
                game_id@,
                ctx.sender@,
                player_name@,
                ctx.timestamp,
            );
        }
    }
    let game = match lobby.games.find(&game_id) {
        Some(game) => game,
        None => {
            return Err(LobbyError::NotFound(RecordKind::Game));
        },
    };
    if lobby.players.find_by_game_and_identity(&game_id, &ctx.sender).is_some() {
        return Err(LobbyError::Duplicate);
    }
    if lobby.players.count_by_game(&game_id) >= game.max_players as usize {
        return Err(LobbyError::Capacity);
    }
    let buy_in = game.buy_in;
    let player_id = player_id_for(&ctx.sender, ctx.timestamp);
    let record = PokerPlayer::seat(
        player_id.clone(),
        game_id,
        ctx.sender,
        player_name,
        buy_in,
        ctx.timestamp,
    );
    match lobby.players.create(record) {
        Ok(()) => Ok(player_id),
        Err(e) => Err(e),
    }
}

/// Moves `amount` chips of `ctx.sender` in the game `game_id` from the
/// player's balance to the player's bet and into the game's pot, and sets the
/// game's update time to `ctx.timestamp`. Both records change together, or
/// neither does.
///
/// Refused, in this order: with `NotFound(Player)` when the caller does not
/// sit in the game, with `InsufficientFunds` when the bet is larger than the
/// player's chips, with `NotFound(Game)` when the game record is missing.
///
/// The caller makes sure that the bet fits: a bet that would be accepted must
/// leave the player's bet and the game's pot within 64 bits. `Lobby::bet_fits`
/// tests this.
pub fn place_poker_bet(
    lobby: &mut Lobby,
    ctx: &CallContext,
    game_id: String,
    amount: u64,
) -> (result: Result<(), LobbyError>)
    requires
        old(lobby).wf(),
        old(lobby)@.bet_fits(game_id@, ctx.sender@, amount as nat),
    ensures
        final(lobby).wf(),
        old(lobby)@.consistent() ==> final(lobby)@.consistent(),
        final(lobby)@ == old(lobby)@.after_place_bet(
            game_id@,
            ctx.sender@,
            amount as nat,
            ctx.timestamp,
        ),
        result == old(lobby)@.place_bet_result(game_id@, ctx.sender@, amount as nat),
{
    proof {
        if lobby@.consistent() {
            lemma_place_bet_keeps_consistent(
                lobby@,
                game_id@,
                ctx.sender@,
                amount as nat,
                ctx.timestamp,
            );
        }
    }
    let player = match lobby.players.find_by_game_and_identity(&game_id, &ctx.sender) {
        Some(player) => player,
        None => {
            return Err(LobbyError::NotFound(RecordKind::Player));
        },
    };
    if player.chips < amount {
        return Err(LobbyError::InsufficientFunds);
    }
    let game = match lobby.games.find(&game_id) {
        Some(game) => game,
        None => {
            return Err(LobbyError::NotFound(RecordKind::Game));
        },
    };
    let new_player = player.after_bet(amount);
    let new_game = game.credited(amount, ctx.timestamp);
    proof {
        let seat = seat_index(lobby@.players, game_id@, ctx.sender@);
        lemma_player_index_unique(lobby@.players, new_player@.player_id, seat);
    }
    lobby.players.update(new_player).unwrap();
    lobby.games.update(new_game).unwrap();
    Ok(())
}

/// Folds the hand of `ctx.sender` in the game `game_id`, and sets the game's
/// update time to `ctx.timestamp`. Folding a folded hand succeeds again.
///
/// Refused, in this order: with `NotFound(Player)` when the caller does not
/// sit in the game, with `NotFound(Game)` when the game record is missing.
pub fn fold_poker_hand(
    lobby: &mut Lobby,
    ctx: &CallContext,
    game_id: String,
) -> (result: Result<(), LobbyError>)
    requires
        old(lobby).wf(),
    ensures
        final(lobby).wf(),
        old(lobby)@.consistent() ==> final(lobby)@.consistent(),
        final(lobby)@ == old(lobby)@.after_fold_hand(game_id@, ctx.sender@, ctx.timestamp),
        result == old(lobby)@.fold_hand_result(game_id@, ctx.sender@),
{
    proof {
        if lobby@.consistent() {
            lemma_fold_hand_keeps_consistent(lobby@, game_id@, ctx.sender@, ctx.timestamp);
        }
    }
    let player = match lobby.players.find_by_game_and_identity(&game_id, &ctx.sender) {
        Some(player) => player,
        None => {
            return Err(LobbyError::NotFound(RecordKind::Player));
        },
    };
    let game = match lobby.games.find(&game_id) {
        Some(game) => game,
        None => {
            return Err(LobbyError::NotFound(RecordKind::Game));
        },
    };
    let new_player = player.folded();
    let new_game = game.touched(ctx.timestamp);
    proof {
        let seat = seat_index(lobby@.players, game_id@, ctx.sender@);
        lemma_player_index_unique(lobby@.players, new_player@.player_id, seat);
    }
    lobby.players.update(new_player).unwrap();
    lobby.games.update(new_game).unwrap();
    Ok(())
}

} // verus!
