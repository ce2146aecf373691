//! What the four operations promise about each other, and what holds of every
//! lobby that a sequence of them can reach.

use crate::error::LobbyError;
use crate::game::{game_index, has_game, lemma_game_index_unique};
use crate::identity::Timestamp;
use crate::ledger::{
    bets_in_game, chips_in_game, lemma_create_game_keeps_consistent, lemma_empty_is_consistent,
    lemma_fold_hand_keeps_consistent, lemma_join_game_keeps_consistent,
    lemma_place_bet_keeps_consistent, lemma_replace_keeps_wf, lemma_stakes_sum,
};
use crate::lobby::LobbyView;
use crate::player::{count_in_game, has_member, lemma_seat_index_unique, seat_index};
use vstd::prelude::*;

verus! {

/// One call of one of the four operations, with its arguments and what the
/// host supplied with it.
pub enum Call {
    CreateGame { name: Seq<char>, buy_in: nat, max_players: nat, now: Timestamp },
    JoinGame { game_id: Seq<char>, identity: Seq<u8>, name: Seq<char>, now: Timestamp },
    PlaceBet { game_id: Seq<char>, identity: Seq<u8>, amount: nat, now: Timestamp },
    FoldHand { game_id: Seq<char>, identity: Seq<u8>, now: Timestamp },
}

impl LobbyView {
    /// The lobby after one call.
    pub open spec fn after(self, call: Call) -> LobbyView {
        match call {
            Call::CreateGame { name, buy_in, max_players, now } => self.after_create_game(
                name,
                buy_in,
                max_players,
                now,
            ),
            Call::JoinGame { game_id, identity, name, now } => self.after_join_game(
                game_id,
                identity,
                name,
                now,
            ),
            Call::PlaceBet { game_id, identity, amount, now } => self.after_place_bet(
                game_id,
                identity,
                amount,
                now,
            ),
            Call::FoldHand { game_id, identity, now } => self.after_fold_hand(
                game_id,
                identity,
                now,
            ),
        }
    }

    /// The lobby after a sequence of calls, made one after the other.
    pub open spec fn after_all(self, calls: Seq<Call>) -> LobbyView
        decreases calls.len(),
    {
        if calls.len() == 0 {
            self
        } else {
            self.after_all(calls.drop_last()).after(calls.last())
        }
    }
}

/// Every call keeps a consistent lobby consistent.
pub proof fn lemma_call_keeps_consistent(pre: LobbyView, call: Call)
    requires
        pre.consistent(),
    ensures
        pre.after(call).consistent(),
{
    match call {
        Call::CreateGame { name, buy_in, max_players, now } => {
            lemma_create_game_keeps_consistent(pre, name, buy_in, max_players, now);
        },
        Call::JoinGame { game_id, identity, name, now } => {
            lemma_join_game_keeps_consistent(pre, game_id, identity, name, now);
        },
        Call::PlaceBet { game_id, identity, amount, now } => {
            lemma_place_bet_keeps_consistent(pre, game_id, identity, amount, now);
        },
        Call::FoldHand { game_id, identity, now } => {
            lemma_fold_hand_keeps_consistent(pre, game_id, identity, now);
        },
    }
}

/// Whatever calls are made on the empty lobby, in whatever order, and whether
/// they succeed or fail, the lobby they leave is consistent.
pub proof fn lemma_reachable_is_consistent(calls: Seq<Call>)
    ensures
        LobbyView::empty().after_all(calls).consistent(),
    decreases calls.len(),
{
    if calls.len() == 0 {
        lemma_empty_is_consistent();
    } else {
        lemma_reachable_is_consistent(calls.drop_last());
        lemma_call_keeps_consistent(LobbyView::empty().after_all(calls.drop_last()), calls.last());
    }
}

/// In a consistent lobby a game never seats more players than it has seats.
pub proof fn lemma_seats_never_exceed_capacity(lobby: LobbyView, game_id: Seq<char>)
    requires
        lobby.consistent(),
        has_game(lobby.games, game_id),
    ensures
        count_in_game(lobby.players, game_id) <= lobby.game(game_id).max_players,
{
    let at = game_index(lobby.games, game_id);
    assert(lobby.games[at].game_id == game_id);
}

/// Once a game seats as many players as it has seats, a join by an identity
/// that does not sit in it returns `Capacity` and leaves the lobby as it was.
pub proof fn lemma_full_game_refuses_join(
    lobby: LobbyView,
    game_id: Seq<char>,
    identity: Seq<u8>,
    name: Seq<char>,
    now: Timestamp,
)
    requires
        has_game(lobby.games, game_id),
        !has_member(lobby.players, game_id, identity),
        count_in_game(lobby.players, game_id) >= lobby.game(game_id).max_players,
    ensures
        lobby.join_game_result(game_id, identity, now) == Err::<Seq<char>, LobbyError>(
            LobbyError::Capacity,
        ),
        lobby.after_join_game(game_id, identity, name, now) == lobby,
{
}

/// After an identity has joined a game, a second join by that identity to
/// that game returns `Duplicate` and leaves the lobby as it was.
pub proof fn lemma_second_join_is_duplicate(
    lobby: LobbyView,
    game_id: Seq<char>,
    identity: Seq<u8>,
    first_name: Seq<char>,
    first_now: Timestamp,
    second_name: Seq<char>,
    second_now: Timestamp,
)
    requires
        lobby.join_game_result(game_id, identity, first_now) is Ok,
    ensures
        ({
            let joined = lobby.after_join_game(game_id, identity, first_name, first_now);
            &&& joined.join_game_result(game_id, identity, second_now) == Err::<
                Seq<char>,
                LobbyError,
            >(LobbyError::Duplicate)
            &&& joined.after_join_game(game_id, identity, second_name, second_now) == joined
        }),
{
    let joined = lobby.after_join_game(game_id, identity, first_name, first_now);
    let added = joined.players[lobby.players.len() as int];
    assert(added.sits(game_id, identity));
}

/// Whoever sits in a game, however it came to sit there, is refused with
/// `Duplicate` when it joins that game again, and no record is added.
pub proof fn lemma_member_cannot_join_again(
    lobby: LobbyView,
    game_id: Seq<char>,
    identity: Seq<u8>,
    name: Seq<char>,
    now: Timestamp,
)
    requires
        has_game(lobby.games, game_id),
        has_member(lobby.players, game_id, identity),
    ensures
        lobby.join_game_result(game_id, identity, now) == Err::<Seq<char>, LobbyError>(
            LobbyError::Duplicate,
        ),
        lobby.after_join_game(game_id, identity, name, now) == lobby,
{
}

/// A bet that the player can afford, in a game that exists, succeeds; it takes
/// the amount from the player's chips, adds it to the player's bet and adds it
/// to the game's pot.
pub proof fn lemma_bet_moves_chips(
    lobby: LobbyView,
    game_id: Seq<char>,
    identity: Seq<u8>,
    amount: nat,
    now: Timestamp,
)
    requires
        lobby.wf(),
        has_member(lobby.players, game_id, identity),
        has_game(lobby.games, game_id),
        amount <= lobby.member(game_id, identity).chips,
    ensures
        lobby.place_bet_result(game_id, identity, amount) == Ok::<(), LobbyError>(()),
        ({
            let paid = lobby.after_place_bet(game_id, identity, amount, now);
            &&& paid.wf()
            &&& has_member(paid.players, game_id, identity)
            &&& has_game(paid.games, game_id)
            &&& paid.member(game_id, identity).chips == lobby.member(game_id, identity).chips
                - amount
            &&& paid.member(game_id, identity).current_bet == lobby.member(
                game_id,
                identity,
            ).current_bet + amount
            &&& paid.game(game_id).pot_amount == lobby.game(game_id).pot_amount + amount
        }),
{
    let paid = lobby.after_place_bet(game_id, identity, amount, now);
    let seat = seat_index(lobby.players, game_id, identity);
    let at = game_index(lobby.games, game_id);
    lemma_replace_keeps_wf(lobby, paid, seat, at);
    lemma_seat_index_unique(paid.players, game_id, identity, seat);
    lemma_game_index_unique(paid.games, game_id, at);
}

/// A bet larger than the player's chips returns `InsufficientFunds` and leaves
/// every record as it was.
pub proof fn lemma_overdrawn_bet_is_refused(
    lobby: LobbyView,
    game_id: Seq<char>,
    identity: Seq<u8>,
    amount: nat,
    now: Timestamp,
)
    requires
        has_member(lobby.players, game_id, identity),
        amount > lobby.member(game_id, identity).chips,
    ensures
        lobby.place_bet_result(game_id, identity, amount) == Err::<(), LobbyError>(
            LobbyError::InsufficientFunds,
        ),
        lobby.after_place_bet(game_id, identity, amount, now) == lobby,
{
}

/// After a fold that succeeded, a second fold by the same player succeeds
/// too; the hand is folded after each; and the second fold changes nothing but
/// the game's update time.
pub proof fn lemma_fold_twice(
    lobby: LobbyView,
    game_id: Seq<char>,
    identity: Seq<u8>,
    first_now: Timestamp,
    second_now: Timestamp,
)
    requires
        lobby.wf(),
        lobby.fold_hand_result(game_id, identity) is Ok,
    ensures
        ({
            let once = lobby.after_fold_hand(game_id, identity, first_now);
            let twice = once.after_fold_hand(game_id, identity, second_now);
            &&& once.fold_hand_result(game_id, identity) == Ok::<(), LobbyError>(())
            &&& once.member(game_id, identity).is_folded
            &&& twice.member(game_id, identity).is_folded
            &&& twice.players == once.players
            &&& twice.next_game_number == once.next_game_number
            &&& twice.games == once.games.update(
                game_index(once.games, game_id),
                once.game(game_id).touched(second_now),
            )
        }),
{
    let once = lobby.after_fold_hand(game_id, identity, first_now);
    let twice = once.after_fold_hand(game_id, identity, second_now);
    let seat = seat_index(lobby.players, game_id, identity);
    let at = game_index(lobby.games, game_id);
    lemma_replace_keeps_wf(lobby, once, seat, at);
    lemma_seat_index_unique(once.players, game_id, identity, seat);
    lemma_game_index_unique(once.games, game_id, at);
    lemma_replace_keeps_wf(once, twice, seat, at);
    lemma_seat_index_unique(twice.players, game_id, identity, seat);
    assert(twice.players =~= once.players);
}

/// In a consistent lobby, what the players of a game hold and what they have
/// bet add up to one buy-in for each of them.
pub proof fn lemma_chips_are_conserved(lobby: LobbyView, game_id: Seq<char>)
    requires
        lobby.consistent(),
        has_game(lobby.games, game_id),
    ensures
        chips_in_game(lobby.players, game_id) + bets_in_game(lobby.players, game_id)
            == count_in_game(lobby.players, game_id) * lobby.game(game_id).buy_in,
{
    let at = game_index(lobby.games, game_id);
    assert(lobby.games[at].game_id == game_id);
    lemma_stakes_sum(lobby.players, game_id, lobby.game(game_id).buy_in);
}

/// In a consistent lobby, what a player holds and what it has bet add up to
/// the buy-in of its game.
pub proof fn lemma_stake_is_buy_in(lobby: LobbyView, game_id: Seq<char>, identity: Seq<u8>)
    requires
        lobby.consistent(),
        has_member(lobby.players, game_id, identity),
    ensures
        has_game(lobby.games, game_id),
        lobby.member(game_id, identity).chips + lobby.member(game_id, identity).current_bet
            == lobby.game(game_id).buy_in,
{
    let seat = seat_index(lobby.players, game_id, identity);
    assert(lobby.players[seat].sits(game_id, identity));
    assert(has_game(lobby.games, lobby.players[seat].game_id));
    let at = game_index(lobby.games, game_id);
    assert(lobby.games[at].game_id == lobby.players[seat].game_id);
}

/// In a consistent lobby, the pot of a game is the sum of the bets of its
/// players.
pub proof fn lemma_pot_is_sum_of_bets(lobby: LobbyView, game_id: Seq<char>)
    requires
        lobby.consistent(),
        has_game(lobby.games, game_id),
    ensures
        lobby.game(game_id).pot_amount == bets_in_game(lobby.players, game_id),
{
    let at = game_index(lobby.games, game_id);
    assert(lobby.games[at].game_id == game_id);
}

} // verus!
