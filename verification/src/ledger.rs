//! The invariant of the lobby, and why each of the four operations keeps it.

use crate::error::LobbyError;
use crate::game::{game_index, has_game, lemma_game_index_unique, GameStatus};
use crate::identity::Timestamp;
use crate::keys::{game_id_text, lemma_game_id_injective};
use crate::lobby::LobbyView;
use crate::player::{count_in_game, lemma_count_in_game_push, seat_index, PlayerView};
use vstd::prelude::*;

verus! {

/// The chips that the players of the game `game_id` have bet.
pub open spec fn bets_in_game(players: Seq<PlayerView>, game_id: Seq<char>) -> nat
    decreases players.len(),
{
    if players.len() == 0 {
        0
    } else {
        bets_in_game(players.drop_last(), game_id) + if players.last().game_id == game_id {
            players.last().current_bet
        } else {
            0nat
        }
    }
}

/// The chips that the players of the game `game_id` still hold.
pub open spec fn chips_in_game(players: Seq<PlayerView>, game_id: Seq<char>) -> nat
    decreases players.len(),
{
    if players.len() == 0 {
        0
    } else {
        chips_in_game(players.drop_last(), game_id) + if players.last().game_id == game_id {
            players.last().chips
        } else {
            0nat
        }
    }
}

/// Whether `id` is the key of a serial number below `next`.
pub open spec fn was_issued(id: Seq<char>, next: nat) -> bool {
    exists|k: nat| k < next && #[trigger] game_id_text(k) == id
}

impl LobbyView {
    /// Every player sits in a game that exists.
    pub open spec fn every_player_has_game(self) -> bool {
        forall|i: int|
            0 <= i < self.players.len() ==> has_game(
                self.games,
                (#[trigger] self.players[i]).game_id,
            )
    }

    /// No game seats more players than it has seats.
    pub open spec fn within_capacity(self) -> bool {
        forall|g: int|
            0 <= g < self.games.len() ==> count_in_game(
                self.players,
                (#[trigger] self.games[g]).game_id,
            ) <= self.games[g].max_players
    }

    /// What a player holds and what it has bet add up to its game's buy-in.
    pub open spec fn stakes_balanced(self) -> bool {
        forall|i: int, g: int|
            0 <= i < self.players.len() && 0 <= g < self.games.len() && (
            #[trigger] self.players[i]).game_id == (#[trigger] self.games[g]).game_id
                ==> self.players[i].chips + self.players[i].current_bet == self.games[g].buy_in
    }

    /// The pot of a game is the sum of the bets of its players.
    pub open spec fn pots_balanced(self) -> bool {
        forall|g: int|
            0 <= g < self.games.len() ==> (#[trigger] self.games[g]).pot_amount == bets_in_game(
                self.players,
                self.games[g].game_id,
            )
    }

    /// Every game has the key of a serial number that was already handed out.
    pub open spec fn keys_issued(self) -> bool {
        forall|g: int|
            0 <= g < self.games.len() ==> was_issued(
                (#[trigger] self.games[g]).game_id,
                self.next_game_number,
            )
    }

    /// The fields that no operation moves: every game is waiting in round 0 and
    /// has a seat, every player is active.
    pub open spec fn fields_at_rest(self) -> bool {
        &&& forall|g: int|
            0 <= g < self.games.len() ==> {
                &&& (#[trigger] self.games[g]).status == GameStatus::Waiting
                &&& self.games[g].current_round == 0
                &&& self.games[g].max_players > 0
            }
        &&& forall|i: int| 0 <= i < self.players.len() ==> (#[trigger] self.players[i]).is_active
    }

    /// The invariant of the lobby: what holds after any sequence of
    /// operations on a lobby that started empty.
    pub open spec fn consistent(self) -> bool {
        &&& self.wf()
        &&& self.every_player_has_game()
        &&& self.within_capacity()
        &&& self.stakes_balanced()
        &&& self.pots_balanced()
        &&& self.keys_issued()
        &&& self.fields_at_rest()
    }
}

proof fn lemma_bets_in_game_push(
    players: Seq<PlayerView>,
    added: PlayerView,
    game_id: Seq<char>,
)
    ensures
        bets_in_game(players.push(added), game_id) == bets_in_game(players, game_id) + if
            added.game_id == game_id {
            added.current_bet
        } else {
            0nat
        },
{
    assert(players.push(added).drop_last() =~= players);
}

proof fn lemma_bets_in_game_update(
    players: Seq<PlayerView>,
    i: int,
    changed: PlayerView,
    game_id: Seq<char>,
)
    requires
        0 <= i < players.len(),
        changed.game_id == players[i].game_id,
    ensures
        bets_in_game(players.update(i, changed), game_id) + if players[i].game_id == game_id {
            players[i].current_bet
        } else {
            0nat
        } == bets_in_game(players, game_id) + if players[i].game_id == game_id {
            changed.current_bet
        } else {
            0nat
        },
    decreases players.len(),
{
    if i == players.len() - 1 {
        assert(players.update(i, changed).drop_last() =~= players.drop_last());
    } else {
        assert(players.update(i, changed).drop_last() =~= players.drop_last().update(i, changed));
        lemma_bets_in_game_update(players.drop_last(), i, changed, game_id);
    }
}

proof fn lemma_count_in_game_update(
    players: Seq<PlayerView>,
    i: int,
    changed: PlayerView,
    game_id: Seq<char>,
)
    requires
        0 <= i < players.len(),
        changed.game_id == players[i].game_id,
    ensures
        count_in_game(players.update(i, changed), game_id) == count_in_game(players, game_id),
    decreases players.len(),
{
    if i == players.len() - 1 {
        assert(players.update(i, changed).drop_last() =~= players.drop_last());
    } else {
        assert(players.update(i, changed).drop_last() =~= players.drop_last().update(i, changed));
        lemma_count_in_game_update(players.drop_last(), i, changed, game_id);
    }
}

proof fn lemma_nobody_in_game(players: Seq<PlayerView>, game_id: Seq<char>)
    requires
        forall|i: int| 0 <= i < players.len() ==> (#[trigger] players[i]).game_id != game_id,
    ensures
        count_in_game(players, game_id) == 0,
        bets_in_game(players, game_id) == 0,
    decreases players.len(),
{
    if players.len() > 0 {
        let rest = players.drop_last();
        assert forall|i: int| 0 <= i < rest.len() implies (#[trigger] rest[i]).game_id
            != game_id by {
            assert(rest[i] == players[i]);
        }
        lemma_nobody_in_game(rest, game_id);
    }
}

pub(crate) proof fn lemma_stakes_sum(players: Seq<PlayerView>, game_id: Seq<char>, buy_in: nat)
    requires
        forall|i: int|
            0 <= i < players.len() && (#[trigger] players[i]).game_id == game_id
                ==> players[i].chips + players[i].current_bet == buy_in,
    ensures
        chips_in_game(players, game_id) + bets_in_game(players, game_id) == count_in_game(
            players,
            game_id,
        ) * buy_in,
    decreases players.len(),
{
    if players.len() > 0 {
        let rest = players.drop_last();
        assert forall|i: int| 0 <= i < rest.len() && (#[trigger] rest[i]).game_id
            == game_id implies rest[i].chips + rest[i].current_bet == buy_in by {
            assert(rest[i] == players[i]);
        }
        lemma_stakes_sum(rest, game_id, buy_in);
        let n = count_in_game(rest, game_id);
        assert((n + 1) * buy_in == n * buy_in + buy_in) by (nonlinear_arith);
    } else {
        assert(0 * buy_in == 0) by (nonlinear_arith);
    }
}

/// The empty lobby is consistent.
pub proof fn lemma_empty_is_consistent()
    ensures
        LobbyView::empty().consistent(),
{
}

/// Creating a game keeps a consistent lobby consistent.
pub proof fn lemma_create_game_keeps_consistent(
    pre: LobbyView,
    name: Seq<char>,
    buy_in: nat,
    max_players: nat,
    now: Timestamp,
)
    requires
        pre.consistent(),
    ensures
        pre.after_create_game(name, buy_in, max_players, now).consistent(),
{
    let post = pre.after_create_game(name, buy_in, max_players, now);
    if pre.create_game_result(max_players) is Ok {
        let id = game_id_text(pre.next_game_number);
        assert forall|g: int| 0 <= g < pre.games.len() implies #[trigger] post.games[g]
            == pre.games[g] by {}
        assert forall|i: int| 0 <= i < post.players.len() implies has_game(
            post.games,
            (#[trigger] post.players[i]).game_id,
        ) by {
            let at = game_index(pre.games, pre.players[i].game_id);
            assert(post.games[at].game_id == pre.players[i].game_id);
        }
        assert forall|i: int| 0 <= i < pre.players.len() implies (#[trigger] pre.players[i]).game_id
            != id by {
            assert(has_game(pre.games, pre.players[i].game_id));
        }
        lemma_nobody_in_game(pre.players, id);
        assert forall|g: int| 0 <= g < post.games.len() implies was_issued(
            (#[trigger] post.games[g]).game_id,
            post.next_game_number,
        ) by {
            if g < pre.games.len() {
                assert(was_issued(pre.games[g].game_id, pre.next_game_number));
            } else {
                assert(game_id_text(pre.next_game_number) == post.games[g].game_id);
            }
        }
    }
}

/// In a consistent lobby the next key is free: creating a game with at least
/// one seat succeeds as long as serial numbers are left.
pub proof fn lemma_create_game_succeeds(pre: LobbyView, max_players: nat)
    requires
        pre.consistent(),
        max_players > 0,
        pre.next_game_number < u64::MAX,
    ensures
        pre.create_game_result(max_players) == Ok::<Seq<char>, LobbyError>(
            game_id_text(pre.next_game_number),
        ),
{
    let id = game_id_text(pre.next_game_number);
    if has_game(pre.games, id) {
        let at = game_index(pre.games, id);
        assert(was_issued(pre.games[at].game_id, pre.next_game_number));
        let k = choose|k: nat| k < pre.next_game_number && #[trigger] game_id_text(k) == id;
        lemma_game_id_injective(k, pre.next_game_number);
    }
}

/// Joining keeps a consistent lobby consistent.
pub proof fn lemma_join_game_keeps_consistent(
    pre: LobbyView,
    game_id: Seq<char>,
    identity: Seq<u8>,
    name: Seq<char>,
    now: Timestamp,
)
    requires
        pre.consistent(),
    ensures
        pre.after_join_game(game_id, identity, name, now).consistent(),
{
    let post = pre.after_join_game(game_id, identity, name, now);
    if pre.join_game_result(game_id, identity, now) is Ok {
        let added = post.players[pre.players.len() as int];
        assert forall|i: int| 0 <= i < pre.players.len() implies #[trigger] post.players[i]
            == pre.players[i] by {}
        assert forall|a: int, b: int| 0 <= a < b < post.players.len() implies !(
        #[trigger] post.players[a]).sits(
            (#[trigger] post.players[b]).game_id,
            post.players[b].identity,
        ) by {
            if b == pre.players.len() {
                assert(!pre.players[a].sits(game_id, identity));
            }
        }
        assert forall|g: int| 0 <= g < post.games.len() implies {
            &&& count_in_game(post.players, (#[trigger] post.games[g]).game_id)
                <= post.games[g].max_players
            &&& post.games[g].pot_amount == bets_in_game(post.players, post.games[g].game_id)
        } by {
            lemma_count_in_game_push(pre.players, added, pre.games[g].game_id);
            lemma_bets_in_game_push(pre.players, added, pre.games[g].game_id);
            if pre.games[g].game_id == game_id {
                lemma_game_index_unique(pre.games, game_id, g);
            }
        }
        assert forall|i: int, g: int|
            0 <= i < post.players.len() && 0 <= g < post.games.len() && (
            #[trigger] post.players[i]).game_id == (
            #[trigger] post.games[g]).game_id implies post.players[i].chips
            + post.players[i].current_bet == post.games[g].buy_in by {
            if i == pre.players.len() {
                lemma_game_index_unique(pre.games, game_id, g);
            }
        }
    }
}

/// Placing a bet keeps a consistent lobby consistent.
pub proof fn lemma_place_bet_keeps_consistent(
    pre: LobbyView,
    game_id: Seq<char>,
    identity: Seq<u8>,
    amount: nat,
    now: Timestamp,
)
    requires
        pre.consistent(),
    ensures
        pre.after_place_bet(game_id, identity, amount, now).consistent(),
{
    let post = pre.after_place_bet(game_id, identity, amount, now);
    if pre.place_bet_result(game_id, identity, amount) is Ok {
        let seat = seat_index(pre.players, game_id, identity);
        let at = game_index(pre.games, game_id);
        lemma_replace_keeps_wf(pre, post, seat, at);
        lemma_replace_keeps_links(pre, post, seat, at);
        assert forall|g: int| 0 <= g < post.games.len() implies {
            &&& count_in_game(post.players, (#[trigger] post.games[g]).game_id)
                <= post.games[g].max_players
            &&& post.games[g].pot_amount == bets_in_game(post.players, post.games[g].game_id)
        } by {
            lemma_count_in_game_update(pre.players, seat, post.players[seat], pre.games[g].game_id);
            lemma_bets_in_game_update(pre.players, seat, post.players[seat], pre.games[g].game_id);
            if pre.games[g].game_id == game_id {
                lemma_game_index_unique(pre.games, game_id, g);
            }
        }
    }
}

/// Folding keeps a consistent lobby consistent.
pub proof fn lemma_fold_hand_keeps_consistent(
    pre: LobbyView,
    game_id: Seq<char>,
    identity: Seq<u8>,
    now: Timestamp,
)
    requires
        pre.consistent(),
    ensures
        pre.after_fold_hand(game_id, identity, now).consistent(),
{
    let post = pre.after_fold_hand(game_id, identity, now);
    if pre.fold_hand_result(game_id, identity) is Ok {
        let seat = seat_index(pre.players, game_id, identity);
        let at = game_index(pre.games, game_id);
        lemma_replace_keeps_wf(pre, post, seat, at);
        lemma_replace_keeps_links(pre, post, seat, at);
        assert forall|g: int| 0 <= g < post.games.len() implies {
            &&& count_in_game(post.players, (#[trigger] post.games[g]).game_id)
                <= post.games[g].max_players
            &&& post.games[g].pot_amount == bets_in_game(post.players, post.games[g].game_id)
        } by {
            lemma_count_in_game_update(pre.players, seat, post.players[seat], pre.games[g].game_id);
            lemma_bets_in_game_update(pre.players, seat, post.players[seat], pre.games[g].game_id);
        }
    }
}

/// Replacing one player and one game by records with the same keys and the
/// same seat keeps the registries' invariant, and moves no key.
pub(crate) proof fn lemma_replace_keeps_wf(pre: LobbyView, post: LobbyView, seat: int, at: int)
    requires
        pre.wf(),
        same_keys(pre, post, seat, at),
    ensures
        post.wf(),
        forall|i: int|
            0 <= i < pre.players.len() ==> {
                &&& (#[trigger] post.players[i]).game_id == pre.players[i].game_id
                &&& post.players[i].player_id == pre.players[i].player_id
                &&& post.players[i].identity == pre.players[i].identity
            },
        forall|g: int|
            0 <= g < pre.games.len() ==> (#[trigger] post.games[g]).game_id == pre.games[g].game_id,
{
    assert forall|i: int| 0 <= i < pre.players.len() implies {
        &&& (#[trigger] post.players[i]).game_id == pre.players[i].game_id
        &&& post.players[i].player_id == pre.players[i].player_id
        &&& post.players[i].identity == pre.players[i].identity
    } by {
        if i != seat {
            assert(post.players[i] == pre.players[i]);
        }
    }
    assert forall|g: int| 0 <= g < pre.games.len() implies (#[trigger] post.games[g]).game_id
        == pre.games[g].game_id by {
        if g != at {
            assert(post.games[g] == pre.games[g]);
        }
    }
    assert forall|a: int, b: int| 0 <= a < b < post.games.len() implies (
    #[trigger] post.games[a]).game_id != (#[trigger] post.games[b]).game_id by {
        assert(pre.games[a].game_id != pre.games[b].game_id);
    }
    assert forall|a: int, b: int| 0 <= a < b < post.players.len() implies (
    #[trigger] post.players[a]).player_id != (#[trigger] post.players[b]).player_id by {
        assert(pre.players[a].player_id != pre.players[b].player_id);
    }
    assert forall|a: int, b: int| 0 <= a < b < post.players.len() implies !(
    #[trigger] post.players[a]).sits(
        (#[trigger] post.players[b]).game_id,
        post.players[b].identity,
    ) by {
        assert(!pre.players[a].sits(pre.players[b].game_id, pre.players[b].identity));
    }
}

/// Replacing one player and one game by records with the same keys, the same
/// seat and the same fixed fields keeps what depends on those alone.
proof fn lemma_replace_keeps_links(pre: LobbyView, post: LobbyView, seat: int, at: int)
    requires
        pre.wf(),
        pre.every_player_has_game(),
        pre.keys_issued(),
        pre.fields_at_rest(),
        same_keys(pre, post, seat, at),
        post.players[seat].is_active == pre.players[seat].is_active,
        post.games[at].status == pre.games[at].status,
        post.games[at].current_round == pre.games[at].current_round,
        post.games[at].max_players == pre.games[at].max_players,
    ensures
        post.every_player_has_game(),
        post.keys_issued(),
        post.fields_at_rest(),
{
    lemma_replace_keeps_wf(pre, post, seat, at);
    assert forall|i: int| 0 <= i < pre.players.len() implies (
    #[trigger] post.players[i]).is_active by {
        if i != seat {
            assert(post.players[i] == pre.players[i]);
        }
    }
    assert forall|g: int| 0 <= g < pre.games.len() implies {
        &&& (#[trigger] post.games[g]).status == GameStatus::Waiting
        &&& post.games[g].current_round == 0
        &&& post.games[g].max_players > 0
        &&& was_issued(post.games[g].game_id, post.next_game_number)
    } by {
        if g != at {
            assert(post.games[g] == pre.games[g]);
        }
        assert(was_issued(pre.games[g].game_id, pre.next_game_number));
    }
    assert forall|i: int| 0 <= i < post.players.len() implies has_game(
        post.games,
        (#[trigger] post.players[i]).game_id,
    ) by {
        let at = game_index(pre.games, pre.players[i].game_id);
        assert(post.games[at].game_id == post.players[i].game_id);
    }
}

/// `post` is `pre` with the player at `seat` and the game at `at` replaced by
/// records that have the same keys and the same seat.
pub(crate) open spec fn same_keys(pre: LobbyView, post: LobbyView, seat: int, at: int) -> bool {
    &&& 0 <= seat < pre.players.len()
    &&& 0 <= at < pre.games.len()
    &&& post.players.len() == pre.players.len()
    &&& post.games.len() == pre.games.len()
    &&& post.next_game_number == pre.next_game_number
    &&& forall|i: int|
        0 <= i < pre.players.len() && i != seat ==> #[trigger] post.players[i] == pre.players[i]
    &&& forall|g: int|
        0 <= g < pre.games.len() && g != at ==> #[trigger] post.games[g] == pre.games[g]
    &&& post.players[seat].player_id == pre.players[seat].player_id
    &&& post.players[seat].game_id == pre.players[seat].game_id
    &&& post.players[seat].identity == pre.players[seat].identity
    &&& post.games[at].game_id == pre.games[at].game_id
}

} // verus!
