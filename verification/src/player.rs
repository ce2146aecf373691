//! Player records and the registry that stores them by key and by seat.

use crate::error::{LobbyError, RecordKind};
use crate::identity::{Identity, Timestamp};
use vstd::prelude::*;

verus! {

/// One identity's seat in one game.
#[derive(Debug)]
pub struct PokerPlayer {
    pub player_id: String,
    pub game_id: String,
    pub identity: Identity,
    pub name: String,
    pub chips: u64,
    pub is_active: bool,
    pub is_folded: bool,
    pub current_bet: u64,
    pub joined_at: Timestamp,
}

/// A player as a mathematical value.
pub struct PlayerView {
    pub player_id: Seq<char>,
    pub game_id: Seq<char>,
    pub identity: Seq<u8>,
    pub name: Seq<char>,
    pub chips: nat,
    pub is_active: bool,
    pub is_folded: bool,
    pub current_bet: nat,
    pub joined_at: Timestamp,
}

impl View for PokerPlayer {
    type V = PlayerView;

    open spec fn view(&self) -> PlayerView {
        PlayerView {
            player_id: self.player_id@,
            game_id: self.game_id@,
            identity: self.identity@,
            name: self.name@,
            chips: self.chips as nat,
            is_active: self.is_active,
            is_folded: self.is_folded,
            current_bet: self.current_bet as nat,
            joined_at: self.joined_at,
        }
    }
}

impl PlayerView {
    /// A player as it joins: active, not folded, nothing bet, holding `chips`.
    pub open spec fn seated(
        player_id: Seq<char>,
        game_id: Seq<char>,
        identity: Seq<u8>,
        name: Seq<char>,
        chips: nat,
        now: Timestamp,
    ) -> PlayerView {
        PlayerView {
            player_id,
            game_id,
            identity,
            name,
            chips,
            is_active: true,
            is_folded: false,
            current_bet: 0,
            joined_at: now,
        }
    }

    /// This player after moving `amount` chips from its balance to its bet.
    pub open spec fn after_bet(self, amount: nat) -> PlayerView {
        PlayerView {
            chips: (self.chips - amount) as nat,
            current_bet: self.current_bet + amount,
            ..self
        }
    }

    /// This player after folding.
    pub open spec fn folded(self) -> PlayerView {
        PlayerView { is_folded: true, ..self }
    }

    /// Whether this player is the seat of `identity` in the game `game_id`.
    pub open spec fn sits(self, game_id: Seq<char>, identity: Seq<u8>) -> bool {
        self.game_id == game_id && self.identity == identity
    }
}

impl Clone for PokerPlayer {
    fn clone(&self) -> (copy: Self)
        ensures
            copy == *self,
    {
        PokerPlayer {
            player_id: self.player_id.clone(),
            game_id: self.game_id.clone(),
            identity: self.identity,
            name: self.name.clone(),
            chips: self.chips,
            is_active: self.is_active,
            is_folded: self.is_folded,
            current_bet: self.current_bet,
            joined_at: self.joined_at,
        }
    }
}

impl PokerPlayer {
    /// Seats `identity` in a game: active, not folded, nothing bet, holding
    /// `chips`, joined at `now`.
    pub fn seat(
        player_id: String,
        game_id: String,
        identity: Identity,
        name: String,
        chips: u64,
        now: Timestamp,
    ) -> (player: PokerPlayer)
        ensures
            player@ == PlayerView::seated(
                player_id@,
                game_id@,
                identity@,
                name@,
                chips as nat,
                now,
            ),
    {
        PokerPlayer {
            player_id,
            game_id,
            identity,
            name,
            chips,
            is_active: true,
            is_folded: false,
            current_bet: 0,
            joined_at: now,
        }
    }

    /// The player with `amount` chips moved from its balance to its bet.
    pub fn after_bet(&self, amount: u64) -> (player: PokerPlayer)
        requires
            amount <= self.chips,
            self.current_bet + amount <= u64::MAX,
        ensures
            player@ == self@.after_bet(amount as nat),
    {
        let mut player = self.clone();
        player.chips = self.chips - amount;
        player.current_bet = self.current_bet + amount;
        player
    }

    /// The player with its hand folded.
    pub fn folded(&self) -> (player: PokerPlayer)
        ensures
            player@ == self@.folded(),
    {
        let mut player = self.clone();
        player.is_folded = true;
        player
    }
}

/// Whether some player in `players` has the key `id`.
pub open spec fn has_player(players: Seq<PlayerView>, id: Seq<char>) -> bool {
    exists|i: int| 0 <= i < players.len() && #[trigger] players[i].player_id == id
}

/// The position of the player with key `id`, where there is one.
pub open spec fn player_index(players: Seq<PlayerView>, id: Seq<char>) -> int {
    choose|i: int| 0 <= i < players.len() && #[trigger] players[i].player_id == id
}

/// Whether `identity` has a seat in the game `game_id`.
pub open spec fn has_member(
    players: Seq<PlayerView>,
    game_id: Seq<char>,
    identity: Seq<u8>,
) -> bool {
    exists|i: int| 0 <= i < players.len() && #[trigger] players[i].sits(game_id, identity)
}

/// The position of the seat of `identity` in the game `game_id`, where there is one.
pub open spec fn seat_index(
    players: Seq<PlayerView>,
    game_id: Seq<char>,
    identity: Seq<u8>,
) -> int {
    choose|i: int| 0 <= i < players.len() && #[trigger] players[i].sits(game_id, identity)
}

/// No two players share a key.
pub open spec fn distinct_player_ids(players: Seq<PlayerView>) -> bool {
    forall|i: int, j: int|
        0 <= i < j < players.len() ==> #[trigger] players[i].player_id
            != #[trigger] players[j].player_id
}

/// No identity has two seats in one game.
pub open spec fn distinct_seats(players: Seq<PlayerView>) -> bool {
    forall|i: int, j: int|
        0 <= i < j < players.len() ==> !(#[trigger] players[i]).sits(
            (#[trigger] players[j]).game_id,
            players[j].identity,
        )
}

/// The number of players seated in the game `game_id`.
pub open spec fn count_in_game(players: Seq<PlayerView>, game_id: Seq<char>) -> nat
    decreases players.len(),
{
    if players.len() == 0 {
        0
    } else {
        count_in_game(players.drop_last(), game_id) + if players.last().game_id == game_id {
            1nat
        } else {
            0nat
        }
    }
}

/// In a registry with distinct keys, a position that holds the key is the
/// position of that key.
pub proof fn lemma_player_index_unique(players: Seq<PlayerView>, id: Seq<char>, i: int)
    requires
        distinct_player_ids(players),
        0 <= i < players.len(),
        players[i].player_id == id,
    ensures
        has_player(players, id),
        player_index(players, id) == i,
{
    let k = player_index(players, id);
    assert(players[k].player_id == players[i].player_id);
}

/// In a registry with distinct seats, a position that holds the seat is the
/// position of that seat.
pub proof fn lemma_seat_index_unique(
    players: Seq<PlayerView>,
    game_id: Seq<char>,
    identity: Seq<u8>,
    i: int,
)
    requires
        distinct_seats(players),
        0 <= i < players.len(),
        players[i].sits(game_id, identity),
    ensures
        has_member(players, game_id, identity),
        seat_index(players, game_id, identity) == i,
{
    let k = seat_index(players, game_id, identity);
    assert(players[k].sits(players[i].game_id, players[i].identity));
}

/// Counting one player more adds one exactly when that player sits in the game.
pub proof fn lemma_count_in_game_push(
    players: Seq<PlayerView>,
    added: PlayerView,
    game_id: Seq<char>,
)
    ensures
        count_in_game(players.push(added), game_id) == count_in_game(players, game_id) + if
            added.game_id == game_id {
            1nat
        } else {
            0nat
        },
{
    assert(players.push(added).drop_last() =~= players);
}

/// The players of a lobby, stored by key in the order in which they joined,
/// with at most one seat for each identity in each game.
pub struct PlayerRegistry {
    rows: Vec<PokerPlayer>,
}

impl View for PlayerRegistry {
    type V = Seq<PlayerView>;

    closed spec fn view(&self) -> Seq<PlayerView> {
        Seq::new(self.rows@.len(), |i: int| self.rows@[i]@)
    }
}

impl PlayerRegistry {
    /// The registry's invariant: no two players share a key, and no identity has
    /// two seats in one game.
    pub open spec fn wf(&self) -> bool {
        distinct_player_ids(self@) && distinct_seats(self@)
    }

    /// A registry without players.
    pub fn new() -> (registry: PlayerRegistry)
        ensures
            registry@ == Seq::<PlayerView>::empty(),
            registry.wf(),
    {
        let registry = PlayerRegistry { rows: Vec::new() };
        assert(registry@ =~= Seq::<PlayerView>::empty());
        registry
    }

    /// The number of players.
    pub fn len(&self) -> (n: usize)
        ensures
            n == self@.len(),
    {
        self.rows.len()
    }

    /// The player at position `i`, in the order in which the players joined.
    pub fn row(&self, i: usize) -> (player: &PokerPlayer)
        requires
            i < self@.len(),
        ensures
            player@ == self@[i as int],
    {
        &self.rows[i]
    }

    fn position(&self, player_id: &String) -> (found: Option<usize>)
        ensures
            match found {
                Some(i) => i < self@.len() && self@[i as int].player_id == player_id@,
                None => !has_player(self@, player_id@),
            },
    {
        let mut i: usize = 0;
        while i < self.rows.len()
            invariant
                i <= self.rows@.len(),
                forall|j: int| 0 <= j < i ==> (#[trigger] self@[j]).player_id != player_id@,
            decreases self.rows@.len() - i,
        {
            if self.rows[i].player_id == *player_id {
                return Some(i);
            }
            i += 1;
        }
        None
    }

    fn seat_position(&self, game_id: &String, identity: &Identity) -> (found: Option<usize>)
        ensures
            match found {
                Some(i) => i < self@.len() && self@[i as int].sits(game_id@, identity@),
                None => !has_member(self@, game_id@, identity@),
            },
    {
        let mut i: usize = 0;
        while i < self.rows.len()
            invariant
                i <= self.rows@.len(),
                forall|j: int| 0 <= j < i ==> !(#[trigger] self@[j]).sits(game_id@, identity@),
            decreases self.rows@.len() - i,
        {
            if self.rows[i].game_id == *game_id && self.rows[i].identity.same_as(identity) {
                return Some(i);
            }
            i += 1;
        }
        None
    }

    /// Looks a player up by its key.
    pub fn find(&self, player_id: &String) -> (found: Option<&PokerPlayer>)
        requires
            self.wf(),
        ensures
            match found {
                Some(player) => {
                    &&& has_player(self@, player_id@)
                    &&& player@ == self@[player_index(self@, player_id@)]
                },
                None => !has_player(self@, player_id@),
            },
    {
        match self.position(player_id) {
            Some(i) => {
                proof {
                    lemma_player_index_unique(self@, player_id@, i as int);
                }
                Some(&self.rows[i])
            },
            None => None,
        }
    }

    /// Looks up the seat of `identity` in the game `game_id`.
    pub fn find_by_game_and_identity(
        &self,
        game_id: &String,
        identity: &Identity,
    ) -> (found: Option<&PokerPlayer>)
        requires
            self.wf(),
        ensures
            match found {
                Some(player) => {
                    &&& has_member(self@, game_id@, identity@)
                    &&& player@ == self@[seat_index(self@, game_id@, identity@)]
                },
                None => !has_member(self@, game_id@, identity@),
            },
    {
        match self.seat_position(game_id, identity) {
            Some(i) => {
                proof {
                    lemma_seat_index_unique(self@, game_id@, identity@, i as int);
                }
                Some(&self.rows[i])
            },
            None => None,
        }
    }

    /// Counts the players seated in the game `game_id`.
    pub fn count_by_game(&self, game_id: &String) -> (count: usize)
        ensures
            count == count_in_game(self@, game_id@),
    {
        let mut count: usize = 0;
        let mut i: usize = 0;
        while i < self.rows.len()
            invariant
                i <= self.rows@.len(),
                count <= i,
                count == count_in_game(self@.take(i as int), game_id@),
            decreases self.rows@.len() - i,
        {
            proof {
                assert(self@.take(i + 1).drop_last() =~= self@.take(i as int));
            }
            if self.rows[i].game_id == *game_id {
                count += 1;
            }
            i += 1;
        }
        assert(self@.take(i as int) =~= self@);
        count
    }

    /// Adds a player under its key and its seat. Changes nothing when it fails:
    /// with `Conflict` when the key is already taken, else with `Duplicate` when
    /// the identity already has a seat in that game.
    pub fn create(&mut self, record: PokerPlayer) -> (result: Result<(), LobbyError>)
        requires
            old(self).wf(),
        ensures
            final(self).wf(),
            match result {
                Ok(()) => {
                    &&& !has_player(old(self)@, record@.player_id)
                    &&& !has_member(old(self)@, record@.game_id, record@.identity)
                    &&& final(self)@ == old(self)@.push(record@)
                },
                Err(e) => {
                    &&& final(self)@ == old(self)@
                    &&& if has_player(old(self)@, record@.player_id) {
                        e == LobbyError::Conflict
                    } else {
                        &&& e == LobbyError::Duplicate
                        &&& has_member(old(self)@, record@.game_id, record@.identity)
                    }
                },
            },
    {
        if self.position(&record.player_id).is_some() {
            return Err(LobbyError::Conflict);
        }
        if self.seat_position(&record.game_id, &record.identity).is_some() {
            return Err(LobbyError::Duplicate);
        }
        let ghost before = self@;
        let ghost added = record@;
        self.rows.push(record);
        assert(self@ =~= before.push(added));
        Ok(())
    }

    /// Replaces the player that has the key of `record`. Changes nothing when
    /// it fails: with `NotFound(Player)` when no player has that key, else with
    /// `Duplicate` when the seat of `record` belongs to another player.
    pub fn update(&mut self, record: PokerPlayer) -> (result: Result<(), LobbyError>)
        requires
            old(self).wf(),
        ensures
            final(self).wf(),
            match result {
                Ok(()) => {
                    &&& has_player(old(self)@, record@.player_id)
                    &&& !seat_held_by_other(old(self)@, record@)
                    &&& final(self)@ == old(self)@.update(
                        player_index(old(self)@, record@.player_id),
                        record@,
                    )
                },
                Err(e) => {
                    &&& final(self)@ == old(self)@
                    &&& if !has_player(old(self)@, record@.player_id) {
                        e == LobbyError::NotFound(RecordKind::Player)
                    } else {
                        &&& e == LobbyError::Duplicate
                        &&& seat_held_by_other(old(self)@, record@)
                    }
                },
            },
    {
        let i = match self.position(&record.player_id) {
            Some(i) => i,
            None => {
                return Err(LobbyError::NotFound(RecordKind::Player));
            },
        };
        proof {
            lemma_player_index_unique(self@, record@.player_id, i as int);
        }
        match self.seat_position(&record.game_id, &record.identity) {
            Some(k) => {
                proof {
                    lemma_seat_index_unique(self@, record@.game_id, record@.identity, k as int);
                }
                if k != i {
                    return Err(LobbyError::Duplicate);
                }
            },
            None => {},
        }
        let ghost before = self@;
        let ghost replaced = record@;
        self.rows.set(i, record);
        assert(self@ =~= before.update(i as int, replaced));
        assert(distinct_seats(self@)) by {
            assert forall|a: int, b: int| 0 <= a < b < self@.len() implies !(
            #[trigger] self@[a]).sits((#[trigger] self@[b]).game_id, self@[b].identity) by {
                if a == i as int {
                    if before[b].sits(replaced.game_id, replaced.identity) {
                        lemma_seat_index_unique(before, replaced.game_id, replaced.identity, b);
                    }
                } else if b == i as int {
                    if before[a].sits(replaced.game_id, replaced.identity) {
                        lemma_seat_index_unique(before, replaced.game_id, replaced.identity, a);
                    }
                } else {
                    assert(!before[a].sits(before[b].game_id, before[b].identity));
                }
            }
        }
        Ok(())
    }
}

/// Whether the seat of `record` belongs to a player with another key.
pub open spec fn seat_held_by_other(players: Seq<PlayerView>, record: PlayerView) -> bool {
    has_member(players, record.game_id, record.identity) && players[seat_index(
        players,
        record.game_id,
        record.identity,
    )].player_id != record.player_id
}

} // verus!
