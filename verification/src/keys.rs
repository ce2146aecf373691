//! The keys under which games and players are stored.

use crate::identity::{Identity, Timestamp};
use crate::text::{
    decimal, decimal_string, hex_text, identity_hex, lemma_decimal_injective, signed_decimal,
    signed_decimal_string,
};
use vstd::prelude::*;
use vstd::string::*;

verus! {

/// The key of the game with the given serial number.
pub open spec fn game_id_text(number: nat) -> Seq<char> {
    "game_"@ + decimal(number)
}

/// The key of the player that `identity` became by joining at `micros`.
pub open spec fn player_id_text(identity: Seq<u8>, micros: int) -> Seq<char> {
    "player_"@ + hex_text(identity) + "_"@ + signed_decimal(micros)
}

/// Games with different serial numbers have different keys.
pub proof fn lemma_game_id_injective(a: nat, b: nat)
    requires
        game_id_text(a) == game_id_text(b),
    ensures
        a == b,
{
    let prefix = "game_"@;
    assert(game_id_text(a).subrange(prefix.len() as int, game_id_text(a).len() as int) =~= decimal(
        a,
    ));
    assert(game_id_text(b).subrange(prefix.len() as int, game_id_text(b).len() as int) =~= decimal(
        b,
    ));
    lemma_decimal_injective(a, b);
}

/// Builds the key of the game with serial number `number`.
pub fn game_id_for(number: u64) -> (id: String)
    ensures
        id@ == game_id_text(number as nat),
{
    let mut id = "game_".to_owned();
    let digits = decimal_string(number);
    id.append(digits.as_str());
    id
}

/// Builds the key of the player that `identity` becomes by joining at `at`.
pub fn player_id_for(identity: &Identity, at: Timestamp) -> (id: String)
    ensures
        id@ == player_id_text(identity@, at.micros as int),
{
    let mut id = "player_".to_owned();
    let hex = identity_hex(identity.to_be_bytes());
    id.append(hex.as_str());
    id.append("_");
    let micros = signed_decimal_string(at.micros);
    id.append(micros.as_str());
    id
}

} // verus!
