//! The registry of connected players.

use crate::protocol::{to, Delivery, PlayerId, ServerMessage};
use crate::session::Player;
use std::collections::HashSet;
use vstd::prelude::*;

verus! {

broadcast use vstd::std_specs::hash::group_hash_axioms;

/// The players that are connected and logged in.
#[derive(Debug)]
pub struct PlayerRegistry {
    players: HashSet<PlayerId>,
}

impl View for PlayerRegistry {
    type V = Set<PlayerId>;

    /// The ids of the registered players.
    closed spec fn view(&self) -> Set<PlayerId> {
        self.players@
    }
}

impl PlayerRegistry {
    /// An empty registry.
    pub fn new() -> (registry: Self)
        ensures
            registry@ == Set::<PlayerId>::empty(),
    {
        PlayerRegistry { players: HashSet::new() }
    }

    /// Registers `player` and confirms the connection to it.  Registering a
    /// player again changes nothing but is confirmed again.
    pub fn add(&mut self, player: Player) -> (out: Vec<Delivery>)
        ensures
            final(self)@ == old(self)@.insert(player.id),
            out@ == seq![to(player.id, ServerMessage::Connected { player_id: player.id })],
    {
        self.players.insert(player.id);
        let mut out: Vec<Delivery> = Vec::new();
        out.push(
            Delivery { to: player.id, message: ServerMessage::Connected { player_id: player.id } },
        );
        out
    }

    /// Takes `player_id` out of the registry and says whether it was there.
    /// Removing an absent player changes nothing.
    pub fn remove(&mut self, player_id: PlayerId) -> (removed: bool)
        ensures
            final(self)@ == old(self)@.remove(player_id),
            removed == old(self)@.contains(player_id),
    {
        self.players.remove(&player_id)
    }

    /// Whether `player_id` is registered.
    pub fn contains(&self, player_id: PlayerId) -> (found: bool)
        ensures
            found == self@.contains(player_id),
    {
        self.players.contains(&player_id)
    }
}

/// Removing a player is idempotent: a second removal changes nothing, and the
/// removal of a player who was never there changes nothing either.
pub proof fn lemma_remove_is_idempotent(players: Set<PlayerId>, player: PlayerId)
    ensures
        players.remove(player).remove(player) == players.remove(player),
        !players.contains(player) ==> players.remove(player) == players,
        !players.remove(player).contains(player),
{
    assert(players.remove(player).remove(player) =~= players.remove(player));
    if !players.contains(player) {
        assert(players.remove(player) =~= players);
    }
}

} // verus!
