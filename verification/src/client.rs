//! The client's view of the game: its own player and the other players the
//! server last reported. Windowing, input, rendering and sockets stay with
//! the caller.
use vstd::prelude::*;
use std::collections::HashMap;
use crate::network::{ClientPacket, ServerPacket, ServerPacketView};
use crate::types::{PlayerData, PlayerState};

verus! {

broadcast use vstd::std_specs::hash::group_hash_axioms;

/// Server address for LAN multiplayer.
pub const SERVER_ADDR: &'static str = "127.0.0.1:7878";

/// Interval between the client's player updates, in milliseconds (20 Hz).
pub const NETWORK_UPDATE_INTERVAL_MS: u64 = 50;

/// Length of one rendered frame, in microseconds (60 frames a second).
pub const FRAME_DURATION_US: u64 = 16_667;

/// Whether the client's next player update is due, `elapsed_ms`
/// milliseconds after the last one.
pub fn player_update_due(elapsed_ms: u128) -> (r: bool)
    ensures
        r == (elapsed_ms >= NETWORK_UPDATE_INTERVAL_MS),
{
    elapsed_ms >= NETWORK_UPDATE_INTERVAL_MS as u128
}

/// Whether the next frame is due, `elapsed_us` microseconds after the last
/// one.
pub fn frame_due(elapsed_us: u128) -> (r: bool)
    ensures
        r == (elapsed_us >= FRAME_DURATION_US),
{
    elapsed_us >= FRAME_DURATION_US as u128
}

/// The other players listed in a world state, keyed by id, leaving out the
/// player `own_id`; a later entry with the same id replaces an earlier one.
pub open spec fn others_in_world_state(players: Seq<PlayerData>, own_id: u32) -> Map<u32, PlayerData>
    decreases players.len(),
{
    if players.len() == 0 {
        Map::empty()
    } else {
        let m = others_in_world_state(players.drop_last(), own_id);
        let p = players.last();
        if p.player_id != own_id {
            m.insert(p.player_id, p)
        } else {
            m
        }
    }
}

/// A client's session: its own player and the others it knows about.
pub struct ClientSession {
    /// The local player; `player_id` is 0 until the server welcomes us.
    pub player: PlayerState,
    /// The other players the server last reported, keyed by id.
    pub other_players: HashMap<u32, PlayerData>,
}

impl ClientSession {
    /// The other players, keyed by id.
    pub open spec fn others(&self) -> Map<u32, PlayerData> {
        self.other_players@
    }

    /// A session whose player has no id yet, stands at the origin, and knows
    /// no other players.
    pub fn new() -> (r: ClientSession)
        ensures
            r.player == PlayerState::new_spec(0),
            r.others() == Map::<u32, PlayerData>::empty(),
    {
        ClientSession { player: PlayerState::new(0), other_players: HashMap::new() }
    }

    /// The other players, keyed by id.
    pub fn other_players(&self) -> (r: &HashMap<u32, PlayerData>)
        ensures
            r@ == self.others(),
    {
        &self.other_players
    }

    /// The update packet that reports the local player to the server.
    pub fn player_update(&self) -> (r: ClientPacket)
        ensures
            r == ClientPacket::PlayerUpdate(self.player),
    {
        ClientPacket::PlayerUpdate(self.player)
    }

    /// Applies a packet received from the server: a welcome sets our id, a
    /// world state replaces the other players with those it lists (leaving
    /// out ourselves), and a player-left notice forgets that player.
    pub fn handle_server_packet(&mut self, packet: ServerPacket)
        ensures
            match packet@ {
                ServerPacketView::Welcome { assigned_player_id } => {
                    &&& final(self).player == (PlayerState {
                        player_id: assigned_player_id,
                        ..old(self).player
                    })
                    &&& final(self).others() == old(self).others()
                },
                ServerPacketView::WorldState { players } => {
                    &&& final(self).player == old(self).player
                    &&& final(self).others() == others_in_world_state(
                        players,
                        old(self).player.player_id,
                    )
                },
                ServerPacketView::PlayerLeft { player_id } => {
                    &&& final(self).player == old(self).player
                    &&& final(self).others() == old(self).others().remove(player_id)
                },
            },
    {
        match packet {
            ServerPacket::Welcome { assigned_player_id } => {
                self.player.player_id = assigned_player_id;
            },
            ServerPacket::WorldState { players } => {
                self.other_players.clear();
                let own = self.player.player_id;
                let mut i: usize = 0;
                proof {
                    assert(players@.take(0) =~= Seq::<PlayerData>::empty());
                }
                while i < players.len()
                    invariant
                        i <= players@.len(),
                        own == self.player.player_id,
                        self.player == old(self).player,
                        self.other_players@ == others_in_world_state(players@.take(i as int), own),
                    decreases players@.len() - i,
                {
                    let p = players[i];
                    proof {
                        assert(players@.take(i + 1).drop_last() =~= players@.take(i as int));
                    }
                    if p.player_id != own {
                        self.other_players.insert(p.player_id, p);
                    }
                    i = i + 1;
                }
                proof {
                    assert(players@.take(players@.len() as int) =~= players@);
                }
            },
            ServerPacket::PlayerLeft { player_id } => {
                self.other_players.remove(&player_id);
            },
        }
    }
}

/// Whatever world state arrives, the local player is never among the others.
pub proof fn law_own_player_never_listed(players: Seq<PlayerData>, own_id: u32)
    ensures
        !others_in_world_state(players, own_id).dom().contains(own_id),
        forall|id: u32| #[trigger] others_in_world_state(players, own_id).dom().contains(id)
            ==> others_in_world_state(players, own_id)[id].player_id == id,
    decreases players.len(),
{
    if players.len() > 0 {
        law_own_player_never_listed(players.drop_last(), own_id);
    }
}

/// A player listed in a world state (other than ourselves) is among the
/// others afterwards.
pub proof fn law_listed_players_are_known(players: Seq<PlayerData>, own_id: u32, k: int)
    requires
        0 <= k < players.len(),
        players[k].player_id != own_id,
    ensures
        others_in_world_state(players, own_id).dom().contains(players[k].player_id),
    decreases players.len(),
{
    if k < players.len() - 1 {
        law_listed_players_are_known(players.drop_last(), own_id, k);
    }
}

/// A world state's entry for another player is kept exactly as received:
/// the last entry listed for an id other than our own is what the session
/// then knows of that player, with its position and yaw.
pub proof fn law_world_state_entries_kept_as_received(players: Seq<PlayerData>, own_id: u32, k: int)
    requires
        0 <= k < players.len(),
        players[k].player_id != own_id,
        forall|j: int| k < j < players.len() ==> (#[trigger] players[j]).player_id != players[k].player_id,
    ensures
        others_in_world_state(players, own_id).dom().contains(players[k].player_id),
        others_in_world_state(players, own_id)[players[k].player_id] == players[k],
    decreases players.len(),
{
    if k < players.len() - 1 {
        let prefix = players.drop_last();
        assert forall|j: int| k < j < prefix.len() implies (#[trigger] prefix[j]).player_id != prefix[k].player_id by {
            assert(prefix[j] == players[j]);
        }
        law_world_state_entries_kept_as_received(prefix, own_id, k);
        assert(prefix[k] == players[k]);
        assert(players.last() == players[players.len() - 1]);
    }
}

} // verus!
