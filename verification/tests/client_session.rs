use game_engine::client::ClientSession;
use game_engine::network::{ClientPacket, ServerPacket};
use game_engine::types::{PlayerData, PlayerState, Vec3Bits};

fn data(id: u32, x: f32) -> PlayerData {
    PlayerData { player_id: id, position: Vec3Bits { x: x.to_bits(), y: 0, z: 0 }, rotation_yaw: 0 }
}

#[test]
fn welcome_assigns_own_id() {
    let mut session = ClientSession::new();
    assert_eq!(session.player, PlayerState::new(0));
    session.handle_server_packet(ServerPacket::Welcome { assigned_player_id: 7 });
    assert_eq!(session.player.player_id, 7);
    assert_eq!(session.player_update(), ClientPacket::PlayerUpdate(session.player));
}

#[test]
fn world_state_lists_others_but_not_self() {
    let mut session = ClientSession::new();
    session.handle_server_packet(ServerPacket::Welcome { assigned_player_id: 2 });
    session.handle_server_packet(ServerPacket::WorldState {
        players: vec![data(1, 1.0), data(2, 2.0), data(3, 3.0)],
    });
    let others = session.other_players();
    assert_eq!(others.len(), 2);
    assert_eq!(others.get(&1), Some(&data(1, 1.0)));
    assert_eq!(others.get(&3), Some(&data(3, 3.0)));
    assert!(others.get(&2).is_none());
}

#[test]
fn world_state_replaces_earlier_one() {
    let mut session = ClientSession::new();
    session.handle_server_packet(ServerPacket::WorldState { players: vec![data(1, 1.0), data(4, 4.0)] });
    session.handle_server_packet(ServerPacket::WorldState { players: vec![data(4, 8.0)] });
    let others = session.other_players();
    assert_eq!(others.len(), 1);
    assert_eq!(others.get(&4), Some(&data(4, 8.0)));
}

#[test]
fn player_left_forgets_that_player() {
    let mut session = ClientSession::new();
    session.handle_server_packet(ServerPacket::WorldState { players: vec![data(1, 1.0), data(4, 4.0)] });
    session.handle_server_packet(ServerPacket::PlayerLeft { player_id: 1 });
    assert_eq!(session.other_players().len(), 1);
    assert!(session.other_players().get(&1).is_none());
    session.handle_server_packet(ServerPacket::PlayerLeft { player_id: 99 });
    assert_eq!(session.other_players().len(), 1);
}
