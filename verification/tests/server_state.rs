use game_engine::network::{ClientPacket, ConnectedClient, PeerAddr, ServerPacket};
use game_engine::server::{addrs_to_drop, ClientEntry, ServerState};
use game_engine::types::{PlayerData, PlayerState, Vec3Bits};

fn addr(port: u16) -> PeerAddr {
    PeerAddr { ip: 0x7f00_0001, port, is_v6: false }
}

fn bits(x: f32, y: f32, z: f32) -> Vec3Bits {
    Vec3Bits { x: x.to_bits(), y: y.to_bits(), z: z.to_bits() }
}

fn update(id: u32, x: f32, y: f32, z: f32, yaw: f32) -> ClientPacket {
    ClientPacket::PlayerUpdate(PlayerState::with_transform(id, bits(x, y, z), yaw.to_bits()))
}

#[test]
fn new_client_gets_welcome_and_appears_in_world_state() {
    let mut server = ServerState::new();
    let out = server.handle_packet(update(0, 1.0, 0.0, 2.0, 0.5), addr(4000));
    assert_eq!(out.len(), 1);
    assert_eq!(out[0].addr, addr(4000));
    assert_eq!(out[0].packet, ServerPacket::Welcome { assigned_player_id: 1 });
    assert_eq!(server.client_count(), 1);
    let world = server.broadcast_world_state();
    assert_eq!(world.len(), 1);
    assert_eq!(world[0].addr, addr(4000));
    assert_eq!(
        world[0].packet,
        ServerPacket::WorldState {
            players: vec![PlayerData {
                player_id: 1,
                position: bits(1.0, 0.0, 2.0),
                rotation_yaw: 0.5f32.to_bits(),
            }],
        }
    );
}

#[test]
fn known_client_update_moves_it() {
    let mut server = ServerState::new();
    server.handle_packet(update(0, 0.0, 0.0, 0.0, 0.0), addr(4000));
    let out = server.handle_packet(update(1, 10.0, 0.0, -5.0, 1.57), addr(4000));
    assert!(out.is_empty());
    assert_eq!(server.next_player_id(), 2);
    let world = server.broadcast_world_state();
    assert_eq!(world.len(), 1);
    match &world[0].packet {
        ServerPacket::WorldState { players } => {
            assert_eq!(players.len(), 1);
            assert_eq!(players[0].player_id, 1);
            assert_eq!(players[0].position, bits(10.0, 0.0, -5.0));
            assert_eq!(f32::from_bits(players[0].rotation_yaw), 1.57);
        }
        other => panic!("expected a world state, got {:?}", other),
    }
}

#[test]
fn two_clients_get_distinct_ids_and_both_see_both() {
    let mut server = ServerState::new();
    let out1 = server.handle_packet(update(0, 0.0, 0.0, 0.0, 0.0), addr(4001));
    let out2 = server.handle_packet(update(0, 5.0, 0.0, 5.0, 0.0), addr(4002));
    let id1 = match out1[0].packet {
        ServerPacket::Welcome { assigned_player_id } => assigned_player_id,
        _ => panic!("expected welcome"),
    };
    let id2 = match out2[0].packet {
        ServerPacket::Welcome { assigned_player_id } => assigned_player_id,
        _ => panic!("expected welcome"),
    };
    assert_ne!(id1, id2);
    assert_eq!((id1, id2), (1, 2));
    assert_eq!(out2.len(), 1);
    // the world state goes to both clients and lists both
    let world = server.broadcast_world_state();
    assert_eq!(world.len(), 2);
    assert_eq!(world[0].addr, addr(4001));
    assert_eq!(world[1].addr, addr(4002));
    for o in &world {
        match &o.packet {
            ServerPacket::WorldState { players } => assert_eq!(players.len(), 2),
            _ => panic!("expected world state"),
        }
    }
}

#[test]
fn unknown_address_with_an_id_joins() {
    let mut server = ServerState::new();
    server.handle_packet(update(0, 0.0, 0.0, 0.0, 0.0), addr(4001));
    let out = server.handle_packet(update(9, 3.0, 3.0, 3.0, 0.25), addr(4999));
    assert_eq!(out.len(), 1);
    assert_eq!(out[0].addr, addr(4999));
    assert_eq!(out[0].packet, ServerPacket::Welcome { assigned_player_id: 2 });
    assert_eq!(server.client_count(), 2);
    assert_eq!(server.next_player_id(), 3);
    let entry = &server.client_entries()[1];
    assert_eq!(entry.addr, addr(4999));
    assert_eq!(entry.client.player_id, 2);
    assert_eq!(entry.client.state, PlayerState::with_transform(2, bits(3.0, 3.0, 3.0), 0.25f32.to_bits()));
}

#[test]
fn id_zero_from_known_address_only_moves_it() {
    let mut server = ServerState::new();
    server.handle_packet(update(0, 0.0, 0.0, 0.0, 0.0), addr(4001));
    let out = server.handle_packet(update(0, 1.0, 1.0, 1.0, 0.0), addr(4001));
    assert!(out.is_empty());
    assert_eq!(server.client_count(), 1);
    assert_eq!(server.next_player_id(), 2);
    assert_eq!(server.client_entries()[0].client.player_id, 1);
    assert_eq!(server.client_entries()[0].client.state.position, bits(1.0, 1.0, 1.0));
}

#[test]
fn packet_at_a_time_records_it_as_last_seen() {
    let mut server = ServerState::new();
    server.handle_packet_at(update(0, 0.0, 0.0, 0.0, 0.0), addr(4001), 10_000);
    assert_eq!(server.client_entries()[0].client.last_seen, 10_000);
    let out = server.handle_packet_at(update(1, 2.0, 0.0, 0.0, 0.0), addr(4001), 13_000);
    assert!(out.is_empty());
    assert_eq!(server.client_entries()[0].client.last_seen, 13_000);
}

#[test]
fn silent_clients_time_out_and_are_announced() {
    let mut server = ServerState::new();
    server.handle_packet_at(update(0, 0.0, 0.0, 0.0, 0.0), addr(1), 1_000);
    server.handle_packet_at(update(0, 0.0, 0.0, 0.0, 0.0), addr(2), 4_000);
    server.handle_packet_at(update(0, 0.0, 0.0, 0.0, 0.0), addr(3), 2_000);
    assert!(server.timed_out_addrs_at(5_999).is_empty());
    assert_eq!(server.timed_out_addrs_at(6_000), vec![addr(1)]);
    assert_eq!(server.timed_out_addrs_at(7_500), vec![addr(1), addr(3)]);
    // a packet at 6 500 keeps client 3 alive
    server.handle_packet_at(update(3, 1.0, 0.0, 0.0, 0.0), addr(3), 6_500);
    let out = server.expire_timed_out_at(7_500);
    assert_eq!(server.client_count(), 2);
    assert_eq!(server.client_entries()[0].addr, addr(2));
    assert_eq!(server.client_entries()[1].addr, addr(3));
    assert_eq!(out.len(), 2);
    for o in &out {
        assert_eq!(o.packet, ServerPacket::PlayerLeft { player_id: 1 });
    }
    assert!(server.expire_timed_out_at(7_500).is_empty());
}

#[test]
fn removed_client_is_announced_to_the_rest() {
    let mut server = ServerState::new();
    server.handle_packet(update(0, 0.0, 0.0, 0.0, 0.0), addr(1));
    server.handle_packet(update(0, 0.0, 0.0, 0.0, 0.0), addr(2));
    server.handle_packet(update(0, 0.0, 0.0, 0.0, 0.0), addr(3));
    let out = server.remove_clients(&vec![addr(2), addr(7)]);
    assert_eq!(server.client_count(), 2);
    assert_eq!(out.len(), 2);
    assert_eq!(out[0].addr, addr(1));
    assert_eq!(out[1].addr, addr(3));
    for o in &out {
        assert_eq!(o.packet, ServerPacket::PlayerLeft { player_id: 2 });
    }
    assert_eq!(server.broadcast_player_left(9).len(), 2);
}

#[test]
fn fresh_clients_do_not_time_out() {
    let mut server = ServerState::new();
    server.handle_packet(update(0, 0.0, 0.0, 0.0, 0.0), addr(1));
    assert!(server.timed_out_addrs().is_empty());
    let out = server.expire_timed_out();
    assert!(out.is_empty());
    assert_eq!(server.client_count(), 1);
}

#[test]
fn broadcast_world_state_on_empty_server_sends_nothing() {
    let server = ServerState::new();
    assert!(server.broadcast_world_state().is_empty());
    assert_eq!(server.client_count(), 0);
}

#[test]
fn addrs_to_drop_picks_clients_silent_for_the_timeout() {
    let now = 1_000u64;
    let entries: Vec<ClientEntry> = (1u16..=4)
        .map(|p| ClientEntry { addr: addr(p), client: ConnectedClient::new_at(p as u32, now) })
        .collect();
    let secs = vec![0u64, 5, 4, 10];
    assert_eq!(addrs_to_drop(&entries, &secs), vec![addr(2), addr(4)]);
    assert!(addrs_to_drop(&entries, &vec![0, 1, 2, 3]).is_empty());
    assert!(addrs_to_drop(&Vec::new(), &Vec::new()).is_empty());
}
