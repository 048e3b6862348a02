use game_engine::client::{frame_due, player_update_due, NETWORK_UPDATE_INTERVAL_MS, SERVER_ADDR};
use game_engine::network::packet_type;
use game_engine::network::{
    broadcast_due, clock_ms, timed_out_after, timeout_check_due, ConnectedClient, BROADCAST_INTERVAL_MS, DEFAULT_PORT, TIMEOUT_SECONDS,
    UPDATE_RATE_HZ,
};
use game_engine::render::{CUBE_CORNERS, CUBE_INDICES, WINDOW_TITLE};
use game_engine::types::{f32_bits_equal, PlayerData, PlayerState, Vec3Bits};

fn bits(x: f32, y: f32, z: f32) -> Vec3Bits {
    Vec3Bits { x: x.to_bits(), y: y.to_bits(), z: z.to_bits() }
}

#[test]
fn test_player_state_default_position() {
    let state = PlayerState::new(1);

    assert_eq!(state.player_id, 1);
    assert_eq!(state.position, bits(0.0, 0.0, 0.0));
    assert_eq!(f32::from_bits(state.rotation_yaw), 0.0);
}

#[test]
fn test_player_data_from_player_state() {
    let state = PlayerState::with_transform(7, bits(1.0, 2.0, 3.0), 0.5f32.to_bits());
    let data: PlayerData = state.into();

    assert_eq!(data.player_id, state.player_id);
    assert_eq!(data.position, state.position);
    assert_eq!(data.rotation_yaw, state.rotation_yaw);
}

#[test]
fn test_network_constants() {
    assert_eq!(DEFAULT_PORT, 7878);
    assert_eq!(TIMEOUT_SECONDS, 5);
    assert_eq!(BROADCAST_INTERVAL_MS, 50);
    assert_eq!(UPDATE_RATE_HZ, 20);
}

#[test]
fn test_packet_type_discriminants() {
    assert_eq!(packet_type::PLAYER_UPDATE, 0x01);
    assert_eq!(packet_type::WELCOME, 0x10);
    assert_eq!(packet_type::WORLD_STATE, 0x11);
    assert_eq!(packet_type::PLAYER_LEFT, 0x12);
}

#[test]
fn test_connected_client_new() {
    let client = ConnectedClient::new(42);

    assert_eq!(client.player_id, 42);
    assert_eq!(client.state.player_id, 42);
    assert_eq!(client.state.position, bits(0.0, 0.0, 0.0));
    assert_eq!(f32::from_bits(client.state.rotation_yaw), 0.0);
    assert!(!client.is_timed_out());
}

#[test]
fn test_connected_client_touch() {
    let mut client = ConnectedClient::new(1);
    let wait_until = std::time::Instant::now() + std::time::Duration::from_millis(10);
    while std::time::Instant::now() < wait_until {}
    let before_touch = client.last_seen;
    client.touch();

    assert!(client.last_seen > before_touch);
}

#[test]
fn test_render_window_title() {
    assert_eq!(WINDOW_TITLE, "3D Multiplayer Game");
}

#[test]
fn test_cube_index_count() {
    // 36 indices for 12 triangles (6 faces * 2 triangles * 3 vertices)
    assert_eq!(CUBE_INDICES.len(), 36);
}

#[test]
fn test_server_addr_is_localhost() {
    assert_eq!(SERVER_ADDR, "127.0.0.1:7878");
}

#[test]
fn cube_indices_name_cube_corners() {
    assert_eq!(CUBE_CORNERS, 8);
    for &index in CUBE_INDICES.iter() {
        assert!((index as usize) < CUBE_CORNERS);
    }
    assert_eq!(CUBE_INDICES.len() % 3, 0);
}

#[test]
fn timeout_rule_boundary() {
    assert!(!timed_out_after(0));
    assert!(!timed_out_after(4));
    assert!(timed_out_after(5));
    assert!(timed_out_after(60));
}

#[test]
fn with_transform_keeps_all_fields() {
    let s = PlayerState::with_transform(3, bits(-5.0, 0.0, 10.0), std::f32::consts::PI.to_bits());
    assert_eq!(s.player_id, 3);
    assert_eq!(f32::from_bits(s.position.x), -5.0);
    assert_eq!(f32::from_bits(s.position.z), 10.0);
    assert_eq!(f32::from_bits(s.rotation_yaw), std::f32::consts::PI);
}

#[test]
fn client_made_at_a_time_was_last_seen_then() {
    let at = clock_ms() - 10_000;
    let client = ConnectedClient::new_at(3, at);
    assert_eq!(client.last_seen, at);
    assert_eq!(client.player_id, 3);
    assert_eq!(client.state, PlayerState::new(3));
    assert_eq!(client.secs_since_seen_at(at + 10_999), 10);
    assert!(client.is_timed_out());
}

#[test]
fn touch_at_sets_last_seen_and_keeps_the_rest() {
    let mut client = ConnectedClient::new_at(7, 2_000);
    client.touch_at(3_500);
    assert_eq!(client.last_seen, 3_500);
    assert_eq!(client.player_id, 7);
    assert_eq!(client.state, PlayerState::new(7));
}

#[test]
fn client_times_out_after_five_whole_seconds() {
    let client = ConnectedClient::new_at(1, 1_000);
    assert_eq!(client.secs_since_seen_at(1_000), 0);
    assert_eq!(client.secs_since_seen_at(5_999), 4);
    assert!(!client.is_timed_out_at(5_999));
    assert!(client.is_timed_out_at(6_000));
    assert!(client.is_timed_out_at(60_000));
    // a reading earlier than the last packet counts as no time passed
    assert_eq!(client.secs_since_seen_at(0), 0);
    assert!(!client.is_timed_out_at(0));
}

#[test]
fn player_types_compare_positions_as_floats() {
    let zero = PlayerState::with_transform(1, bits(0.0, 0.0, 0.0), 0.0f32.to_bits());
    let neg_zero = PlayerState::with_transform(1, bits(-0.0, 0.0, -0.0), (-0.0f32).to_bits());
    assert_eq!(zero, neg_zero);
    let nan = PlayerState::with_transform(1, bits(f32::NAN, 0.0, 0.0), 0.0f32.to_bits());
    assert_ne!(nan, nan);
    assert_ne!(bits(f32::NAN, 1.0, 2.0), bits(f32::NAN, 1.0, 2.0));
    assert_eq!(bits(1.5, -2.0, 3.25), bits(1.5, -2.0, 3.25));
    assert_ne!(bits(1.5, -2.0, 3.25), bits(1.5, -2.0, 3.0));
    let d = PlayerData { player_id: 2, position: bits(-0.0, 1.0, 1.0), rotation_yaw: f32::NAN.to_bits() };
    assert_ne!(d, d);
    let e = PlayerData { player_id: 2, position: bits(0.0, 1.0, 1.0), rotation_yaw: 1.0f32.to_bits() };
    let f = PlayerData { player_id: 2, position: bits(-0.0, 1.0, 1.0), rotation_yaw: 1.0f32.to_bits() };
    assert_eq!(e, f);
    assert!(f32_bits_equal(0.0f32.to_bits(), (-0.0f32).to_bits()));
    assert!(!f32_bits_equal(f32::NAN.to_bits(), f32::NAN.to_bits()));
    assert!(!f32_bits_equal(f32::INFINITY.to_bits(), f32::NEG_INFINITY.to_bits()));
    assert!(f32_bits_equal(f32::INFINITY.to_bits(), f32::INFINITY.to_bits()));
}

#[test]
fn test_cube_vertex_count() {
    // 8 vertices for a cube (one per corner)
    assert_eq!(CUBE_CORNERS, 8);
}

#[test]
fn test_cube_indices_valid() {
    // All indices should be within vertex bounds
    for &index in CUBE_INDICES.iter() {
        assert!(
            (index as usize) < CUBE_CORNERS,
            "Index {} out of bounds for {} vertices",
            index,
            CUBE_CORNERS
        );
    }
}

#[test]
fn test_network_update_interval_is_50ms() {
    // 20Hz = 1000ms / 20 = 50ms
    assert_eq!(
        std::time::Duration::from_millis(NETWORK_UPDATE_INTERVAL_MS),
        std::time::Duration::from_millis(50),
        "Network update interval should be 50ms (20Hz)"
    );
}

#[test]
fn periodic_actions_are_due_once_their_interval_has_passed() {
    assert!(!broadcast_due(49));
    assert!(broadcast_due(50));
    assert!(broadcast_due(51));
    assert!(!timeout_check_due(999));
    assert!(timeout_check_due(1000));
    assert!(!player_update_due(0));
    assert!(!player_update_due(49));
    assert!(player_update_due(50));
    assert!(!frame_due(16_666));
    assert!(frame_due(16_667));
    assert!(frame_due(u128::MAX));
}

#[test]
fn connected_client_clone_keeps_every_field() {
    let client = ConnectedClient::new(4);
    let copy = client.clone();
    assert_eq!(copy.player_id, 4);
    assert_eq!(copy.last_seen, client.last_seen);
    assert_eq!(copy.state, client.state);
}
