//! Network protocol definitions: constants, packets, and the server's record
//! of a connected client.
use vstd::prelude::*;
use std::time::{Duration, SystemTime, SystemTimeError, UNIX_EPOCH};
use crate::types::{PlayerData, PlayerState};

pub mod packet_type;

verus! {

/// Default server port for LAN multiplayer.
pub const DEFAULT_PORT: u16 = 7878;

/// Seconds without a packet after which a client is considered disconnected.
pub const TIMEOUT_SECONDS: u64 = 5;

/// Interval between world-state broadcasts, in milliseconds.
pub const BROADCAST_INTERVAL_MS: u64 = 50;

/// Target update rate in Hz.
pub const UPDATE_RATE_HZ: u32 = 20;

/// Interval between the server's checks for timed-out clients, in
/// milliseconds.
pub const TIMEOUT_CHECK_INTERVAL_MS: u64 = 1000;

/// Whether the server's next world-state broadcast is due, `elapsed_ms`
/// milliseconds after the last one.
pub fn broadcast_due(elapsed_ms: u128) -> (r: bool)
    ensures
        r == (elapsed_ms >= BROADCAST_INTERVAL_MS),
{
    elapsed_ms >= BROADCAST_INTERVAL_MS as u128
}

/// Whether the server's next check for timed-out clients is due,
/// `elapsed_ms` milliseconds after the last one.
pub fn timeout_check_due(elapsed_ms: u128) -> (r: bool)
    ensures
        r == (elapsed_ms >= TIMEOUT_CHECK_INTERVAL_MS),
{
    elapsed_ms >= TIMEOUT_CHECK_INTERVAL_MS as u128
}

#[verifier::external_type_specification]
#[verifier::external_body]
pub struct ExSystemTime(std::time::SystemTime);

#[verifier::external_type_specification]
#[verifier::external_body]
pub struct ExSystemTimeError(std::time::SystemTimeError);

/// Calls `std::time::SystemTime::now`. The moment it returns depends on the
/// clock, so nothing is stated of it.
#[verifier::external_body]
fn system_now() -> (r: SystemTime) {
    SystemTime::now()
}

/// Calls `SystemTime::duration_since` with `UNIX_EPOCH`: the time from the
/// Unix epoch to `t`, or an error when `t` is earlier. Neither has a model
/// here, so nothing is stated.
#[verifier::external_body]
fn since_unix_epoch(t: &SystemTime) -> (r: Result<Duration, SystemTimeError>) {
    t.duration_since(UNIX_EPOCH)
}

/// Calls `Duration::as_millis`: the whole milliseconds of `d`. Durations
/// have no model here, so the number is not described.
#[verifier::external_body]
fn duration_millis(d: &Duration) -> (r: u128) {
    d.as_millis()
}

/// Reads the clock: milliseconds since the Unix epoch, 0 for a clock set
/// before it and `u64::MAX` past the range of `u64`. Timestamps of the
/// server's records are readings of this clock. What it reads depends on
/// the time, so nothing is stated of it.
pub fn clock_ms() -> (r: u64) {
    let now = system_now();
    match since_unix_epoch(&now) {
        Ok(d) => {
            let ms = duration_millis(&d);
            if ms > u64::MAX as u128 {
                u64::MAX
            } else {
                ms as u64
            }
        },
        Err(_) => 0,
    }
}

/// The whole seconds from timestamp `since_ms` to timestamp `now_ms`, both
/// in milliseconds; 0 when `now_ms` is the earlier one.
pub open spec fn secs_between(since_ms: u64, now_ms: u64) -> u64 {
    if now_ms >= since_ms {
        ((now_ms - since_ms) / 1000) as u64
    } else {
        0
    }
}

/// Whether a client last seen at `last_seen_ms` has timed out at `now_ms`:
/// at least `TIMEOUT_SECONDS` whole seconds have passed.
pub open spec fn timed_out_at(last_seen_ms: u64, now_ms: u64) -> bool {
    secs_between(last_seen_ms, now_ms) >= TIMEOUT_SECONDS
}

/// Whether a client last heard from `elapsed_secs` whole seconds ago has
/// timed out.
pub fn timed_out_after(elapsed_secs: u64) -> (r: bool)
    ensures
        r == (elapsed_secs >= TIMEOUT_SECONDS),
{
    elapsed_secs >= TIMEOUT_SECONDS
}

/// A connected client as the server tracks it.
#[derive(Debug, Clone)]
pub struct ConnectedClient {
    /// The player id the server assigned.
    pub player_id: u32,
    /// When the server last received a packet from this client: a reading
    /// of `clock_ms`, in milliseconds.
    pub last_seen: u64,
    /// The player's current state.
    pub state: PlayerState,
}

impl ConnectedClient {
    /// A client with the given id, seen now, standing at the origin.
    pub fn new(player_id: u32) -> (r: ConnectedClient)
        ensures
            r.player_id == player_id,
            r.state == PlayerState::new_spec(player_id),
    {
        ConnectedClient::new_at(player_id, clock_ms())
    }

    /// A client with the given id, last seen at `now_ms`, standing at the
    /// origin.
    pub fn new_at(player_id: u32, now_ms: u64) -> (r: ConnectedClient)
        ensures
            r.player_id == player_id,
            r.last_seen == now_ms,
            r.state == PlayerState::new_spec(player_id),
    {
        ConnectedClient { player_id, last_seen: now_ms, state: PlayerState::new(player_id) }
    }

    /// Records that a packet was just received from this client.
    pub fn touch(&mut self)
        ensures
            final(self).player_id == old(self).player_id,
            final(self).state == old(self).state,
    {
        self.touch_at(clock_ms());
    }

    /// Records that a packet was received from this client at `now_ms`.
    pub fn touch_at(&mut self, now_ms: u64)
        ensures
            final(self).player_id == old(self).player_id,
            final(self).state == old(self).state,
            final(self).last_seen == now_ms,
    {
        self.last_seen = now_ms;
    }

    /// The whole seconds from the client's last packet to `now_ms`; 0 if
    /// `now_ms` is earlier.
    pub fn secs_since_seen_at(&self, now_ms: u64) -> (r: u64)
        ensures
            r == secs_between(self.last_seen, now_ms),
    {
        if now_ms >= self.last_seen {
            (now_ms - self.last_seen) / 1000
        } else {
            0
        }
    }

    /// Whether the client has timed out at `now_ms`: at least
    /// `TIMEOUT_SECONDS` whole seconds have passed since its last packet.
    pub fn is_timed_out_at(&self, now_ms: u64) -> (r: bool)
        ensures
            r == timed_out_at(self.last_seen, now_ms),
    {
        timed_out_after(self.secs_since_seen_at(now_ms))
    }

    /// Whether the client has timed out now, as `is_timed_out_at` decides
    /// for the clock's current reading.
    pub fn is_timed_out(&self) -> (r: bool) {
        let now_ms = clock_ms();
        self.is_timed_out_at(now_ms)
    }
}

/// Packets sent from client to server.
#[derive(Debug, Clone, Copy, PartialEq)]
pub enum ClientPacket {
    /// Player position/rotation update; `player_id` is 0 while the client
    /// has no id yet.
    PlayerUpdate(PlayerState),
}

/// Packets sent from server to client.
#[derive(Debug, Clone, PartialEq)]
pub enum ServerPacket {
    /// The id the server assigned to the receiving client.
    Welcome { assigned_player_id: u32 },
    /// All connected players.
    WorldState { players: Vec<PlayerData> },
    /// A player disconnected.
    PlayerLeft { player_id: u32 },
}

/// A server packet as a mathematical value.
pub enum ServerPacketView {
    Welcome { assigned_player_id: u32 },
    WorldState { players: Seq<PlayerData> },
    PlayerLeft { player_id: u32 },
}

impl View for ServerPacket {
    type V = ServerPacketView;

    open spec fn view(&self) -> ServerPacketView {
        match self {
            ServerPacket::Welcome { assigned_player_id } => ServerPacketView::Welcome {
                assigned_player_id: *assigned_player_id,
            },
            ServerPacket::WorldState { players } => ServerPacketView::WorldState {
                players: players@,
            },
            ServerPacket::PlayerLeft { player_id } => ServerPacketView::PlayerLeft {
                player_id: *player_id,
            },
        }
    }
}

/// The network address of a peer: an IPv4 address (in the low 32 bits of
/// `ip`, with `is_v6` false) or an IPv6 address, and a port.
#[derive(Debug, Clone, Copy, PartialEq, Eq, Structural)]
pub struct PeerAddr {
    pub ip: u128,
    pub port: u16,
    pub is_v6: bool,
}

/// A server packet to be sent to one peer.
#[derive(Debug, Clone, PartialEq)]
pub struct Outgoing {
    pub addr: PeerAddr,
    pub packet: ServerPacket,
}

/// An outgoing packet as a mathematical value.
pub struct OutgoingView {
    pub addr: PeerAddr,
    pub packet: ServerPacketView,
}

impl View for Outgoing {
    type V = OutgoingView;

    open spec fn view(&self) -> OutgoingView {
        OutgoingView { addr: self.addr, packet: self.packet@ }
    }
}

} // verus!
