//! Shared player types.
//!
//! Positions and yaw angles are carried as the IEEE-754 bit patterns of the
//! `f32` values the game uses. The library copies them and never computes
//! with them, so a bit pattern is exactly what it needs to hold. `==` on
//! these types compares the components as floats do: `0.0` equals `-0.0`
//! and a NaN equals nothing.
use vstd::prelude::*;
use vstd::std_specs::cmp::PartialEqSpecImpl;
use vstd::std_specs::convert::FromSpecImpl;

verus! {

/// Whether `b` is the bit pattern of a NaN: every exponent bit set and a
/// nonzero fraction.
pub open spec fn is_nan_bits(b: u32) -> bool {
    b & 0x7f80_0000u32 == 0x7f80_0000u32 && b & 0x007f_ffffu32 != 0
}

/// Whether the `f32` values with bit patterns `a` and `b` compare equal:
/// neither is a NaN, and the patterns are the same or both are zeros of
/// either sign.
pub open spec fn f32_bits_eq(a: u32, b: u32) -> bool {
    &&& !is_nan_bits(a)
    &&& !is_nan_bits(b)
    &&& (a == b || (a & 0x7fff_ffffu32 == 0 && b & 0x7fff_ffffu32 == 0))
}

/// Whether the `f32` values with bit patterns `a` and `b` compare equal, as
/// `==` on `f32` does.
pub fn f32_bits_equal(a: u32, b: u32) -> (r: bool)
    ensures
        r == f32_bits_eq(a, b),
{
    let a_nan = a & 0x7f80_0000u32 == 0x7f80_0000u32 && a & 0x007f_ffffu32 != 0;
    let b_nan = b & 0x7f80_0000u32 == 0x7f80_0000u32 && b & 0x007f_ffffu32 != 0;
    !a_nan && !b_nan && (a == b || (a & 0x7fff_ffffu32 == 0 && b & 0x7fff_ffffu32 == 0))
}

/// Whether two vectors compare equal as `f32` vectors do: component by
/// component.
pub open spec fn vec3_eq(a: Vec3Bits, b: Vec3Bits) -> bool {
    f32_bits_eq(a.x, b.x) && f32_bits_eq(a.y, b.y) && f32_bits_eq(a.z, b.z)
}

/// A 3D vector given by the bit patterns of its three `f32` components.
#[derive(Debug, Clone, Copy)]
pub struct Vec3Bits {
    pub x: u32,
    pub y: u32,
    pub z: u32,
}

impl PartialEq for Vec3Bits {
    fn eq(&self, other: &Self) -> (r: bool) {
        f32_bits_equal(self.x, other.x) && f32_bits_equal(self.y, other.y) && f32_bits_equal(
            self.z,
            other.z,
        )
    }
}

impl PartialEqSpecImpl for Vec3Bits {
    open spec fn obeys_eq_spec() -> bool {
        true
    }

    open spec fn eq_spec(&self, other: &Self) -> bool {
        vec3_eq(*self, *other)
    }
}

impl Vec3Bits {
    /// The zero vector; the bit pattern of `0.0f32` is all zeros.
    pub open spec fn spec_zero() -> Vec3Bits {
        Vec3Bits { x: 0, y: 0, z: 0 }
    }

    /// The zero vector (the world origin).
    pub fn zero() -> (r: Vec3Bits)
        ensures
            r == Vec3Bits::spec_zero(),
    {
        Vec3Bits { x: 0, y: 0, z: 0 }
    }
}

/// A player's current state in the game world.
#[derive(Debug, Clone, Copy)]
pub struct PlayerState {
    /// Unique identifier assigned by the server (0 while unassigned).
    pub player_id: u32,
    /// Position in world space.
    pub position: Vec3Bits,
    /// Bit pattern of the rotation around the Y axis, in radians.
    pub rotation_yaw: u32,
}

impl PartialEq for PlayerState {
    fn eq(&self, other: &Self) -> (r: bool) {
        self.player_id == other.player_id && self.position.eq(&other.position) && f32_bits_equal(
            self.rotation_yaw,
            other.rotation_yaw,
        )
    }
}

impl PartialEqSpecImpl for PlayerState {
    open spec fn obeys_eq_spec() -> bool {
        true
    }

    open spec fn eq_spec(&self, other: &Self) -> bool {
        &&& self.player_id == other.player_id
        &&& vec3_eq(self.position, other.position)
        &&& f32_bits_eq(self.rotation_yaw, other.rotation_yaw)
    }
}

impl PlayerState {
    /// A player at the origin, facing yaw 0.
    pub open spec fn new_spec(player_id: u32) -> PlayerState {
        PlayerState { player_id, position: Vec3Bits::spec_zero(), rotation_yaw: 0 }
    }

    /// A player at the origin, facing yaw 0.
    pub fn new(player_id: u32) -> (r: PlayerState)
        ensures
            r == PlayerState::new_spec(player_id),
    {
        PlayerState { player_id, position: Vec3Bits::zero(), rotation_yaw: 0 }
    }

    /// A player with the given position and rotation.
    pub fn with_transform(player_id: u32, position: Vec3Bits, rotation_yaw: u32) -> (r: PlayerState)
        ensures
            r == (PlayerState { player_id, position, rotation_yaw }),
    {
        PlayerState { player_id, position, rotation_yaw }
    }
}

/// One player's entry in a world-state broadcast.
#[derive(Debug, Clone, Copy)]
pub struct PlayerData {
    pub player_id: u32,
    pub position: Vec3Bits,
    pub rotation_yaw: u32,
}

impl PartialEq for PlayerData {
    fn eq(&self, other: &Self) -> (r: bool) {
        self.player_id == other.player_id && self.position.eq(&other.position) && f32_bits_equal(
            self.rotation_yaw,
            other.rotation_yaw,
        )
    }
}

impl PartialEqSpecImpl for PlayerData {
    open spec fn obeys_eq_spec() -> bool {
        true
    }

    open spec fn eq_spec(&self, other: &Self) -> bool {
        &&& self.player_id == other.player_id
        &&& vec3_eq(self.position, other.position)
        &&& f32_bits_eq(self.rotation_yaw, other.rotation_yaw)
    }
}

/// The broadcast entry that describes a player state: the same three fields.
pub open spec fn player_data_of(state: PlayerState) -> PlayerData {
    PlayerData {
        player_id: state.player_id,
        position: state.position,
        rotation_yaw: state.rotation_yaw,
    }
}

impl From<PlayerState> for PlayerData {
    fn from(state: PlayerState) -> (r: PlayerData) {
        PlayerData {
            player_id: state.player_id,
            position: state.position,
            rotation_yaw: state.rotation_yaw,
        }
    }
}

impl FromSpecImpl<PlayerState> for PlayerData {
    open spec fn obeys_from_spec() -> bool {
        true
    }

    open spec fn from_spec(v: PlayerState) -> PlayerData {
        player_data_of(v)
    }
}

} // verus!
