//! Rendering data shared by the client: the window title and the cube's
//! triangle list. The cube's corner coordinates and colours are
//! floating-point data and live with the renderer.
use vstd::prelude::*;

verus! {

/// Window title for the game client.
pub const WINDOW_TITLE: &'static str = "3D Multiplayer Game";

/// Number of corners of the cube mesh that `CUBE_INDICES` indexes into.
pub const CUBE_CORNERS: usize = 8;

/// Cube indices for indexed drawing: 6 faces, 2 triangles each.
pub const CUBE_INDICES: [u16; 36] = [
    0, 1, 2, 2, 3, 0, // front
    1, 5, 6, 6, 2, 1, // right
    5, 4, 7, 7, 6, 5, // back
    4, 0, 3, 3, 7, 4, // left
    3, 2, 6, 6, 7, 3, // top
    4, 5, 1, 1, 0, 4, // bottom
];

/// Every cube index names one of the cube's corners, and the list holds
/// twelve whole triangles (two per face).
pub proof fn law_cube_indices_in_bounds()
    ensures
        CUBE_INDICES@.len() == 36,
        CUBE_INDICES@.len() % 3 == 0,
        forall|i: int| 0 <= i < CUBE_INDICES@.len() ==> (#[trigger] CUBE_INDICES@[i]) < CUBE_CORNERS,
{
}

} // verus!
