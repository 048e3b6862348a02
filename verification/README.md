# game_engine

Shared library of a small LAN multiplayer 3D game, verified with Verus, and
the two programs built on it.

## Layout

- `src/` — the verified library.
  - `types.rs`: player state and world-state entries. Positions and yaw
    angles are carried as the bit patterns of their `f32` values and
    compared as floats.
  - `network.rs`, `network/packet_type.rs`: protocol constants, client and
    server packets, peer addresses, the server's record of a client (last
    seen at a millisecond timestamp of the system clock) and the timeout
    rule.
  - `server.rs`: the server's client table, keyed by source address, and
    its decisions — joins of new addresses, updates, world-state
    broadcasts, timeouts and departure notices — with the table's
    invariant (unique addresses and ids) and its laws.
  - `client.rs`: what a client knows: its own player and the other players
    of the last world state.
  - `render.rs`: window title and the cube's triangle list.
  - `test_helpers/`: simulated keyboard input, GPU read-back row
    arithmetic and PNG image buffers, H.264 NAL unit extraction, an
    OpenH264 encoder that keeps a record of the frames it was handed, and
    video recording down to the MP4 track layout.
- `tests/` — tests of the library.
- `app/` — the programs: the UDP server and the windowed client (their
  timers ask the library whether a broadcast, a timeout check, an update or
  a frame is due), packet
  serialization with bincode, wgpu rendering and read-back, PNG and MP4
  writing, and the floating-point camera and movement code.
