# lost_lib

The rules of a small online game, verified with Verus: a server that keeps
a registry of players and enemies and answers each client message, and a
client that joins with a handshake and keeps its view of the world in step.

- `src/` is the verified library. Positions are carried as the bit
  patterns of their `f32` coordinates (`Vec3Bits`), so the library never
  computes on floats. Keyed tables are `bevy::utils::HashMap`s held behind
  small trusted wrappers (`src/tables.rs`) whose contracts speak of each
  table's contents as a `Map`.
  - `decimal`: decimal writing and reading of ids, as `format!` and
    `str::parse::<u64>` do them.
  - `defaults`, `messages`: the game's data and its messages.
  - `players`, `server`: the server's registry and its answer to each
    client message.
  - `combat`, `world`: shots and abilities; enemy spawning and tracking.
  - `client`, `entities`: the handshake, the client's answer to each server
    message, and how enemy bodies follow the server.
  - `camera`, `menu`: cursor grab, jumps, screens and the menu button.
- `app/` holds the two programs (`server` as first argument, client
  otherwise): bevy systems that do the I/O and rendering and hand plain
  values to the library, and serde copies of the message types.
- `tests/` runs the library on concrete values.
