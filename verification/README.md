# shikataganai

The game logic of a multiplayer voxel sandbox, verified with Verus, and the
server program around it.

- `src/` is the library. Every function in it carries a contract that Verus
  proves:
  - `coords`, `array`: block coordinates and bounded 2D/3D arrays laid out in
    row-major order;
  - `blocks`, `light`, `chunk`, `world`: block kinds, light levels and their
    propagation, chunks and their generation from terrain shapes, the world of
    loaded chunks;
  - `server`, `players`, `transfer`, `networking`, `recipes`: what the server
    decides when players act, player sessions, compressed chunk packets,
    channel settings, in-world recipes;
  - `client`: the client's side: meshing decisions, sprites, the console,
    `data:` URIs, player resources, block access.
  - `store` holds the hash maps and sets of the world and the sessions; they
    are bevy's hash collections behind small trusted wrappers.
- `app/` is the server program: networking with renet, the bevy schedule,
  serialization with serde and bincode, and Perlin-noise terrain shapes.
- `tests/` runs the library on concrete values.
