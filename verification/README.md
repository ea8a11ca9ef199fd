# mycelium

The protocol logic of a small Minecraft proxy, verified with Verus.

- `src/` is the library: packet ids per protocol version, the wire codec
  (VarInts, strings, big-endian integers, frames), the packets the proxy
  writes, and the per-connection decisions of the two relays (player to
  backend, backend to player) as functions from state and frame to new
  state and bytes to write. `src/laws.rs` states round-trip and relay
  properties.
- `app/` is the proxy program: sockets, threads and the channel between
  the two relays, around the library's decisions.
- `tests/` runs the library on concrete frames.
