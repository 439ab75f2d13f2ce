# catena

Core value types and data structures of the catena MUD engine, verified with
Verus.

- `src/room_key.rs`: `RoomKey`, a namespaced room identifier (`ns:local`),
  checked on construction; `try_new` states exactly which error each input gets.
- `src/direction.rs`: `Direction`, a checked direction name; the six standard
  directions invert to their opposites, other names to themselves.
- `src/exits.rs`: `Exits`, a room's exit map, and the `ExitPatch` values that
  keep exits between rooms reciprocal.
- `src/room_registry.rs`: `RoomRegistry`, the map from room key to entity.
- `src/components.rs`, `src/types.rs`: components and engine value types.
- `src/keyed.rs`: the map model of a list of entries with distinct keys, shared
  by the exit map and the registry.
- `src/text.rs`: character classes, UTF-8 length and formatting helpers.
- `app/lib.rs`: serde forms of the value types and `Display`/`Error` impls.
