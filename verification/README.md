# rustaclysm_core

The gameplay rules of a 3D roguelike in the world of Cataclysm: Dark Days
Ahead, written in Verus and verified against their contracts.

- `src/` is the verified library: the player's instruction queues and the
  state machine of the player's actions, focus and examining, the
  neighbourhood, stairs and movement rules of the world, route planning
  (around the A* search of the `pathfinding` crate), line of sight, the
  message log, timeouts, the bookkeeping of loaded map parts, what the
  spawned characters, terrain, furniture and items start with, the crafting
  and inventory rules and their texts, the details of examined positions,
  the resolution of the game data (ids, aliases, "copy-from" inheritance and
  migrations), the expansion of crafting requirements into items, and the
  names under which the look of an object is searched.
- `tests/` runs the library on concrete cases.
- `app/` holds what the library leaves out: reading the data files from disk
  (`glob`, `serde_json`), terminal output, and the light and viewing
  distance, which need floating point.
