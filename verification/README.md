# celeste

The rules of a small Celeste-like platformer, verified with Verus, and the
Bevy game that runs them.

- `src/` is the verified library:
  - `level` — the map model (rooms, spawn points, collisions, exits, springs)
    and its lookups; `geometry` holds map numbers as `f32` bit patterns.
  - `validation` — the check a map must pass before it is saved, with the
    first fault named.
  - `editor` — every edit the map editor makes (add, move, delete, retarget
    exits, turn springs, normalise tileset tags, pick under the cursor) and
    the editor's own state, with proofs that edits keep a savable map
    savable.
  - `tileset`, `tiles` — tileset names and legacy aliases, solid cells,
    ground-tile choice and hazard orientation.
  - `player`, `animation`, `gameplay` — the player's state machine, input
    axes, animation choice and frames, the death sequence, room transitions
    and respawn points.
  - `menu`, `paths`, `text`, `search` — menu commands, chapter ordering, map
    paths, and the string and search helpers the rest is built on.
- `tests/` runs the library on concrete maps and inputs.
- `app/` is the game: windowing, input, floating-point physics, drawing, and
  reading and writing map files as JSON.
