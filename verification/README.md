# BangBang

A small top-down western: walk a tile map, talk to NPCs through branching dialogue that reads
and writes story state, pass through doors gated by that state, and use weapons and drinks
from a backpack. The game's rules are a library verified with Verus; the window, the GPU
renderer and the file loading are an ordinary Rust binary around it.

## Layout

- `src/` — the verified library (`bangbang`):
  - `state/` story state and quests, keyboard input, door decisions, the game-mode machine
    (overworld, dialogue with its typewriter reveal, backpack frames);
  - `dialogue/` conversation trees, condition and effect strings, entry and advance;
  - `skills/` skill definitions and their validation, the registry, the backpack (weapon
    ordering, normalising, cycling) and applying effects to hit points;
  - `ecs/` the components the rules read and the `hecs` world as the rules see it;
  - `map.rs`, `map_loader.rs`, `render.rs` the tile grid, collision, sparse/matrix tile data,
    Wang autotiling and sprite-frame choice;
  - `assets.rs`, `atlas.rs`, `software.rs`, `ui/` sprite-sheet grids, image decoding, asset
    id resolution, glyph-atlas packing, pixel drawing, theme sizes and UI layout;
  - `config.rs`, `scene/`, `save_game.rs`, `cache.rs`, `text.rs`.
- `app/` — the binary: JSON content loading, the floating-point world (positions, movement,
  distances), the winit event loop and the wgpu renderer.
- `tests/` — tests of the library.

Content is read from `assets/` in the working directory (or `BANGBANG_ASSETS`).
