# toki-core

The engine core of the toki 2D game engine, written in Verus: indexed
palettes and image recolouring, the pause menu state machine, input state,
asset packs, project asset naming and discovery order, runtime settings,
and the integer game logic of rules, projectiles, pickups, tile
transitions and sprite requests.

## Layout

- `src/` — the verified library. Every public function carries a contract
  over a mathematical model of its data; the `law_*` proof functions state
  properties that relate several functions.
  - `palette.rs` — palette sizes, canonical shades, validation and
    recolouring of indexed images, built-in palettes, palette expansion.
  - `indexed_presentation.rs` — which palette an indexed image is drawn
    with, and its cache key.
  - `menu.rs` — pause menu screens, navigation and rendered views.
  - `input.rs` — keys and actions held globally and per movement profile,
    edge-triggered actions.
  - `pack.rs` — pack manifests, asset classification, compression and
    content hashing (zstd and BLAKE3 are called through small trusted
    wrappers).
  - `project_assets.rs`, `paths.rs` — where a project keeps its files, and
    which files count as scenes, JSON or audio assets, in which order.
  - `project_runtime.rs` — runtime settings and their defaults, viewport
    modes.
  - `order.rs` — lexicographic order and a verified sort by key.
  - `image.rs`, `text.rs` — decoded images, and the string helpers the
    contracts are stated with.
  - `rules.rs` — rule actions and the commands they are buffered as.
  - `rule_commands.rs` — applying a frame's buffered commands.
  - `tile_rules.rs` — tile transitions of entities, and the rules they
    fire, ranked by priority and id.
  - `combat.rs` — spawning projectiles, what they strike, and each tick
    of their flight.
  - `interaction.rs` — which pickups are collected by whom.
  - `render_queries.rs` — the sprites asked of the renderer.
  - `animation.rs` — facing and directional animation clips.
  - `movement.rs` — the direction held keys point, and what a tick of
    controlled movement decides for moves, clips and the player.
  - `stat_effects.rs` — capped heals, inventory removals, teleports, and
    the damage and death events of applied stat changes.
- `app/` — file I/O, the serde forms of the settings, and the
  floating-point coordinate helpers.
- `tests/` — tests of the library on concrete values.
