# fistforce

The client-side game logic of FistForce, a multiplayer sandbox shooter,
written in Verus: every function of `src/` carries a contract that Verus
proves.

## Layout

- `src/` — the verified library, one module per area:
  - `game_state`, `connection`, `main_menu`, `name_entry`, `pause_menu`:
    screens and their transitions, the server address field and presets,
    name validation, graphics toggles;
  - `input`, `weapons`, `weapon_view`, `crosshair`: key and mouse input,
    the message sent to the server each tick, shooting and reloading,
    the weapon HUD and models;
  - `inventory`, `pickup`, `build_mode`, `visuals`: drag and drop between
    inventory and chest, nearest ground item, building selection and
    placement, visuals mirroring replicated entities;
  - `chunks`: the streamed terrain chunks and the props and structures
    that follow them;
  - `audio`: sound limits, loops and remote emitters;
  - `player`, `npc`: the character animation state machines;
  - `mesh`: index buffers of the procedural meshes;
  - `items`, `text`: item names, decimal rendering, trimming.
- `tests/` — tests of the library on concrete values.
- `app/` — the Bevy client around the library: rendering, audio playback,
  networking, file reading and the float computations (look angles,
  recoil, distances, animation blending) whose results it hands to the
  library as plain values.
