# d_duel

A deterministic, turn-based duel engine, verified with Verus.

- `src/lib.rs`: the first form of the engine (spawn, end turn, attack) and its laws.
- `src/entity_manager.rs`, `src/combat_system.rs`, `src/map.rs`, `src/game_state.rs`,
  `src/errors.rs`: the grid engine; `GameState::step` validates an action, charges its
  cost, turns it into events and resolves them, with an exact contract.
- `src/rng.rs`, `src/engine/`: seeded generators over `rand_chacha`'s ChaCha8 stream.
- `src/demo.rs`: the duel set-up, the AI that picks actions, and the end test.
- `app/main.rs`: the demo program that plays the duel and prints it.
