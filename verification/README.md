# cave-runner

The rules of a small cave-running game, verified with Verus.

- `src/difficulty.rs`: the difficulty progression when the player reaches the
  goal sensor, the cool-down that lets one goal count per frame, and the
  difficulty labels.
- `src/verts.rs`: the rolling buffer of cave wall points (two sections of four).
- `src/mesh.rs`: the wall quads built from the newest points, their triangle
  indices, and the bounded list of cave entities, oldest evicted first.
- `src/grapple.rs`: the grappling hook's state and the rope anchor lookup.
- `src/noise_seed.rs`: the random seed and noise table that steer the cave.
- `app/`: the game itself (window, ECS systems, physics, float geometry),
  which drives the library.
