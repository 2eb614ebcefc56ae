# bomberman

The rules of a small Bomberman game, written and proved with Verus, and a bevy application
that runs them.

- `src/` is the library. Every function carries a contract that Verus proves: the tile map
  and its generation, bombs and chained explosions, timers, controls, animations, enemy
  decisions, deaths, power-ups, the level clock and the sound schedule. The few calls into
  `bevy` (its `Timer`) and `rand` (shuffling and random draws) sit behind trusted wrappers in
  `src/timer.rs` and `src/rng.rs`, whose doc comments say what is assumed of them.
- `tests/` runs the library on concrete maps and values.
- `app/` is the bevy application: components and systems that hold the library's values, the
  keyboard, and the `f32` geometry of units moving between tiles.

Time is counted in whole nanoseconds throughout the library.
