# bevy_shooter

The rules of a side-scrolling space shooter, written in Verus and proved
against their contracts, and a small Bevy program that plays them.

## Layout

- `src/` — the verified library.
  - `timer` — nanosecond timers (once and repeating) and lifetimes.
  - `health` — hit points and the score.
  - `state` — menu, game and game-over screens, pause and resume.
  - `enemy` — asteroid kinds, weighted kind draws, difficulty curves,
    spawn pacing (with rescaling when the interval changes), shot pacing,
    hit flashes.
  - `player` — the gun's cooldown, timed power-up effects carried as
    separate values, shot planning, invincibility after a hit.
  - `armory` — the gun with its power-up slots, and the player's
    invincibility status with its blink.
  - `powerup` — drops and what collecting each kind does.
  - `hud` — which power-up lines the display lists and when it refreshes.
  - `combat` — the spatial grid and per-frame cache, contact detection,
    contact resolution, and the one-sweep collision pass with the actions
    it calls for.
- `tests/` — tests of the library on concrete values.
- `app/` — the Bevy program: rendering, input, floating-point geometry and
  the systems that hand the library plain values and carry out its
  answers.

Time in the library is counted in whole nanoseconds; positions and sizes
stay in the program, which tells the library which things overlap.
