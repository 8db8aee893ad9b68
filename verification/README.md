# saver_gnats

The verified core of the gnats screensaver.

- `src/` (Verus): grid geometry (`geometry`), painting rules for the terminal
  grid (`canvas`), population targets and resizing (`population`), removal of
  dead fireflies (`cull`), attractor and firefly set-up (`swarm`), logo cell
  layout and excitation (`logo`), and grid-size tracking (`field`).
- `app/`: the screensaver itself; floating-point motion, timing and shading,
  written against a `Host` trait for the runner's services.
- `tests/`: tests of the library.
