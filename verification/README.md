# planets

The bookkeeping of a 2D gravity sandbox, verified with Verus.

- `src/state.rs`: the registry of bodies and their trails under ids handed
  out by a counter that only grows, the display switches, and the reaction
  to keys and mouse buttons.
- `src/collision.rs`: the per-frame pass over all pairs of bodies that
  decides which pairs merge, attract or are skipped.
- `src/input.rs`: keys, mouse buttons and the mouse state.
- `src/counting.rs`: the trail node total and the spawn order of a square of
  bodies.
- `src/laws.rs`: properties that relate several operations.
- `app/`: the ggez window, the event loop and the floating-point physics.
