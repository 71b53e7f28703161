# game_engine

A small 2D platformer engine. The library in `src/` is verified with Verus
and holds the engine's deterministic core:

- `input`: which movement keys are held, and the per-step decisions
  (direction, friction, jump) drawn from them;
- `clock`: the fixed-timestep accumulator (60 steps per second, frames cut
  at 250 ms) with its proofs that the simulation runs at the fixed rate;
- `surface`: the surface size, never zero, ignoring minimised windows, and
  the recovery taken for each outcome of acquiring a frame;
- `map`: the text map format ('0' empty, '#' wall, 'P' spawn).

`app/` is the program around it: the winit window and event loop, wgpu
rendering, and the floating-point physics, camera and collision code.
