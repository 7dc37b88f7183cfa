# yamengine

The core of a small ECS game engine for 2D scenes with very many units,
written in Verus and proved against its contracts.

- `src/` is the verified library: nanosecond clock arithmetic, the timers
  (fixed-rate pulses, stopwatches, frame statistics with running averages and
  integer standard deviations), packed colours and geometry descriptors, the
  keyboard and mouse state machines, the planning of the instances the GPU
  draws, and the bookkeeping of applications (update layers and stages, their
  clocks, and the requests systems make of the application).
- `tests/` exercises the library on concrete values.
- `app/` is the runtime around it: reading the clock, the window and its
  events (winit), scheduling systems (legion), rendering (wgpu), the
  float-valued components (nalgebra) and the text forms of the timers.
