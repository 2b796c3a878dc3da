# blackhole

A Schwarzschild black-hole viewer with a verified core.

- `src/controls.rs` — the viewer's input state machine: pause, left-drag
  orbiting, ray-march step selection (kept within 100..=900 in steps of 50),
  reset and quit. `ViewerControls::handle` maps each input event to the
  action the window loop carries out; its contract and the laws beside it are
  proved with Verus.
- `src/frame.rs` — the RGB frame buffer of the headless reference renderer
  and its binary PPM (`P6`) encoding, with proofs that pixels read back, do
  not overlap, and that the header spells the frame's size.
- `app/` — the program: window and GL context (winit, glutin, glow), the
  orbit camera, the floating-point geodesic ray tracer and the headless
  validation mode (`blackhole verify [out.ppm]`).
