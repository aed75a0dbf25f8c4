# handterm

The decision logic of a GPU/CPU terminal emulator front end, written in
Verus and proved against its contracts.

- `src/` is the verified library: frame scheduling and synchronized-update
  handling (`timing`), damage tracking and frame signatures (`damage`),
  frame plans and GPU quad flags (`frame_plan`), glyph tiles (`glyph`),
  the CPU frame's paint plan: which damaged cells are repainted, backgrounds
  before images before characters (`cpu_frame`), CPU blending, strokes and
  image blits (`render`, `kitty`, `pane_scroll`), surface configuration
  (`surface`),
  input-method de-duplication (`ime`), synthetic key names
  (`synthetic_key`), base64 (`base64`), the scroll bridge's data and line
  framing (`native_scroll`), shell launch preparation (`pty`), event-loop
  decisions (`host`), and the plain command-line values (`cli`).
- `tests/` runs the library on concrete inputs.
- `app/` holds what the library does not: argument parsing with clap, the
  pseudo terminal and fork/exec with nix, the scroll bridge socket and its
  JSON messages, window-system key conversion, and floating-point smooth
  scrolling.

Time is measured in nanoseconds (`u64`) throughout the library; `app/clock.rs`
maps `Instant`s onto that scale.
