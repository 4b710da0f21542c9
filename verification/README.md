# kaadan

The verified core of the Kaadan game engine, written in Verus.

- `src/` — the library, proved by Verus: generational handles (`handle`),
  typed asset storage and loading (`storage`, `loader`, `loaders`), frame
  timing and pacing (`time`, `frame_pacer`, `clock`), double-buffered events
  (`events`), input action maps and keyboard state (`input`), undo/redo
  history (`commands`), lifecycle state, editor data (`editor`), error
  messages (`error`, `text`) and hex color channels (`color`).
- `tests/` — tests of the library.
- `app/` — the engine around it: the hecs world and scheduler, the
  type-erased resource and asset registries, winit platform loop, rapier
  physics, rodio audio, gesture recognition and floating-point math, and the
  RON scene format.

Not here: the renderer (wgpu), the engine that drives it (`Engine`,
`EngineSetup`, the render frame) and the editor's panels, viewport and
entity commands (egui, renderer and scene crates). They stand on crates
that are not part of this build, and their work is drawing and UI rather
than logic that a contract could state. What the editor keeps is its undo
history (`commands::UndoStack`, over any command type implementing
`EditCommand`) and its plain data (`editor`).
