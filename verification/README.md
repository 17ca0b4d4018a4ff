# space_engine

The verified core of a voxel and asset game engine.

- `src/` is the library, verified with Verus: every public function states
  what it returns or changes, and the laws that tie functions together are
  public proof functions (`law_*`).
- `tests/` runs the library on concrete values.
- `app/` is the ordinary Rust around it: world-space (floating-point) voxel
  positions, greedy meshing through `block-mesh`, the thread pool that runs
  tasks, shared handles that report on drop, keyboard/mouse state with the
  cursor position, the frame-rate panel and shader text layout in `egui`, and
  the text expansion of the uniform-struct macro.
