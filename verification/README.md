# shader_quad

A small 2D renderer: a full-window quad drawn by a custom material shader, and
a colored-mesh render pass that draws a vertex-colored star.

- `src/` is the verified library (Verus):
  - `mesh2d_key`: the bit layout of the 2D mesh pipeline key (sample count,
    topology, HDR flag) with its round-trip laws.
  - `colored_mesh2d`: what a key selects (`specialize`) and the fixed pipeline
    settings (`colored_pipeline_state`), the packed vertex buffer layout
    (`vertex_buffer_layout`), which draws the
    colored-mesh pass queues (`queue_colored_mesh2d`), which entities it
    extracts (`extract_colored_mesh2d`), the star mesh description (`star`).
  - `window`: the position reported for a window's placement.
- `app/` is the engine glue (bevy systems, plugins, spawning, input, exit).
- `tests/` runs the library on concrete values.
