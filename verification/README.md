# dash_viewer

The verified core of a Gaussian-splatting viewer that plays trained DASH
(dynamic scene) models and loads 3DGS / Space-Time Gaussian Lite PLY files.

- `src/ply.rs` — the PLY loader: header grammar, payload classification,
  property lookup and the binary little-endian vertex records, with an exact
  specification (`ply_spec`) of what a file yields or why it is refused.
- `src/dash.rs` — the client side of the sidecar protocol: configuration,
  request and response framing, and the checks on what the sidecar reports.
  Configured paths are held as the bytes the operating system names them by,
  so a path that is not UTF-8 is kept as it is.
- `src/viewer.rs` — camera keys and key events, redraw decisions, what a
  dropped file is taken for, what to do with the surface before a frame, the
  surface format, the radix sort's buffer alternation, the tile-clearing
  dispatch and the `--dash-model` argument.
- `src/bake.rs` — the headless bake's command line, frame count, frame file
  names and manifest.
- `src/text.rs`, `src/bytes.rs` — characters, words, lines and decimal numbers;
  little-endian integers.
- `app/` — process spawning, TCP, environment, JSON, files, the floating-point
  Gaussians, camera, camera fit and scene uniform, the viewer's winit window
  loop and the bake's driver. Paths are handed to the library as Unix
  OS-string bytes.

Not in this crate: the GPU renderer (the Gaussian buffers, the preprocess,
duplicate, tile and blit passes and their WGSL shaders) and the Python
sidecar. The window loop takes the renderer as a `Renderer` and the bake as a
`FrameRenderer`; what they decide is the library's (`ViewState`, `key_event`,
`dropped_file_action`, `surface_action`, `choose_surface_format`,
`radix_pass_buffers`, `tile_clear_workgroups`, `bake_args`).
