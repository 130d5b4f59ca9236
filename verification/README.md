# cube_viewer

A viewer for a 3D grid of cubes (64 x 1024 x 16 by default: 64 wide, 1024 deep, 16 high). Each cube holds a
byte: 0 is drawn white, 1 red (a "fail bit"), 2 gray. Sliders cut the grid down to
a single layer per axis (Section mode) or to an interval per axis (Range mode), a
checkbox keeps only the red cubes, the camera orbits the grid or looks at it
along an axis, and the cube under the mouse is picked by walking the grid along
the mouse ray.

## Layout

- `src/` is the library, verified with Verus:
  - `cube_grid.rs`: the grid, its index arithmetic, the filter state, and the list
    of drawn cubes with its characterization (`visible_list`, `lists_visible`).
  - `ui.rs`: slider, mode button, checkbox, view button and ESC handling, and the
    cube counter.
  - `camera.rs`: view modes, the visible box the camera turns around, and the
    per-frame camera decisions.
  - `picking.rs`: visibility of a cell and the walk along a picking ray.
  - `guide_line.rs`: the visible range per axis that the guide lines frame.
  - `cube_material.rs`: the hover words sent to the shader.
  - `random.rs`, `shared_state.rs`: the trusted declarations for `rand` and
    `std::sync::Mutex`.
- `tests/` runs the library on concrete grids.
- `app/` is the Bevy program: rendering, widgets, and the float
  geometry (world positions, ray casting, camera motion).
