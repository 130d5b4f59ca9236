use vstd::prelude::*;
use crate::cube_grid::{
    cap_max,
    Axis, CubeGrid, CubeGridDims, RangeSelectionState, SelectionMode, has_cell, lists_visible,
};

verus! {

/// Whether guide lines are visible.
#[derive(Clone, Copy, Debug)]
pub struct ShowGuideLine(pub bool);

/// Guide lines are on at startup.
impl Default for ShowGuideLine {
    fn default() -> (s: Self)
        ensures
            s.0,
    {
        ShowGuideLine(true)
    }
}

/// Number of cubes along `axis`.
pub fn dim_for_axis(dims: CubeGridDims, axis: Axis) -> (d: usize)
    ensures
        d == dims.along(axis),
{
    match axis {
        Axis::X => dims.x,
        Axis::Y => dims.y,
        Axis::Z => dims.z,
    }
}

/// The Section-mode slider of `axis`.
pub fn slider_for_axis(state: &RangeSelectionState, axis: Axis) -> (v: u32)
    ensures
        v == state.slider_of(axis),
{
    match axis {
        Axis::X => state.x_slider,
        Axis::Y => state.y_slider,
        Axis::Z => state.z_slider,
    }
}

/// The Range-mode `(min, max)` of `axis`.
pub fn range_for_axis(state: &RangeSelectionState, axis: Axis) -> (r: (u32, u32))
    ensures
        r == (state.min_of(axis), state.max_of(axis)),
{
    match axis {
        Axis::X => (state.x_min, state.x_max),
        Axis::Y => (state.y_min, state.y_max),
        Axis::Z => (state.z_min, state.z_max),
    }
}

/// First and last visible grid index along `axis`; the guide lines are drawn
/// just outside this range.
pub fn visible_range(state: &RangeSelectionState, axis: Axis, dims: CubeGridDims) -> (r: (usize, usize))
    requires
        state.mode == SelectionMode::Section && state.slider_of(axis) == 0 ==> dims.along(axis) >= 1,
    ensures
        r.0 == state.lo(axis),
        r.1 == state.hi(axis, dims),
{
    match state.mode {
        SelectionMode::Section => {
            let dim = dim_for_axis(dims, axis);
            let slider = slider_for_axis(state, axis);
            if slider == 0 {
                (0, dim - 1)
            } else {
                let v = (slider - 1) as usize;
                (v, v)
            }
        },
        SelectionMode::Range => {
            let dim = dim_for_axis(dims, axis);
            let (min, max) = range_for_axis(state, axis);
            let lo = min.saturating_sub(1) as usize;
            let hi = cap_max(max, dim).saturating_sub(1) as usize;
            (lo, hi)
        },
    }
}

/// The guide-line range frames the drawn cubes: every drawn cube lies within
/// the range on each axis, and with the value filter off and a consistent filter
/// the cubes at both corners of the range are drawn.
pub proof fn lemma_guide_range_frames_drawn_cubes(
    grid: &CubeGrid,
    state: RangeSelectionState,
    drawn: Seq<crate::cube_grid::CellInstance>,
)
    requires
        grid.wf(),
        lists_visible(drawn, grid, state),
    ensures
        forall|i: int| 0 <= i < drawn.len() ==> {
            &&& state.lo(Axis::X) <= #[trigger] drawn[i].x <= state.hi(Axis::X, grid.dims)
            &&& state.lo(Axis::Y) <= drawn[i].y <= state.hi(Axis::Y, grid.dims)
            &&& state.lo(Axis::Z) <= drawn[i].z <= state.hi(Axis::Z, grid.dims)
        },
        state.wf(grid.dims) && !state.only_failbit ==> has_cell(
            drawn,
            state.lo(Axis::X),
            state.lo(Axis::Y),
            state.lo(Axis::Z),
        ) && has_cell(drawn, state.hi(Axis::X, grid.dims), state.hi(Axis::Y, grid.dims), state.hi(Axis::Z, grid.dims)),
{
    assert forall|i: int| 0 <= i < drawn.len() implies {
        &&& state.lo(Axis::X) <= #[trigger] drawn[i].x <= state.hi(Axis::X, grid.dims)
        &&& state.lo(Axis::Y) <= drawn[i].y <= state.hi(Axis::Y, grid.dims)
        &&& state.lo(Axis::Z) <= drawn[i].z <= state.hi(Axis::Z, grid.dims)
    } by {
        assert(crate::cube_grid::shows_cell(grid, state, drawn[i].x as int, drawn[i].y as int, drawn[i].z as int));
    }
    if state.wf(grid.dims) && !state.only_failbit {
        crate::cube_grid::lemma_wf_shows_nonempty_box(state, grid.dims);
        assert(crate::cube_grid::shows_cell(grid, state, state.lo(Axis::X), state.lo(Axis::Y), state.lo(Axis::Z)));
        assert(crate::cube_grid::shows_cell(
            grid,
            state,
            state.hi(Axis::X, grid.dims),
            state.hi(Axis::Y, grid.dims),
            state.hi(Axis::Z, grid.dims),
        ));
    }
}

} // verus!
