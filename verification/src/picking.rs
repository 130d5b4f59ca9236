use vstd::prelude::*;
use crate::cube_grid::{
    cap_max,
    Axis, CubeGrid, CubeGridDims, RangeSelectionState, SelectionMode, has_cell, lemma_index_in_range,
    lists_visible, shows_cell,
};

verus! {

/// A grid cell `(x, y, z)`.
pub type Cell = (usize, usize, usize);

/// Current hover target in grid coordinates.
#[derive(Clone, Copy, Debug)]
pub struct PickingState {
    pub hovered_cube: Option<Cell>,
}

/// Nothing is hovered at startup.
impl Default for PickingState {
    fn default() -> (p: Self)
        ensures
            p.hovered_cube is None,
    {
        PickingState { hovered_cube: None }
    }
}

/// Whether the grid cell passes the filter's box and its value filter.
pub fn is_visible(x: usize, y: usize, z: usize, state: &RangeSelectionState, grid: &CubeGrid) -> (b: bool)
    requires
        grid.wf(),
        grid.in_bounds(x as int, y as int, z as int),
    ensures
        b == shows_cell(grid, *state, x as int, y as int, z as int),
{
    let in_range = match state.mode {
        SelectionMode::Section => {
            (state.x_slider == 0 || x == (state.x_slider - 1) as usize)
            && (state.y_slider == 0 || y == (state.y_slider - 1) as usize)
            && (state.z_slider == 0 || z == (state.z_slider - 1) as usize)
        },
        SelectionMode::Range => {
            let x_lo = state.x_min.saturating_sub(1) as usize;
            let x_hi = cap_max(state.x_max, grid.dims.x).saturating_sub(1) as usize;
            let y_lo = state.y_min.saturating_sub(1) as usize;
            let y_hi = cap_max(state.y_max, grid.dims.y).saturating_sub(1) as usize;
            let z_lo = state.z_min.saturating_sub(1) as usize;
            let z_hi = cap_max(state.z_max, grid.dims.z).saturating_sub(1) as usize;
            x >= x_lo && x <= x_hi && y >= y_lo && y <= y_hi && z >= z_lo && z <= z_hi
        },
    };
    if !in_range {
        return false;
    }
    proof {
        lemma_index_in_range(grid, x as int, y as int, z as int);
    }
    if state.only_failbit && grid.get(x, y, z) != 1 {
        return false;
    }
    true
}

/// Hover picking and drawing agree: a cell inside the grid is reported visible to
/// the picker exactly when the drawn list contains it.
pub proof fn lemma_picking_matches_drawing(
    grid: &CubeGrid,
    state: RangeSelectionState,
    drawn: Seq<crate::cube_grid::CellInstance>,
    x: int,
    y: int,
    z: int,
)
    requires
        lists_visible(drawn, grid, state),
        grid.in_bounds(x, y, z),
    ensures
        shows_cell(grid, state, x, y, z) <==> has_cell(drawn, x, y, z),
{
    if has_cell(drawn, x, y, z) {
        let i = choose|i: int| 0 <= i < drawn.len() && #[trigger] drawn[i].x == x && drawn[i].y == y && drawn[i].z == z;
        assert(shows_cell(grid, state, drawn[i].x as int, drawn[i].y as int, drawn[i].z as int));
    }
}

/// Grid cell of rounded grid-space coordinates, when they fall inside the grid
/// (the integer half of converting a world position to a cell).
pub open spec fn rounded_cell(dims: CubeGridDims, gx: isize, gy: isize, gz: isize) -> Option<Cell> {
    if gx >= 0 && gx < dims.x as isize && gy >= 0 && gy < dims.y as isize && gz >= 0 && gz < dims.z as isize {
        Some((gx as usize, gy as usize, gz as usize))
    } else {
        None
    }
}

/// The cell at rounded grid-space coordinates `(gx, gy, gz)`, or `None` outside the grid.
pub fn cell_of_rounded(dims: CubeGridDims, gx: isize, gy: isize, gz: isize) -> (c: Option<Cell>)
    ensures
        c == rounded_cell(dims, gx, gy, gz),
{
    if gx >= 0 && gx < dims.x as isize && gy >= 0 && gy < dims.y as isize && gz >= 0 && gz < dims.z as isize {
        Some((gx as usize, gy as usize, gz as usize))
    } else {
        None
    }
}

/// Step directions of a ray along grid x, y and z: `true` is towards larger indices.
pub type StepDirs = (bool, bool, bool);

/// The neighbour of `c` one step along `axis` in the ray's direction, or `None`
/// when the step would leave the grid.
pub open spec fn step_cell(dims: CubeGridDims, c: Cell, axis: Axis, dirs: StepDirs) -> Option<Cell> {
    match axis {
        Axis::X => if dirs.0 {
            if c.0 + 1 >= dims.x { None } else { Some(((c.0 + 1) as usize, c.1, c.2)) }
        } else {
            if c.0 == 0 { None } else { Some(((c.0 - 1) as usize, c.1, c.2)) }
        },
        Axis::Y => if dirs.1 {
            if c.1 + 1 >= dims.y { None } else { Some((c.0, (c.1 + 1) as usize, c.2)) }
        } else {
            if c.1 == 0 { None } else { Some((c.0, (c.1 - 1) as usize, c.2)) }
        },
        Axis::Z => if dirs.2 {
            if c.2 + 1 >= dims.z { None } else { Some((c.0, c.1, (c.2 + 1) as usize)) }
        } else {
            if c.2 == 0 { None } else { Some((c.0, c.1, (c.2 - 1) as usize)) }
        },
    }
}

/// The `k`-th cell of the walk from `start` that takes the steps `moves`, or
/// `None` once the walk has left the grid.
pub open spec fn path_cell(dims: CubeGridDims, start: Cell, moves: Seq<Axis>, dirs: StepDirs, k: nat) -> Option<Cell>
    decreases k,
{
    if k == 0 {
        Some(start)
    } else {
        match path_cell(dims, start, moves, dirs, (k - 1) as nat) {
            None => None,
            Some(c) => step_cell(dims, c, moves[k - 1], dirs),
        }
    }
}

/// The first cell of the walk, from its `k`-th cell on, that the filter shows;
/// `None` when the walk leaves the grid or runs out of steps first.
pub open spec fn first_shown_from(
    grid: &CubeGrid,
    state: RangeSelectionState,
    start: Cell,
    moves: Seq<Axis>,
    dirs: StepDirs,
    k: nat,
) -> Option<Cell>
    decreases moves.len() + 1 - k,
{
    if k > moves.len() {
        None
    } else {
        match path_cell(grid.dims, start, moves, dirs, k) {
            None => None,
            Some(c) => if shows_cell(grid, state, c.0 as int, c.1 as int, c.2 as int) {
                Some(c)
            } else {
                first_shown_from(grid, state, start, moves, dirs, k + 1)
            },
        }
    }
}

/// What the walk reports is a shown cell that the walk reaches, and every cell
/// the walk passes before it is hidden by the filter.
pub proof fn lemma_first_shown_is_first(
    grid: &CubeGrid,
    state: RangeSelectionState,
    start: Cell,
    moves: Seq<Axis>,
    dirs: StepDirs,
    k: nat,
)
    ensures
        first_shown_from(grid, state, start, moves, dirs, k) matches Some(c) ==> {
            &&& shows_cell(grid, state, c.0 as int, c.1 as int, c.2 as int)
            &&& exists|j: nat| #![trigger path_cell(grid.dims, start, moves, dirs, j)]
                k <= j <= moves.len() && path_cell(grid.dims, start, moves, dirs, j) == Some(c)
                && forall|i: nat| #![trigger path_cell(grid.dims, start, moves, dirs, i)]
                    k <= i < j ==> (path_cell(grid.dims, start, moves, dirs, i) matches Some(d)
                        && !shows_cell(grid, state, d.0 as int, d.1 as int, d.2 as int))
        },
    decreases moves.len() + 1 - k,
{
    if k <= moves.len() {
        match path_cell(grid.dims, start, moves, dirs, k) {
            None => {},
            Some(c) => {
                if !shows_cell(grid, state, c.0 as int, c.1 as int, c.2 as int) {
                    lemma_first_shown_is_first(grid, state, start, moves, dirs, k + 1);
                    if let Some(r) = first_shown_from(grid, state, start, moves, dirs, k + 1) {
                        let j = choose|j: nat| #![trigger path_cell(grid.dims, start, moves, dirs, j)]
                            k + 1 <= j <= moves.len() && path_cell(grid.dims, start, moves, dirs, j) == Some(r)
                            && forall|i: nat| #![trigger path_cell(grid.dims, start, moves, dirs, i)]
                                k + 1 <= i < j ==> (path_cell(grid.dims, start, moves, dirs, i) matches Some(d)
                                    && !shows_cell(grid, state, d.0 as int, d.1 as int, d.2 as int));
                        assert(path_cell(grid.dims, start, moves, dirs, j) == Some(r));
                    }
                } else {
                    assert(path_cell(grid.dims, start, moves, dirs, k) == Some(c));
                }
            },
        }
    }
}

/// A forward step along `axis` can add one to the coordinate in machine arithmetic.
pub open spec fn step_fits(c: Cell, axis: Axis, dirs: StepDirs) -> bool {
    match axis {
        Axis::X => dirs.0 ==> c.0 < usize::MAX,
        Axis::Y => dirs.1 ==> c.1 < usize::MAX,
        Axis::Z => dirs.2 ==> c.2 < usize::MAX,
    }
}

/// The coordinate of `c` along `axis`.
pub open spec fn coord(c: Cell, axis: Axis) -> int {
    match axis {
        Axis::X => c.0 as int,
        Axis::Y => c.1 as int,
        Axis::Z => c.2 as int,
    }
}

/// Whether the ray steps towards larger indices along `axis`.
pub open spec fn forward_along(dirs: StepDirs, axis: Axis) -> bool {
    match axis {
        Axis::X => dirs.0,
        Axis::Y => dirs.1,
        Axis::Z => dirs.2,
    }
}

/// A step of the walk from a cell of the grid moves exactly one cell along its
/// axis: one index up when the ray's direction along that axis is forward, one
/// down otherwise, with the other two coordinates unchanged, and the result is
/// again a cell of the grid. It ends the walk exactly when it would leave the
/// grid: going forward from the last index, or backward from index 0.
pub proof fn lemma_step_moves_one_cell(dims: CubeGridDims, c: Cell, axis: Axis, dirs: StepDirs)
    requires
        c.0 < dims.x && c.1 < dims.y && c.2 < dims.z,
    ensures
        step_cell(dims, c, axis, dirs) is None <==> (if forward_along(dirs, axis) {
            coord(c, axis) + 1 == dims.along(axis)
        } else {
            coord(c, axis) == 0
        }),
        step_cell(dims, c, axis, dirs) matches Some(n) ==> {
            &&& coord(n, axis) == coord(c, axis) + (if forward_along(dirs, axis) { 1int } else { -1int })
            &&& forall|b: Axis| b != axis ==> coord(n, b) == coord(c, b)
            &&& n.0 < dims.x && n.1 < dims.y && n.2 < dims.z
        },
{
}

/// One step of the grid walk: the neighbour along `axis`, or `None` at the border.
pub fn dda_step(dims: CubeGridDims, c: Cell, axis: Axis, dirs: StepDirs) -> (r: Option<Cell>)
    requires
        step_fits(c, axis, dirs),
    ensures
        r == step_cell(dims, c, axis, dirs),
{
    match axis {
        Axis::X => if dirs.0 {
            if c.0 + 1 >= dims.x { None } else { Some((c.0 + 1, c.1, c.2)) }
        } else {
            if c.0 == 0 { None } else { Some((c.0 - 1, c.1, c.2)) }
        },
        Axis::Y => if dirs.1 {
            if c.1 + 1 >= dims.y { None } else { Some((c.0, c.1 + 1, c.2)) }
        } else {
            if c.1 == 0 { None } else { Some((c.0, c.1 - 1, c.2)) }
        },
        Axis::Z => if dirs.2 {
            if c.2 + 1 >= dims.z { None } else { Some((c.0, c.1, c.2 + 1)) }
        } else {
            if c.2 == 0 { None } else { Some((c.0, c.1, c.2 - 1)) }
        },
    }
}

/// A walk that starts inside the grid stays inside it.
proof fn lemma_path_in_bounds(grid: &CubeGrid, start: Cell, moves: Seq<Axis>, dirs: StepDirs, k: nat)
    requires
        grid.in_bounds(start.0 as int, start.1 as int, start.2 as int),
    ensures
        path_cell(grid.dims, start, moves, dirs, k) matches Some(c) ==> grid.in_bounds(c.0 as int, c.1 as int, c.2 as int),
    decreases k,
{
    if k > 0 {
        lemma_path_in_bounds(grid, start, moves, dirs, (k - 1) as nat);
    }
}

/// Grid traversal of a picking ray: starting at the cell where the ray enters the
/// grid, visit the cells reached by the steps `moves` (one grid axis per step, in
/// the directions `dirs`) and return the first one the filter shows. The walk
/// ends with `None` when it leaves the grid or runs out of steps.
pub fn first_visible_on_path(
    grid: &CubeGrid,
    state: &RangeSelectionState,
    start: Cell,
    moves: &Vec<Axis>,
    dirs: StepDirs,
) -> (r: Option<Cell>)
    requires
        grid.wf(),
        grid.in_bounds(start.0 as int, start.1 as int, start.2 as int),
    ensures
        r == first_shown_from(grid, *state, start, moves@, dirs, 0),
{
    let mut cur = start;
    let mut i: usize = 0;
    loop
        invariant
            grid.wf(),
            grid.in_bounds(start.0 as int, start.1 as int, start.2 as int),
            i <= moves.len(),
            path_cell(grid.dims, start, moves@, dirs, i as nat) == Some(cur),
            first_shown_from(grid, *state, start, moves@, dirs, 0) == first_shown_from(
                grid,
                *state,
                start,
                moves@,
                dirs,
                i as nat,
            ),
        decreases moves.len() - i,
    {
        proof {
            lemma_path_in_bounds(grid, start, moves@, dirs, i as nat);
        }
        if is_visible(cur.0, cur.1, cur.2, state, grid) {
            return Some(cur);
        }
        if i == moves.len() {
            return None;
        }
        match dda_step(grid.dims, cur, moves[i], dirs) {
            None => {
                proof {
                    assert(path_cell(grid.dims, start, moves@, dirs, (i + 1) as nat) is None);
                    assert(first_shown_from(grid, *state, start, moves@, dirs, (i + 1) as nat) is None);
                }
                return None;
            },
            Some(next) => {
                cur = next;
            },
        }
        i = i + 1;
    }
}

} // verus!
