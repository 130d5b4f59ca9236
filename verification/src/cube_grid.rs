use vstd::prelude::*;
use crate::random::{gen_range_u8, thread_rng};
use vstd::arithmetic::div_mod::lemma_fundamental_div_mod_converse;

verus! {

/// Default number of cubes along grid X.
pub const DIM_X: usize = 64;
/// Default number of cubes along grid Y (depth).
pub const DIM_Y: usize = 1024;
/// Default number of cubes along grid Z (up/down).
pub const DIM_Z: usize = 16;

/// Grid dimensions: number of cubes along each grid axis.
#[derive(Clone, Copy, Debug)]
pub struct CubeGridDims {
    pub x: usize,
    pub y: usize,
    pub z: usize,
}

impl CubeGridDims {
    /// Number of cells in the grid, as a mathematical integer.
    pub open spec fn cells(self) -> int {
        self.x * self.y * self.z
    }

    /// Total number of cubes. The product is taken left to right, so the
    /// partial product `x * y` must fit as well.
    pub fn total(self) -> (n: usize)
        requires
            self.x * self.y <= usize::MAX,
            self.cells() <= usize::MAX,
        ensures
            n == self.cells(),
    {
        self.x * self.y * self.z
    }
}

/// Flat array of cube values, one byte per cube: 0 = white, 1 = red, 2 = gray.
/// The cube at grid coordinates `(x, y, z)` is stored at `x + y * dims.x + z * dims.x * dims.y`.
#[derive(Clone, Debug)]
pub struct CubeGrid {
    pub dims: CubeGridDims,
    pub data: Vec<u8>,
}

impl CubeGrid {
    /// The data array holds exactly one value per cell, and the cell count can
    /// be computed in machine arithmetic.
    pub open spec fn wf(&self) -> bool {
        &&& self.dims.x * self.dims.y <= usize::MAX
        &&& self.data.len() == self.dims.cells()
    }

    /// Whether `(x, y, z)` names a cell of the grid.
    pub open spec fn in_bounds(&self, x: int, y: int, z: int) -> bool {
        &&& 0 <= x < self.dims.x
        &&& 0 <= y < self.dims.y
        &&& 0 <= z < self.dims.z
    }

    /// Linear position of `(x, y, z)` in `data`.
    pub open spec fn index_of(&self, x: int, y: int, z: int) -> int {
        x + y * self.dims.x + z * self.dims.x * self.dims.y
    }

    /// The machine arithmetic of `index` does not overflow on `(x, y, z)`.
    pub open spec fn index_fits(&self, x: int, y: int, z: int) -> bool {
        &&& z * self.dims.x <= usize::MAX
        &&& self.index_of(x, y, z) <= usize::MAX
    }

    /// Value stored for `(x, y, z)`.
    pub open spec fn value_at(&self, x: int, y: int, z: int) -> u8 {
        self.data@[self.index_of(x, y, z)]
    }

    /// Linear index of the cube at `(x, y, z)`.
    pub fn index(&self, x: usize, y: usize, z: usize) -> (i: usize)
        requires
            self.index_fits(x as int, y as int, z as int),
        ensures
            i == self.index_of(x as int, y as int, z as int),
    {
        let dx = self.dims.x;
        let dy = self.dims.y;
        proof {
            assert(y * dx >= 0) by (nonlinear_arith);
            assert(z * dx >= 0) by (nonlinear_arith);
            assert(z * dx * dy >= 0) by (nonlinear_arith);
        }
        x + y * dx + z * dx * dy
    }

    /// Value of the cube at `(x, y, z)`.
    pub fn get(&self, x: usize, y: usize, z: usize) -> (v: u8)
        requires
            self.index_fits(x as int, y as int, z as int),
            self.index_of(x as int, y as int, z as int) < self.data.len(),
        ensures
            v == self.value_at(x as int, y as int, z as int),
    {
        self.data[self.index(x, y, z)]
    }

    /// Overwrites the value of the cube at `(x, y, z)`; every other cell keeps its value.
    pub fn set(&mut self, x: usize, y: usize, z: usize, value: u8)
        requires
            old(self).index_fits(x as int, y as int, z as int),
            old(self).index_of(x as int, y as int, z as int) < old(self).data.len(),
        ensures
            final(self).dims == old(self).dims,
            final(self).data@ == old(self).data@.update(
                old(self).index_of(x as int, y as int, z as int),
                value,
            ),
    {
        let idx = self.index(x, y, z);
        self.data.set(idx, value);
    }
}

impl CubeGrid {
    /// Whether the grid is well formed: the cell count fits in machine arithmetic
    /// and `data` holds one value per cell.
    pub fn is_well_formed(&self) -> (b: bool)
        ensures
            b == self.wf(),
    {
        match self.dims.x.checked_mul(self.dims.y) {
            None => false,
            Some(xy) => match xy.checked_mul(self.dims.z) {
                None => false,
                Some(n) => n == self.data.len(),
            },
        }
    }
}

/// For a cell inside the grid the index arithmetic fits and lands inside `data`.
pub proof fn lemma_index_in_range(grid: &CubeGrid, x: int, y: int, z: int)
    requires
        grid.wf(),
        grid.in_bounds(x, y, z),
    ensures
        grid.index_fits(x, y, z),
        0 <= grid.index_of(x, y, z) < grid.data.len(),
{
    let dx = grid.dims.x as int;
    let dy = grid.dims.y as int;
    let dz = grid.dims.z as int;
    assert(0 <= x + y * dx < dx * dy) by (nonlinear_arith)
        requires 0 <= x < dx, 0 <= y < dy;
    assert(0 <= x + y * dx + z * dx * dy < dx * dy * dz) by (nonlinear_arith)
        requires 0 <= x + y * dx < dx * dy, 0 <= z < dz;
    assert(0 <= z * dx <= z * dx * dy) by (nonlinear_arith)
        requires 0 <= z, 0 <= dx, 1 <= dy;
}

/// Distinct cells of the grid are stored at distinct positions of `data`.
pub proof fn lemma_index_injective(grid: &CubeGrid, x1: int, y1: int, z1: int, x2: int, y2: int, z2: int)
    requires
        grid.in_bounds(x1, y1, z1),
        grid.in_bounds(x2, y2, z2),
        grid.index_of(x1, y1, z1) == grid.index_of(x2, y2, z2),
    ensures
        x1 == x2 && y1 == y2 && z1 == z2,
{
    let dx = grid.dims.x as int;
    let dy = grid.dims.y as int;
    let i = grid.index_of(x1, y1, z1);
    assert(i == (y1 + z1 * dy) * dx + x1) by (nonlinear_arith)
        requires i == x1 + y1 * dx + z1 * dx * dy;
    assert(i == (y2 + z2 * dy) * dx + x2) by (nonlinear_arith)
        requires i == x2 + y2 * dx + z2 * dx * dy;
    lemma_fundamental_div_mod_converse(i, dx, y1 + z1 * dy, x1);
    lemma_fundamental_div_mod_converse(i, dx, y2 + z2 * dy, x2);
    let j = i / dx;
    assert(j == z1 * dy + y1) by (nonlinear_arith)
        requires j == y1 + z1 * dy;
    assert(j == z2 * dy + y2) by (nonlinear_arith)
        requires j == y2 + z2 * dy;
    lemma_fundamental_div_mod_converse(j, dy, z1, y1);
    lemma_fundamental_div_mod_converse(j, dy, z2, y2);
}

/// Reading a cell back after `set` gives the value written, and `set` leaves every
/// other cell of the grid as it was.
pub proof fn lemma_set_then_get(before: &CubeGrid, after: &CubeGrid, x: int, y: int, z: int, value: u8)
    requires
        before.wf(),
        before.in_bounds(x, y, z),
        after.dims == before.dims,
        after.data@ == before.data@.update(before.index_of(x, y, z), value),
    ensures
        after.wf(),
        after.value_at(x, y, z) == value,
        forall|x2: int, y2: int, z2: int|
            #![trigger after.value_at(x2, y2, z2)]
            before.in_bounds(x2, y2, z2) && !(x2 == x && y2 == y && z2 == z)
                ==> after.value_at(x2, y2, z2) == before.value_at(x2, y2, z2),
{
    lemma_index_in_range(before, x, y, z);
    assert forall|x2: int, y2: int, z2: int|
        before.in_bounds(x2, y2, z2) && !(x2 == x && y2 == y && z2 == z)
        implies #[trigger] after.value_at(x2, y2, z2) == before.value_at(x2, y2, z2) by {
        lemma_index_in_range(before, x2, y2, z2);
        if before.index_of(x2, y2, z2) == before.index_of(x, y, z) {
            lemma_index_injective(before, x2, y2, z2, x, y, z);
        }
    }
}

/// The default grid is `DIM_X` by `DIM_Y` by `DIM_Z`.
impl Default for CubeGridDims {
    fn default() -> (d: Self)
        ensures
            d.x == DIM_X,
            d.y == DIM_Y,
            d.z == DIM_Z,
    {
        CubeGridDims { x: DIM_X, y: DIM_Y, z: DIM_Z }
    }
}

/// A grid of the default size filled with random values: each cube is white,
/// red or gray (0, 1 or 2).
impl Default for CubeGrid {
    fn default() -> (g: Self)
        ensures
            g.wf(),
            g.dims.x == DIM_X,
            g.dims.y == DIM_Y,
            g.dims.z == DIM_Z,
            forall|i: int| 0 <= i < g.data.len() ==> #[trigger] g.data@[i] < 3,
    {
        let mut rng = thread_rng();
        let dims = CubeGridDims::default();
        let total = dims.total();
        let mut data: Vec<u8> = Vec::new();
        let mut i: usize = 0;
        while i < total
            invariant
                i <= total,
                data.len() == i,
                forall|k: int| 0 <= k < data.len() ==> #[trigger] data@[k] < 3,
            decreases total - i,
        {
            let v = gen_range_u8(&mut rng, 0, 3);
            data.push(v);
            i = i + 1;
        }
        CubeGrid { dims, data }
    }
}

/// One of the three grid axes.
#[derive(Clone, Copy, Debug, PartialEq, Eq, Structural)]
pub enum Axis {
    X,
    Y,
    Z,
}

impl CubeGridDims {
    /// Number of cubes along `axis`.
    pub open spec fn along(self, axis: Axis) -> usize {
        match axis {
            Axis::X => self.x,
            Axis::Y => self.y,
            Axis::Z => self.z,
        }
    }
}

/// Filter mode for cube visibility.
#[derive(Clone, Copy, Debug, PartialEq, Eq, Structural)]
pub enum SelectionMode {
    /// One slider per axis: 0 shows every layer, `1..=DIM` shows that single layer.
    Section,
    /// A `min..=max` interval per axis of 1-based layers; `min = 0` leaves the low
    /// side open, and `max = 0` or `max = DIM` leave the high side open.
    Range,
}

/// The default mode is `Section`.
impl Default for SelectionMode {
    fn default() -> (m: Self)
        ensures
            m == SelectionMode::Section,
    {
        SelectionMode::Section
    }
}

/// Grid filter state, controlled by the sliders, the mode button, the checkbox and ESC.
#[derive(Clone, Copy, Debug, PartialEq, Eq, Structural)]
pub struct RangeSelectionState {
    pub x_slider: u32,
    pub y_slider: u32,
    pub z_slider: u32,
    pub x_min: u32,
    pub x_max: u32,
    pub y_min: u32,
    pub y_max: u32,
    pub z_min: u32,
    pub z_max: u32,
    pub mode: SelectionMode,
    /// Show only the cubes whose value is 1 (red).
    pub only_failbit: bool,
    /// Set when the filter changes; the instance buffer is rebuilt from it.
    pub dirty: bool,
}

impl RangeSelectionState {
    /// Whether every layer the filter names lies inside a grid of `dims`.
    pub fn is_within(&self, dims: CubeGridDims) -> (b: bool)
        ensures
            b == self.within(dims),
    {
        let x_ok = axis_hi_below(self.mode, self.x_slider, self.x_max, dims.x);
        let y_ok = axis_hi_below(self.mode, self.y_slider, self.y_max, dims.y);
        let z_ok = axis_hi_below(self.mode, self.z_slider, self.z_max, dims.z);
        x_ok && y_ok && z_ok
    }
}

/// Whether the last layer shown along one axis lies below `dim`.
fn axis_hi_below(mode: SelectionMode, slider: u32, max: u32, dim: usize) -> (b: bool)
    ensures
        b == (match mode {
            SelectionMode::Section => section_hi(slider, dim),
            SelectionMode::Range => range_hi(max, dim),
        } < dim),
{
    match mode {
        SelectionMode::Section => {
            if slider == 0 {
                true
            } else {
                ((slider - 1) as usize) < dim
            }
        },
        SelectionMode::Range => {
            (cap_max(max, dim).saturating_sub(1) as usize) < dim
        },
    }
}

/// Startup filter: Section mode showing everything, Range mode spanning every
/// layer of the default grid, no value filter, and a pending rebuild.
impl Default for RangeSelectionState {
    fn default() -> (s: Self)
        ensures
            s.x_slider == 0 && s.y_slider == 0 && s.z_slider == 0,
            s.x_min == 0 && s.y_min == 0 && s.z_min == 0,
            s.x_max == DIM_X && s.y_max == DIM_Y && s.z_max == DIM_Z,
            s.mode == SelectionMode::Section,
            !s.only_failbit,
            s.dirty,
    {
        let dims = CubeGridDims::default();
        RangeSelectionState {
            x_slider: 0,
            y_slider: 0,
            z_slider: 0,
            x_min: 0,
            x_max: dims.x as u32,
            y_min: 0,
            y_max: dims.y as u32,
            z_min: 0,
            z_max: dims.z as u32,
            mode: SelectionMode::default(),
            only_failbit: false,
            dirty: true,
        }
    }
}

/// A consistent filter, in either mode, shows a non-empty box that lies inside
/// the grid.
pub proof fn lemma_wf_shows_nonempty_box(state: RangeSelectionState, dims: CubeGridDims)
    requires
        state.wf(dims),
    ensures
        state.within(dims),
        0 <= state.lo(Axis::X) <= state.hi(Axis::X, dims),
        0 <= state.lo(Axis::Y) <= state.hi(Axis::Y, dims),
        0 <= state.lo(Axis::Z) <= state.hi(Axis::Z, dims),
{
    lemma_u32_truncation_le(dims.x);
    lemma_u32_truncation_le(dims.y);
    lemma_u32_truncation_le(dims.z);
}

/// The startup filter is consistent with the default grid.
pub proof fn lemma_default_state_wf(state: RangeSelectionState, dims: CubeGridDims)
    requires
        state.x_slider == 0 && state.y_slider == 0 && state.z_slider == 0,
        state.x_min == 0 && state.y_min == 0 && state.z_min == 0,
        state.x_max == DIM_X && state.y_max == DIM_Y && state.z_max == DIM_Z,
        dims.x == DIM_X && dims.y == DIM_Y && dims.z == DIM_Z,
    ensures
        state.wf(dims),
{
}

/// `v - 1`, stopping at 0 (the spec counterpart of `saturating_sub(1)`).
pub open spec fn dec_sat(v: int) -> int {
    if v >= 1 {
        v - 1
    } else {
        0
    }
}

/// The last 1-based layer a Range maximum admits: the axis length when the
/// maximum is 0 (no upper limit) or at least the axis length, else the maximum.
pub open spec fn capped_max(max: u32, dim: usize) -> int {
    if max == 0 || max >= (dim as u32) {
        (dim as u32) as int
    } else {
        max as int
    }
}

/// The last 1-based layer a Range maximum admits (0 means no upper limit).
pub(crate) fn cap_max(max: u32, dim: usize) -> (c: u32)
    ensures
        c == capped_max(max, dim),
{
    let d = dim as u32;
    if max == 0 || max >= d {
        d
    } else {
        max
    }
}

/// First layer shown on an axis in Section mode.
pub open spec fn section_lo(slider: u32) -> int {
    if slider == 0 {
        0
    } else {
        slider - 1
    }
}

/// Last layer shown on an axis in Section mode.
pub open spec fn section_hi(slider: u32, dim: usize) -> int {
    if slider == 0 {
        dim - 1
    } else {
        slider - 1
    }
}

/// First layer shown on an axis in Range mode.
pub open spec fn range_lo(min: u32) -> int {
    dec_sat(min as int)
}

/// Last layer shown on an axis in Range mode.
pub open spec fn range_hi(max: u32, dim: usize) -> int {
    dec_sat(capped_max(max, dim))
}

/// Number of integers in `lo..=hi`.
pub open spec fn interval_len(lo: int, hi: int) -> int {
    if lo <= hi {
        hi - lo + 1
    } else {
        0
    }
}

/// `s` lists `lo..=hi` in increasing order.
pub open spec fn is_interval(s: Seq<usize>, lo: int, hi: int) -> bool {
    &&& s.len() == interval_len(lo, hi)
    &&& forall|i: int| 0 <= i < s.len() ==> #[trigger] s[i] == lo + i
}

impl RangeSelectionState {
    /// The Section-mode slider of `axis`.
    pub open spec fn slider_of(self, axis: Axis) -> u32 {
        match axis {
            Axis::X => self.x_slider,
            Axis::Y => self.y_slider,
            Axis::Z => self.z_slider,
        }
    }

    /// The Range-mode minimum of `axis`.
    pub open spec fn min_of(self, axis: Axis) -> u32 {
        match axis {
            Axis::X => self.x_min,
            Axis::Y => self.y_min,
            Axis::Z => self.z_min,
        }
    }

    /// The Range-mode maximum of `axis`.
    pub open spec fn max_of(self, axis: Axis) -> u32 {
        match axis {
            Axis::X => self.x_max,
            Axis::Y => self.y_max,
            Axis::Z => self.z_max,
        }
    }

    /// First grid layer the filter shows along `axis`.
    pub open spec fn lo(self, axis: Axis) -> int {
        match self.mode {
            SelectionMode::Section => section_lo(self.slider_of(axis)),
            SelectionMode::Range => range_lo(self.min_of(axis)),
        }
    }

    /// Last grid layer the filter shows along `axis` (below `lo` when none is shown).
    pub open spec fn hi(self, axis: Axis, dims: CubeGridDims) -> int {
        match self.mode {
            SelectionMode::Section => section_hi(self.slider_of(axis), dims.along(axis)),
            SelectionMode::Range => range_hi(self.max_of(axis), dims.along(axis)),
        }
    }

    /// The filter's box contains `(x, y, z)`.
    pub open spec fn selects(self, dims: CubeGridDims, x: int, y: int, z: int) -> bool {
        &&& self.lo(Axis::X) <= x <= self.hi(Axis::X, dims)
        &&& self.lo(Axis::Y) <= y <= self.hi(Axis::Y, dims)
        &&& self.lo(Axis::Z) <= z <= self.hi(Axis::Z, dims)
    }

    /// The settings of one axis are consistent with an axis of `dim` cubes: the
    /// axis is non-empty and addressable by a `u32` slider, the slider stays within
    /// `0..=dim`, and the range satisfies `min <= max <= dim`.
    pub open spec fn axis_wf(slider: u32, min: u32, max: u32, dim: usize) -> bool {
        &&& 1 <= dim <= u32::MAX
        &&& slider <= dim
        &&& min <= max <= dim
    }

    /// The filter is consistent with a grid of `dims` on every axis.
    pub open spec fn wf(self, dims: CubeGridDims) -> bool {
        &&& Self::axis_wf(self.x_slider, self.x_min, self.x_max, dims.x)
        &&& Self::axis_wf(self.y_slider, self.y_min, self.y_max, dims.y)
        &&& Self::axis_wf(self.z_slider, self.z_min, self.z_max, dims.z)
    }

    /// Every layer the filter names lies inside the grid.
    pub open spec fn within(self, dims: CubeGridDims) -> bool {
        &&& self.hi(Axis::X, dims) < dims.x
        &&& self.hi(Axis::Y, dims) < dims.y
        &&& self.hi(Axis::Z, dims) < dims.z
    }
}

/// Color class of a cube value: 1 is red, 2 is gray, anything else white.
#[derive(Clone, Copy, Debug, PartialEq, Eq, Structural)]
pub enum CubeColor {
    White,
    Red,
    Gray,
}

/// The color of a cube with value `v`.
pub open spec fn color_of(v: u8) -> CubeColor {
    if v == 1 {
        CubeColor::Red
    } else if v == 2 {
        CubeColor::Gray
    } else {
        CubeColor::White
    }
}

/// The color of a cube with value `value`.
pub fn cube_color(value: u8) -> (c: CubeColor)
    ensures
        c == color_of(value),
{
    match value {
        1 => CubeColor::Red,
        2 => CubeColor::Gray,
        _ => CubeColor::White,
    }
}

/// One visible cube: its grid coordinates and its color class.
#[derive(Clone, Copy, Debug, PartialEq, Eq, Structural)]
pub struct CellInstance {
    pub x: usize,
    pub y: usize,
    pub z: usize,
    pub color: CubeColor,
}

/// Cell `(x1, y1, z1)` comes before cell `(x2, y2, z2)` in drawing order:
/// by `z`, then `y`, then `x`.
pub open spec fn cell_precedes(x1: int, y1: int, z1: int, x2: int, y2: int, z2: int) -> bool {
    ||| z1 < z2
    ||| (z1 == z2 && y1 < y2)
    ||| (z1 == z2 && y1 == y2 && x1 < x2)
}

impl CellInstance {
    /// This cube comes before the cell `(x, y, z)` in drawing order.
    pub open spec fn precedes(self, x: int, y: int, z: int) -> bool {
        cell_precedes(self.x as int, self.y as int, self.z as int, x, y, z)
    }
}

/// The cube at `(x, y, z)` is drawn: it is in the grid, inside the filter's box,
/// and, when only fail bits are shown, its value is 1.
pub open spec fn shows_cell(grid: &CubeGrid, state: RangeSelectionState, x: int, y: int, z: int) -> bool {
    &&& grid.in_bounds(x, y, z)
    &&& state.selects(grid.dims, x, y, z)
    &&& (state.only_failbit ==> grid.value_at(x, y, z) == 1)
}

/// Some entry of `s` is the cell `(x, y, z)`.
pub open spec fn has_cell(s: Seq<CellInstance>, x: int, y: int, z: int) -> bool {
    exists|i: int| 0 <= i < s.len() && #[trigger] s[i].x == x && s[i].y == y && s[i].z == z
}

/// Entries of `s` are in strictly increasing drawing order.
pub open spec fn in_drawing_order(s: Seq<CellInstance>) -> bool {
    forall|i: int, j: int| 0 <= i < j < s.len() ==> #[trigger] s[i].precedes(s[j].x as int, s[j].y as int, s[j].z as int)
}

/// `s` is exactly the list of drawn cubes of `grid` under `state`, in drawing order,
/// each with the color of its value.
pub open spec fn lists_visible(s: Seq<CellInstance>, grid: &CubeGrid, state: RangeSelectionState) -> bool {
    &&& forall|i: int| 0 <= i < s.len() ==> {
        &&& shows_cell(grid, state, #[trigger] s[i].x as int, s[i].y as int, s[i].z as int)
        &&& s[i].color == color_of(grid.value_at(s[i].x as int, s[i].y as int, s[i].z as int))
    }
    &&& in_drawing_order(s)
    &&& forall|x: int, y: int, z: int| #[trigger] shows_cell(grid, state, x, y, z) ==> has_cell(s, x, y, z)
}

/// Truncating an index to `u32` never makes it larger.
pub proof fn lemma_u32_truncation_le(d: usize)
    ensures
        (d as u32) as int <= d as int,
        d <= u32::MAX ==> (d as u32) as int == d as int,
{
    assert((d as u32) as usize <= d) by (bit_vector);
}

/// The layers shown along one axis in Section mode.
fn axis_range(slider: u32, dim: usize) -> (v: Vec<usize>)
    ensures
        is_interval(v@, section_lo(slider), section_hi(slider, dim)),
{
    if slider == 0 {
        let mut v: Vec<usize> = Vec::new();
        let mut i: usize = 0;
        while i < dim
            invariant
                i <= dim,
                v.len() == i,
                forall|k: int| 0 <= k < v.len() ==> #[trigger] v@[k] == k,
            decreases dim - i,
        {
            v.push(i);
            i = i + 1;
        }
        v
    } else {
        vec![(slider - 1) as usize]
    }
}

/// The layers shown along one axis in Range mode.
fn range_axis_range(min: u32, max: u32, dim: usize) -> (v: Vec<usize>)
    ensures
        is_interval(v@, range_lo(min), range_hi(max, dim)),
{
    let lo = min.saturating_sub(1) as usize;
    let hi = cap_max(max, dim).saturating_sub(1) as usize;
    let mut v: Vec<usize> = Vec::new();
    if lo <= hi {
        let mut i: usize = lo;
        while i <= hi
            invariant
                lo <= i <= hi + 1,
                hi < u32::MAX,
                v.len() == i - lo,
                forall|k: int| 0 <= k < v.len() ==> #[trigger] v@[k] == lo + k,
            decreases hi + 1 - i,
        {
            v.push(i);
            i = i + 1;
        }
    }
    v
}

/// The cube at `(x, y, z)` passes the value filter.
pub open spec fn passes_filter(grid: &CubeGrid, state: RangeSelectionState, x: int, y: int, z: int) -> bool {
    state.only_failbit ==> grid.value_at(x, y, z) == 1
}

/// The list entry for the cube at `(x, y, z)`.
pub open spec fn cell_at(grid: &CubeGrid, x: int, y: int, z: int) -> CellInstance {
    CellInstance { x: x as usize, y: y as usize, z: z as usize, color: color_of(grid.value_at(x, y, z)) }
}

/// Number of layers the filter shows along `axis`.
pub open spec fn layers(state: RangeSelectionState, axis: Axis, dims: CubeGridDims) -> nat {
    interval_len(state.lo(axis), state.hi(axis, dims)) as nat
}

/// Drawn cubes among the first `n` shown columns of row `(y, z)`, in order.
pub open spec fn row_list(grid: &CubeGrid, state: RangeSelectionState, y: int, z: int, n: nat) -> Seq<CellInstance>
    decreases n,
{
    if n == 0 {
        Seq::empty()
    } else {
        let prev = row_list(grid, state, y, z, (n - 1) as nat);
        let x = state.lo(Axis::X) + n - 1;
        if passes_filter(grid, state, x, y, z) {
            prev.push(cell_at(grid, x, y, z))
        } else {
            prev
        }
    }
}

/// Drawn cubes among the first `n` shown rows of layer `z`, in order.
pub open spec fn layer_list(grid: &CubeGrid, state: RangeSelectionState, z: int, n: nat) -> Seq<CellInstance>
    decreases n,
{
    if n == 0 {
        Seq::empty()
    } else {
        layer_list(grid, state, z, (n - 1) as nat) + row_list(
            grid,
            state,
            state.lo(Axis::Y) + n - 1,
            z,
            layers(state, Axis::X, grid.dims),
        )
    }
}

/// Drawn cubes among the first `n` shown layers, in order.
pub open spec fn box_list(grid: &CubeGrid, state: RangeSelectionState, n: nat) -> Seq<CellInstance>
    decreases n,
{
    if n == 0 {
        Seq::empty()
    } else {
        box_list(grid, state, (n - 1) as nat) + layer_list(
            grid,
            state,
            state.lo(Axis::Z) + n - 1,
            layers(state, Axis::Y, grid.dims),
        )
    }
}

/// The cubes drawn for `grid` under `state`, in drawing order.
pub open spec fn visible_list(grid: &CubeGrid, state: RangeSelectionState) -> Seq<CellInstance> {
    box_list(grid, state, layers(state, Axis::Z, grid.dims))
}

/// A row lists at most one cube per shown column, and every shown column when
/// no value filter is on.
pub proof fn lemma_row_list_len(grid: &CubeGrid, state: RangeSelectionState, y: int, z: int, n: nat)
    ensures
        row_list(grid, state, y, z, n).len() <= n,
        !state.only_failbit ==> row_list(grid, state, y, z, n).len() == n,
    decreases n,
{
    if n > 0 {
        lemma_row_list_len(grid, state, y, z, (n - 1) as nat);
    }
}

/// A layer lists at most one cube per shown cell, and every shown cell when
/// no value filter is on.
pub proof fn lemma_layer_list_len(grid: &CubeGrid, state: RangeSelectionState, z: int, n: nat)
    ensures
        layer_list(grid, state, z, n).len() <= n * layers(state, Axis::X, grid.dims),
        !state.only_failbit ==> layer_list(grid, state, z, n).len() == n * layers(state, Axis::X, grid.dims),
    decreases n,
{
    let nx = layers(state, Axis::X, grid.dims);
    if n > 0 {
        lemma_layer_list_len(grid, state, z, (n - 1) as nat);
        lemma_row_list_len(grid, state, state.lo(Axis::Y) + n - 1, z, nx);
        assert((n - 1) * nx + nx == n * nx) by (nonlinear_arith);
    }
}

/// The first `n` layers list at most one cube per shown cell, and every shown
/// cell when no value filter is on.
pub proof fn lemma_box_list_len(grid: &CubeGrid, state: RangeSelectionState, n: nat)
    ensures
        box_list(grid, state, n).len() <= n * (layers(state, Axis::Y, grid.dims) * layers(state, Axis::X, grid.dims)),
        !state.only_failbit ==> box_list(grid, state, n).len() == n * (layers(state, Axis::Y, grid.dims) * layers(
            state,
            Axis::X,
            grid.dims,
        )),
    decreases n,
{
    let ny = layers(state, Axis::Y, grid.dims);
    let nx = layers(state, Axis::X, grid.dims);
    if n > 0 {
        lemma_box_list_len(grid, state, (n - 1) as nat);
        lemma_layer_list_len(grid, state, state.lo(Axis::Z) + n - 1, ny);
        assert((n - 1) * (ny * nx) + ny * nx == n * (ny * nx)) by (nonlinear_arith);
    }
}

/// Without the value filter the drawn list has one cube per cell of the shown
/// box: its length is the product of the numbers of shown layers.
pub proof fn lemma_unfiltered_count_is_box_size(grid: &CubeGrid, state: RangeSelectionState)
    requires
        !state.only_failbit,
    ensures
        visible_list(grid, state).len() == layers(state, Axis::X, grid.dims) * layers(state, Axis::Y, grid.dims)
            * layers(state, Axis::Z, grid.dims),
{
    let nx = layers(state, Axis::X, grid.dims);
    let ny = layers(state, Axis::Y, grid.dims);
    let nz = layers(state, Axis::Z, grid.dims);
    lemma_box_list_len(grid, state, nz);
    assert(nz * (ny * nx) == nx * ny * nz) by (nonlinear_arith);
}

/// In Range mode a minimum of 0 or 1 leaves the low side of an axis open, and a
/// maximum of 0 or at or beyond the axis length leaves the high side open.
pub proof fn lemma_open_range_sides(max: u32, dim: usize)
    requires
        1 <= dim <= u32::MAX,
        max == 0 || max >= dim,
    ensures
        range_lo(0) == 0,
        range_lo(1) == 0,
        range_hi(max, dim) == dim - 1,
{
    lemma_u32_truncation_le(dim);
}

/// Two lists that both follow the drawing rules agree on their first `i + 1`
/// entries, given that they agree on the first `i`.
proof fn lemma_listings_agree_at(
    grid: &CubeGrid,
    state: RangeSelectionState,
    s1: Seq<CellInstance>,
    s2: Seq<CellInstance>,
    i: int,
)
    requires
        lists_visible(s1, grid, state),
        lists_visible(s2, grid, state),
        0 <= i < s1.len(),
        i < s2.len(),
        forall|k: int| 0 <= k < i ==> s1[k] == s2[k],
    ensures
        s1[i] == s2[i],
{
    let c = s1[i];
    assert(shows_cell(grid, state, c.x as int, c.y as int, c.z as int));
    let j = choose|j: int| 0 <= j < s2.len() && #[trigger] s2[j].x == c.x && s2[j].y == c.y && s2[j].z == c.z;
    if j < i {
        assert(s1[j] == s2[j]);
        assert(s1[j].precedes(s1[i].x as int, s1[i].y as int, s1[i].z as int));
    } else if j > i {
        let d = s2[i];
        assert(s2[i].precedes(s2[j].x as int, s2[j].y as int, s2[j].z as int));
        assert(shows_cell(grid, state, d.x as int, d.y as int, d.z as int));
        let j2 = choose|j2: int| 0 <= j2 < s1.len() && #[trigger] s1[j2].x == d.x && s1[j2].y == d.y && s1[j2].z == d.z;
        if j2 < i {
            assert(s1[j2] == s2[j2]);
            assert(s2[j2].precedes(s2[i].x as int, s2[i].y as int, s2[i].z as int));
        } else if j2 > i {
            assert(s1[i].precedes(s1[j2].x as int, s1[j2].y as int, s1[j2].z as int));
        }
    }
    assert(s2[i].x == c.x && s2[i].y == c.y && s2[i].z == c.z);
    assert(shows_cell(grid, state, s2[i].x as int, s2[i].y as int, s2[i].z as int));
}

/// Two lists that both follow the drawing rules agree on their first `n` entries.
proof fn lemma_listings_agree_upto(
    grid: &CubeGrid,
    state: RangeSelectionState,
    s1: Seq<CellInstance>,
    s2: Seq<CellInstance>,
    n: int,
)
    requires
        lists_visible(s1, grid, state),
        lists_visible(s2, grid, state),
        0 <= n <= s1.len(),
        n <= s2.len(),
    ensures
        forall|k: int| 0 <= k < n ==> s1[k] == s2[k],
    decreases n,
{
    if n > 0 {
        lemma_listings_agree_upto(grid, state, s1, s2, n - 1);
        lemma_listings_agree_at(grid, state, s1, s2, n - 1);
    }
}

/// The drawing rules determine the drawn list: any two lists that contain exactly
/// the shown cubes, in drawing order and with their colors, are the same list.
pub proof fn lemma_listing_unique(grid: &CubeGrid, state: RangeSelectionState, s1: Seq<CellInstance>, s2: Seq<CellInstance>)
    requires
        lists_visible(s1, grid, state),
        lists_visible(s2, grid, state),
    ensures
        s1 == s2,
{
    let n = if s1.len() <= s2.len() { s1.len() as int } else { s2.len() as int };
    lemma_listings_agree_upto(grid, state, s1, s2, n);
    if s1.len() > s2.len() {
        let c = s1[n];
        assert(shows_cell(grid, state, c.x as int, c.y as int, c.z as int));
        let j = choose|j: int| 0 <= j < s2.len() && #[trigger] s2[j].x == c.x && s2[j].y == c.y && s2[j].z == c.z;
        assert(s1[j] == s2[j]);
        assert(s1[j].precedes(s1[n].x as int, s1[n].y as int, s1[n].z as int));
    } else if s2.len() > s1.len() {
        let c = s2[n];
        assert(shows_cell(grid, state, c.x as int, c.y as int, c.z as int));
        let j = choose|j: int| 0 <= j < s1.len() && #[trigger] s1[j].x == c.x && s1[j].y == c.y && s1[j].z == c.z;
        assert(s1[j] == s2[j]);
        assert(s2[j].precedes(s2[n].x as int, s2[n].y as int, s2[n].z as int));
    }
    assert(s1 =~= s2);
}

/// Joining two ordered lists, where every entry of the first precedes every
/// entry of the second, gives an ordered list.
proof fn lemma_concat_in_order(a: Seq<CellInstance>, b: Seq<CellInstance>)
    requires
        in_drawing_order(a),
        in_drawing_order(b),
        forall|i: int, j: int|
            0 <= i < a.len() && 0 <= j < b.len() ==> #[trigger] a[i].precedes(b[j].x as int, b[j].y as int, b[j].z as int),
    ensures
        in_drawing_order(a + b),
{
    let c = a + b;
    assert forall|i: int, j: int| 0 <= i < j < c.len() implies #[trigger] c[i].precedes(
        c[j].x as int,
        c[j].y as int,
        c[j].z as int,
    ) by {
        if j < a.len() {
            assert(c[i] == a[i] && c[j] == a[j]);
        } else if i >= a.len() {
            assert(c[i] == b[i - a.len()] && c[j] == b[j - a.len()]);
        } else {
            assert(c[i] == a[i] && c[j] == b[j - a.len()]);
        }
    }
}

/// A cell listed in either part is listed in the joined list.
proof fn lemma_has_cell_concat(a: Seq<CellInstance>, b: Seq<CellInstance>, x: int, y: int, z: int)
    ensures
        has_cell(a, x, y, z) || has_cell(b, x, y, z) ==> has_cell(a + b, x, y, z),
{
    if has_cell(a, x, y, z) {
        let i = choose|i: int| 0 <= i < a.len() && #[trigger] a[i].x == x && a[i].y == y && a[i].z == z;
        assert((a + b)[i] == a[i]);
    } else if has_cell(b, x, y, z) {
        let i = choose|i: int| 0 <= i < b.len() && #[trigger] b[i].x == x && b[i].y == y && b[i].z == z;
        assert((a + b)[a.len() + i] == b[i]);
    }
}

/// A row of the drawn list: its entries are drawn cubes of that row with their
/// colors, in order of `x`, and it contains every drawn cube of the row among
/// its first `n` shown columns.
proof fn lemma_row_list_meaning(grid: &CubeGrid, state: RangeSelectionState, y: int, z: int, n: nat)
    requires
        grid.wf(),
        state.within(grid.dims),
        state.lo(Axis::Y) <= y <= state.hi(Axis::Y, grid.dims),
        state.lo(Axis::Z) <= z <= state.hi(Axis::Z, grid.dims),
        n <= layers(state, Axis::X, grid.dims),
    ensures
        ({
            let r = row_list(grid, state, y, z, n);
            &&& forall|i: int| 0 <= i < r.len() ==> {
                &&& shows_cell(grid, state, #[trigger] r[i].x as int, r[i].y as int, r[i].z as int)
                &&& r[i].color == color_of(grid.value_at(r[i].x as int, r[i].y as int, r[i].z as int))
                &&& r[i].y == y && r[i].z == z && r[i].x < state.lo(Axis::X) + n
            }
            &&& in_drawing_order(r)
            &&& forall|x: int| #[trigger] shows_cell(grid, state, x, y, z) && x < state.lo(Axis::X) + n ==> has_cell(r, x, y, z)
        }),
    decreases n,
{
    if n > 0 {
        lemma_row_list_meaning(grid, state, y, z, (n - 1) as nat);
        let prev = row_list(grid, state, y, z, (n - 1) as nat);
        let x = state.lo(Axis::X) + n - 1;
        if passes_filter(grid, state, x, y, z) {
            let c = cell_at(grid, x, y, z);
            let r = prev.push(c);
            assert(r[r.len() - 1] == c);
            assert(r[r.len() - 1].x == x && r[r.len() - 1].y == y && r[r.len() - 1].z == z);
            assert forall|xx: int| #[trigger] shows_cell(grid, state, xx, y, z) && xx < state.lo(Axis::X) + n
                implies has_cell(r, xx, y, z) by {
                if xx < x {
                    lemma_has_cell_push(prev, c, xx, y, z);
                }
            }
        }
    }
}

/// A layer of the drawn list: drawn cubes of layer `z` with their colors, in
/// drawing order, containing every drawn cube of its first `n` shown rows.
proof fn lemma_layer_list_meaning(grid: &CubeGrid, state: RangeSelectionState, z: int, n: nat)
    requires
        grid.wf(),
        state.within(grid.dims),
        state.lo(Axis::Z) <= z <= state.hi(Axis::Z, grid.dims),
        n <= layers(state, Axis::Y, grid.dims),
    ensures
        ({
            let l = layer_list(grid, state, z, n);
            &&& forall|i: int| 0 <= i < l.len() ==> {
                &&& shows_cell(grid, state, #[trigger] l[i].x as int, l[i].y as int, l[i].z as int)
                &&& l[i].color == color_of(grid.value_at(l[i].x as int, l[i].y as int, l[i].z as int))
                &&& l[i].z == z && l[i].y < state.lo(Axis::Y) + n
            }
            &&& in_drawing_order(l)
            &&& forall|x: int, y: int| #[trigger] shows_cell(grid, state, x, y, z) && y < state.lo(Axis::Y) + n ==> has_cell(l, x, y, z)
        }),
    decreases n,
{
    if n > 0 {
        let nx = layers(state, Axis::X, grid.dims);
        let y = state.lo(Axis::Y) + n - 1;
        lemma_layer_list_meaning(grid, state, z, (n - 1) as nat);
        lemma_row_list_meaning(grid, state, y, z, nx);
        let a = layer_list(grid, state, z, (n - 1) as nat);
        let b = row_list(grid, state, y, z, nx);
        lemma_concat_in_order(a, b);
        let l = a + b;
        assert forall|i: int| 0 <= i < l.len() implies {
            &&& shows_cell(grid, state, #[trigger] l[i].x as int, l[i].y as int, l[i].z as int)
            &&& l[i].color == color_of(grid.value_at(l[i].x as int, l[i].y as int, l[i].z as int))
            &&& l[i].z == z && l[i].y < state.lo(Axis::Y) + n
        } by {
            if i < a.len() {
                assert(l[i] == a[i]);
            } else {
                assert(l[i] == b[i - a.len()]);
            }
        }
        assert forall|x: int, yy: int| #[trigger] shows_cell(grid, state, x, yy, z) && yy < state.lo(Axis::Y) + n
            implies has_cell(l, x, yy, z) by {
            lemma_has_cell_concat(a, b, x, yy, z);
            if yy == y {
                assert(x <= state.hi(Axis::X, grid.dims));
                assert(shows_cell(grid, state, x, y, z));
            }
        }
    }
}

/// The first `n` layers of the drawn list: drawn cubes with their colors, in
/// drawing order, containing every drawn cube of those layers.
proof fn lemma_box_list_meaning(grid: &CubeGrid, state: RangeSelectionState, n: nat)
    requires
        grid.wf(),
        state.within(grid.dims),
        n <= layers(state, Axis::Z, grid.dims),
    ensures
        ({
            let b = box_list(grid, state, n);
            &&& forall|i: int| 0 <= i < b.len() ==> {
                &&& shows_cell(grid, state, #[trigger] b[i].x as int, b[i].y as int, b[i].z as int)
                &&& b[i].color == color_of(grid.value_at(b[i].x as int, b[i].y as int, b[i].z as int))
                &&& b[i].z < state.lo(Axis::Z) + n
            }
            &&& in_drawing_order(b)
            &&& forall|x: int, y: int, z: int| #[trigger] shows_cell(grid, state, x, y, z) && z < state.lo(Axis::Z) + n ==> has_cell(b, x, y, z)
        }),
    decreases n,
{
    if n > 0 {
        let ny = layers(state, Axis::Y, grid.dims);
        let z = state.lo(Axis::Z) + n - 1;
        lemma_box_list_meaning(grid, state, (n - 1) as nat);
        lemma_layer_list_meaning(grid, state, z, ny);
        let a = box_list(grid, state, (n - 1) as nat);
        let c = layer_list(grid, state, z, ny);
        lemma_concat_in_order(a, c);
        let b = a + c;
        assert forall|i: int| 0 <= i < b.len() implies {
            &&& shows_cell(grid, state, #[trigger] b[i].x as int, b[i].y as int, b[i].z as int)
            &&& b[i].color == color_of(grid.value_at(b[i].x as int, b[i].y as int, b[i].z as int))
            &&& b[i].z < state.lo(Axis::Z) + n
        } by {
            if i < a.len() {
                assert(b[i] == a[i]);
            } else {
                assert(b[i] == c[i - a.len()]);
            }
        }
        assert forall|x: int, y: int, zz: int| #[trigger] shows_cell(grid, state, x, y, zz) && zz < state.lo(Axis::Z) + n
            implies has_cell(b, x, y, zz) by {
            lemma_has_cell_concat(a, c, x, y, zz);
            if zz == z {
                assert(y <= state.hi(Axis::Y, grid.dims));
                assert(shows_cell(grid, state, x, y, z));
            }
        }
    }
}

/// The drawn list follows the drawing rules: exactly the shown cubes, in
/// drawing order, each with the color of its value.
pub proof fn lemma_visible_list_meaning(grid: &CubeGrid, state: RangeSelectionState)
    requires
        grid.wf(),
        state.within(grid.dims),
    ensures
        lists_visible(visible_list(grid, state), grid, state),
{
    let nz = layers(state, Axis::Z, grid.dims);
    lemma_box_list_meaning(grid, state, nz);
    let b = visible_list(grid, state);
    assert forall|x: int, y: int, z: int| #[trigger] shows_cell(grid, state, x, y, z) implies has_cell(b, x, y, z) by {
        assert(z <= state.hi(Axis::Z, grid.dims));
    }
}

/// The cube counter counts exactly the shown cubes: any list that follows the
/// drawing rules has as many entries as the drawn list.
pub proof fn lemma_count_is_number_shown(grid: &CubeGrid, state: RangeSelectionState, drawn: Seq<CellInstance>)
    requires
        grid.wf(),
        state.within(grid.dims),
        lists_visible(drawn, grid, state),
    ensures
        drawn == visible_list(grid, state),
        drawn.len() == visible_list(grid, state).len(),
{
    lemma_visible_list_meaning(grid, state);
    lemma_listing_unique(grid, state, drawn, visible_list(grid, state));
}

/// Two filters show the same box of a grid of `dims`: the same first and last
/// layer on every axis.
pub open spec fn same_box(s: RangeSelectionState, r: RangeSelectionState, dims: CubeGridDims) -> bool {
    &&& s.lo(Axis::X) == r.lo(Axis::X) && s.hi(Axis::X, dims) == r.hi(Axis::X, dims)
    &&& s.lo(Axis::Y) == r.lo(Axis::Y) && s.hi(Axis::Y, dims) == r.hi(Axis::Y, dims)
    &&& s.lo(Axis::Z) == r.lo(Axis::Z) && s.hi(Axis::Z, dims) == r.hi(Axis::Z, dims)
}

/// Filters that show the same box with the same value filter draw the same list,
/// whatever their modes and slider values.
pub proof fn lemma_same_box_same_list(grid: &CubeGrid, s: RangeSelectionState, r: RangeSelectionState)
    requires
        grid.wf(),
        s.within(grid.dims),
        r.within(grid.dims),
        s.only_failbit == r.only_failbit,
        same_box(s, r, grid.dims),
    ensures
        visible_list(grid, s) == visible_list(grid, r),
{
    lemma_visible_list_meaning(grid, s);
    lemma_visible_list_meaning(grid, r);
    let l = visible_list(grid, s);
    assert forall|x: int, y: int, z: int| shows_cell(grid, s, x, y, z) == shows_cell(grid, r, x, y, z) by {}
    assert(lists_visible(l, grid, r)) by {
        assert forall|i: int| 0 <= i < l.len() implies {
            &&& shows_cell(grid, r, #[trigger] l[i].x as int, l[i].y as int, l[i].z as int)
            &&& l[i].color == color_of(grid.value_at(l[i].x as int, l[i].y as int, l[i].z as int))
        } by {
            assert(shows_cell(grid, s, l[i].x as int, l[i].y as int, l[i].z as int));
        }
        assert forall|x: int, y: int, z: int| #[trigger] shows_cell(grid, r, x, y, z) implies has_cell(l, x, y, z) by {
            assert(shows_cell(grid, s, x, y, z));
        }
    }
    lemma_listing_unique(grid, r, l, visible_list(grid, r));
}

/// One axis of a Range filter picks the same layers as a Section slider: a slider
/// at layer `slider` matches the one-layer range `slider..=slider`, and a slider
/// at 0 (all layers) matches a range whose minimum is at most 1 and whose maximum
/// is 0 or at least the axis length.
pub open spec fn range_matches_section(slider: u32, min: u32, max: u32, dim: usize) -> bool {
    if slider == 0 {
        min <= 1 && (max == 0 || max >= dim)
    } else {
        min == slider && max == slider
    }
}

/// A Range filter whose every axis matches the Section sliders draws exactly what
/// the Section filter draws.
pub proof fn lemma_range_matches_section(grid: &CubeGrid, sec: RangeSelectionState, rng: RangeSelectionState)
    requires
        grid.wf(),
        sec.mode == SelectionMode::Section,
        rng.mode == SelectionMode::Range,
        sec.only_failbit == rng.only_failbit,
        1 <= grid.dims.x <= u32::MAX && 1 <= grid.dims.y <= u32::MAX && 1 <= grid.dims.z <= u32::MAX,
        sec.x_slider <= grid.dims.x && sec.y_slider <= grid.dims.y && sec.z_slider <= grid.dims.z,
        range_matches_section(sec.x_slider, rng.x_min, rng.x_max, grid.dims.x),
        range_matches_section(sec.y_slider, rng.y_min, rng.y_max, grid.dims.y),
        range_matches_section(sec.z_slider, rng.z_min, rng.z_max, grid.dims.z),
    ensures
        visible_list(grid, rng) == visible_list(grid, sec),
{
    lemma_u32_truncation_le(grid.dims.x);
    lemma_u32_truncation_le(grid.dims.y);
    lemma_u32_truncation_le(grid.dims.z);
    lemma_same_box_same_list(grid, rng, sec);
}

/// The predicate "the cube is drawn red".
pub open spec fn is_red() -> spec_fn(CellInstance) -> bool {
    |c: CellInstance| c.color == CubeColor::Red
}

/// A row drawn with the value filter on is the same row drawn without it, keeping
/// only the red cubes.
proof fn lemma_row_list_failbit(grid: &CubeGrid, on: RangeSelectionState, off: RangeSelectionState, y: int, z: int, n: nat)
    requires
        on == (RangeSelectionState { only_failbit: true, ..off }),
        !off.only_failbit,
    ensures
        row_list(grid, on, y, z, n) == row_list(grid, off, y, z, n).filter(is_red()),
    decreases n,
{
    if n > 0 {
        lemma_row_list_failbit(grid, on, off, y, z, (n - 1) as nat);
        let prev = row_list(grid, off, y, z, (n - 1) as nat);
        let x = off.lo(Axis::X) + n - 1;
        prev.lemma_filter_push(cell_at(grid, x, y, z), is_red());
    }
}

/// A layer drawn with the value filter on keeps only the red cubes of the layer.
proof fn lemma_layer_list_failbit(grid: &CubeGrid, on: RangeSelectionState, off: RangeSelectionState, z: int, n: nat)
    requires
        on == (RangeSelectionState { only_failbit: true, ..off }),
        !off.only_failbit,
    ensures
        layer_list(grid, on, z, n) == layer_list(grid, off, z, n).filter(is_red()),
    decreases n,
{
    if n > 0 {
        let nx = layers(off, Axis::X, grid.dims);
        let y = off.lo(Axis::Y) + n - 1;
        lemma_layer_list_failbit(grid, on, off, z, (n - 1) as nat);
        lemma_row_list_failbit(grid, on, off, y, z, nx);
        Seq::filter_distributes_over_add(layer_list(grid, off, z, (n - 1) as nat), row_list(grid, off, y, z, nx), is_red());
    }
}

/// The first `n` layers drawn with the value filter on keep only their red cubes.
proof fn lemma_box_list_failbit(grid: &CubeGrid, on: RangeSelectionState, off: RangeSelectionState, n: nat)
    requires
        on == (RangeSelectionState { only_failbit: true, ..off }),
        !off.only_failbit,
    ensures
        box_list(grid, on, n) == box_list(grid, off, n).filter(is_red()),
    decreases n,
{
    if n > 0 {
        let ny = layers(off, Axis::Y, grid.dims);
        let z = off.lo(Axis::Z) + n - 1;
        lemma_box_list_failbit(grid, on, off, (n - 1) as nat);
        lemma_layer_list_failbit(grid, on, off, z, ny);
        Seq::filter_distributes_over_add(box_list(grid, off, (n - 1) as nat), layer_list(grid, off, z, ny), is_red());
    }
}

/// Turning the value filter on keeps exactly the red cubes of the unfiltered
/// list, in the same order.
pub proof fn lemma_failbit_keeps_red_cubes(grid: &CubeGrid, state: RangeSelectionState)
    ensures
        visible_list(grid, RangeSelectionState { only_failbit: true, ..state }) == visible_list(
            grid,
            RangeSelectionState { only_failbit: false, ..state },
        ).filter(is_red()),
{
    let on = RangeSelectionState { only_failbit: true, ..state };
    let off = RangeSelectionState { only_failbit: false, ..state };
    lemma_box_list_failbit(grid, on, off, layers(off, Axis::Z, grid.dims));
}

/// Adding an entry keeps every cell that was listed.
proof fn lemma_has_cell_push(s: Seq<CellInstance>, e: CellInstance, x: int, y: int, z: int)
    requires
        has_cell(s, x, y, z),
    ensures
        has_cell(s.push(e), x, y, z),
{
    let i = choose|i: int| 0 <= i < s.len() && #[trigger] s[i].x == x && s[i].y == y && s[i].z == z;
    assert(s.push(e)[i] == s[i]);
}

/// Build the list of cubes that are currently visible, in drawing order
/// (`z` outermost, then `y`, then `x`), each with the color class of its value.
#[verifier::loop_isolation(false)]
pub fn compute_visible_instances(grid: &CubeGrid, state: &RangeSelectionState) -> (out: Vec<CellInstance>)
    requires
        grid.wf(),
        state.within(grid.dims),
    ensures
        out@ == visible_list(grid, *state),
        lists_visible(out@, grid, *state),
{
    let dims = grid.dims;
    let ghost xlo = state.lo(Axis::X);
    let ghost ylo = state.lo(Axis::Y);
    let ghost zlo = state.lo(Axis::Z);
    let (x_range, y_range, z_range) = match state.mode {
        SelectionMode::Section => (
            axis_range(state.x_slider, dims.x),
            axis_range(state.y_slider, dims.y),
            axis_range(state.z_slider, dims.z),
        ),
        SelectionMode::Range => (
            range_axis_range(state.x_min, state.x_max, dims.x),
            range_axis_range(state.y_min, state.y_max, dims.y),
            range_axis_range(state.z_min, state.z_max, dims.z),
        ),
    };
    assert(is_interval(x_range@, xlo, state.hi(Axis::X, dims)));
    assert(is_interval(y_range@, ylo, state.hi(Axis::Y, dims)));
    assert(is_interval(z_range@, zlo, state.hi(Axis::Z, dims)));
    proof {
        let a = x_range.len() as int;
        let b = y_range.len() as int;
        let c = z_range.len() as int;
        assert(a <= dims.x && b <= dims.y && c <= dims.z);
        assert(a * b <= dims.x * dims.y) by (nonlinear_arith)
            requires 0 <= a <= dims.x, 0 <= b <= dims.y;
        assert(a * b * c <= dims.x * dims.y * dims.z) by (nonlinear_arith)
            requires 0 <= a * b <= dims.x * dims.y, 0 <= c <= dims.z, 0 <= a, 0 <= b;
    }
    let count = x_range.len() * y_range.len() * z_range.len();
    let mut out: Vec<CellInstance> = Vec::with_capacity(count);
    let mut zi: usize = 0;
    while zi < z_range.len()
        invariant
            zi <= z_range.len(),
            out@ == box_list(grid, *state, zi as nat),
        decreases z_range.len() - zi,
    {
        let z = z_range[zi];
        let mut yi: usize = 0;
        while yi < y_range.len()
            invariant
                zi < z_range.len(),
                z == zlo + zi,
                yi <= y_range.len(),
                out@ == box_list(grid, *state, zi as nat) + layer_list(grid, *state, z as int, yi as nat),
            decreases y_range.len() - yi,
        {
            let y = y_range[yi];
            let mut xi: usize = 0;
            while xi < x_range.len()
                invariant
                    zi < z_range.len(),
                    z == zlo + zi,
                    yi < y_range.len(),
                    y == ylo + yi,
                    xi <= x_range.len(),
                    out@ == box_list(grid, *state, zi as nat) + layer_list(grid, *state, z as int, yi as nat)
                        + row_list(grid, *state, y as int, z as int, xi as nat),
                decreases x_range.len() - xi,
            {
                let x = x_range[xi];
                proof {
                    lemma_index_in_range(grid, x as int, y as int, z as int);
                }
                if !(state.only_failbit && grid.get(x, y, z) != 1) {
                    let color = cube_color(grid.get(x, y, z));
                    let cell = CellInstance { x, y, z, color };
                    out.push(cell);
                    assert(cell == cell_at(grid, x as int, y as int, z as int));
                }
                assert(out@ == box_list(grid, *state, zi as nat) + layer_list(grid, *state, z as int, yi as nat)
                    + row_list(grid, *state, y as int, z as int, (xi + 1) as nat));
                xi = xi + 1;
            }
            assert(out@ == box_list(grid, *state, zi as nat) + layer_list(grid, *state, z as int, (yi + 1) as nat));
            yi = yi + 1;
        }
        assert(out@ == box_list(grid, *state, (zi + 1) as nat));
        zi = zi + 1;
    }
    proof {
        lemma_visible_list_meaning(grid, *state);
    }
    out
}

} // verus!
