use vstd::prelude::*;
use crate::cube_grid::{
    cap_max,
    Axis, CubeGridDims, RangeSelectionState, SelectionMode, range_hi, range_lo, section_hi,
    section_lo,
};

verus! {

/// Which camera behavior is active: the free orbit view or one of the three
/// axis-aligned section views.
#[derive(Clone, Copy, Debug, PartialEq, Eq, Structural)]
pub enum ViewMode {
    ThreeD,
    SectionX,
    SectionY,
    SectionZ,
}

/// The view starts in orbit mode.
impl Default for ViewMode {
    fn default() -> (m: Self)
        ensures
            m == ViewMode::ThreeD,
    {
        ViewMode::ThreeD
    }
}

/// A world-space direction with integer components.
pub type Direction = (i32, i32, i32);

/// Camera forward and up directions of each view mode.
pub open spec fn orientation_of(mode: ViewMode) -> (Direction, Direction) {
    match mode {
        ViewMode::ThreeD => ((0i32, 0i32, -1i32), (0i32, 1i32, 0i32)),
        ViewMode::SectionX => ((-1i32, 0i32, 0i32), (0i32, 1i32, 0i32)),
        ViewMode::SectionY => ((0i32, 0i32, -1i32), (0i32, 1i32, 0i32)),
        ViewMode::SectionZ => ((0i32, -1i32, 0i32), (0i32, 0i32, 1i32)),
    }
}

impl ViewMode {
    /// Forward and up directions of the camera in this mode (world axes: a section
    /// view looks down the negative world axis of its section plane).
    pub fn section_orientation(&self) -> (r: (Direction, Direction))
        ensures
            r == orientation_of(*self),
    {
        match self {
            ViewMode::ThreeD => ((0, 0, -1), (0, 1, 0)),
            ViewMode::SectionX => ((-1, 0, 0), (0, 1, 0)),
            ViewMode::SectionY => ((0, 0, -1), (0, 1, 0)),
            ViewMode::SectionZ => ((0, -1, 0), (0, 0, 1)),
        }
    }
}

/// Dot product of two directions.
pub open spec fn dot(a: Direction, b: Direction) -> int {
    a.0 * b.0 + a.1 * b.1 + a.2 * b.2
}

/// In every mode the camera's forward and up directions are unit vectors at a
/// right angle to each other.
pub proof fn lemma_orientation_orthonormal(mode: ViewMode)
    ensures
        dot(orientation_of(mode).0, orientation_of(mode).0) == 1,
        dot(orientation_of(mode).1, orientation_of(mode).1) == 1,
        dot(orientation_of(mode).0, orientation_of(mode).1) == 0,
{
}

/// Grid-index bounds of one axis in Section mode.
fn axis_center_bounds(slider: u32, dim: usize) -> (r: (usize, usize))
    requires
        slider == 0 ==> dim >= 1,
    ensures
        r.0 == section_lo(slider),
        r.1 == section_hi(slider, dim),
{
    if slider == 0 {
        (0, dim - 1)
    } else {
        let v = (slider - 1) as usize;
        (v, v)
    }
}

/// Grid-index bounds of one axis in Range mode.
fn range_center_bounds(min: u32, max: u32, dim: usize) -> (r: (usize, usize))
    ensures
        r.0 == range_lo(min),
        r.1 == range_hi(max, dim),
{
    let lo = min.saturating_sub(1) as usize;
    let hi = cap_max(max, dim).saturating_sub(1) as usize;
    (lo, hi)
}

/// Section mode with an axis slider at 0 shows that whole axis, which needs a
/// non-empty axis.
pub open spec fn bounds_defined(state: RangeSelectionState, dims: CubeGridDims) -> bool {
    state.mode == SelectionMode::Section ==> {
        &&& state.x_slider == 0 ==> dims.x >= 1
        &&& state.y_slider == 0 ==> dims.y >= 1
        &&& state.z_slider == 0 ==> dims.z >= 1
    }
}

/// Whether the visible bounds of `state` are defined on a grid of `dims`.
pub fn bounds_are_defined(state: &RangeSelectionState, dims: CubeGridDims) -> (b: bool)
    ensures
        b == bounds_defined(*state, dims),
{
    match state.mode {
        SelectionMode::Section => (state.x_slider != 0 || dims.x >= 1) && (state.y_slider != 0 || dims.y >= 1)
            && (state.z_slider != 0 || dims.z >= 1),
        SelectionMode::Range => true,
    }
}

/// First and last visible grid index along each axis, `(x, y, z)`; the orbit
/// camera turns around the middle of this box.
pub fn visible_center_bounds(state: &RangeSelectionState, dims: CubeGridDims) -> (r: (
    (usize, usize),
    (usize, usize),
    (usize, usize),
))
    requires
        bounds_defined(*state, dims),
    ensures
        r.0.0 == state.lo(Axis::X) && r.0.1 == state.hi(Axis::X, dims),
        r.1.0 == state.lo(Axis::Y) && r.1.1 == state.hi(Axis::Y, dims),
        r.2.0 == state.lo(Axis::Z) && r.2.1 == state.hi(Axis::Z, dims),
{
    let xb = match state.mode {
        SelectionMode::Section => axis_center_bounds(state.x_slider, dims.x),
        SelectionMode::Range => range_center_bounds(state.x_min, state.x_max, dims.x),
    };
    let yb = match state.mode {
        SelectionMode::Section => axis_center_bounds(state.y_slider, dims.y),
        SelectionMode::Range => range_center_bounds(state.y_min, state.y_max, dims.y),
    };
    let zb = match state.mode {
        SelectionMode::Section => axis_center_bounds(state.z_slider, dims.z),
        SelectionMode::Range => range_center_bounds(state.z_min, state.z_max, dims.z),
    };
    (xb, yb, zb)
}

/// What a change of view mode asks of the camera this frame.
#[derive(Clone, Copy, Debug, PartialEq, Eq, Structural)]
pub enum ModeTransition {
    /// Same mode as last frame.
    Unchanged,
    /// Just switched into a section view: fit the distance, recenter the target.
    EnteredSection,
    /// Just switched back to orbit: take the orbit distance from the camera position.
    ReturnedToOrbit,
}

/// The decisions the camera system takes each frame before its float work.
#[derive(Clone, Copy, Debug)]
pub struct CameraPlan {
    pub transition: ModeTransition,
    /// On entering a section view: the larger of the two grid sizes spanning the
    /// section plane, in cubes; the camera backs off to fit it.
    pub section_extent: Option<usize>,
    /// The left-button drag rotates (orbit) or pans (section) this frame.
    pub drag: bool,
}

/// Number of cubes across the wider side of the section plane of `mode`.
pub open spec fn section_extent_of(mode: ViewMode, dims: CubeGridDims) -> Option<usize> {
    match mode {
        ViewMode::ThreeD => None,
        ViewMode::SectionX => Some(if dims.y >= dims.z { dims.y } else { dims.z }),
        ViewMode::SectionY => Some(if dims.x >= dims.z { dims.x } else { dims.z }),
        ViewMode::SectionZ => Some(if dims.x >= dims.y { dims.x } else { dims.y }),
    }
}

/// Frame decisions of the camera system: notice a change of view mode (and
/// remember the new one), size a fresh section view, and tell whether the
/// mouse drag applies (left button held and no slider being dragged).
pub fn plan_camera_frame(
    prev_mode: &mut Option<ViewMode>,
    mode: ViewMode,
    left_pressed: bool,
    dragging_slider: bool,
    dims: CubeGridDims,
) -> (plan: CameraPlan)
    ensures
        *final(prev_mode) == Some(mode),
        *old(prev_mode) == Some(mode) ==> plan.transition == ModeTransition::Unchanged
            && plan.section_extent is None,
        *old(prev_mode) != Some(mode) && mode != ViewMode::ThreeD ==> plan.transition
            == ModeTransition::EnteredSection && plan.section_extent == section_extent_of(mode, dims),
        *old(prev_mode) != Some(mode) && mode == ViewMode::ThreeD ==> plan.transition
            == ModeTransition::ReturnedToOrbit && plan.section_extent is None,
        plan.drag == (left_pressed && !dragging_slider),
{
    let mode_changed = match *prev_mode {
        Some(p) => p != mode,
        None => true,
    };
    let mut transition = ModeTransition::Unchanged;
    let mut section_extent: Option<usize> = None;
    if mode_changed {
        *prev_mode = Some(mode);
        if mode != ViewMode::ThreeD {
            transition = ModeTransition::EnteredSection;
            section_extent = match mode {
                ViewMode::SectionX => Some(if dims.y >= dims.z { dims.y } else { dims.z }),
                ViewMode::SectionY => Some(if dims.x >= dims.z { dims.x } else { dims.z }),
                ViewMode::SectionZ => Some(if dims.x >= dims.y { dims.x } else { dims.y }),
                ViewMode::ThreeD => None,
            };
        } else {
            transition = ModeTransition::ReturnedToOrbit;
        }
    }
    CameraPlan { transition, section_extent, drag: left_pressed && !dragging_slider }
}

} // verus!
