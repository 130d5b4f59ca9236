use vstd::prelude::*;
use crate::camera::ViewMode;
use crate::cube_grid::{
    cap_max, lemma_same_box_same_list, lemma_wf_shows_nonempty_box, same_box,
    Axis, CubeGrid, CubeGridDims, RangeSelectionState, SelectionMode, box_list,
    layer_list, layers, lemma_box_list_len, lemma_layer_list_len, lemma_row_list_len,
    lemma_u32_truncation_le, row_list, visible_list,
};

verus! {

/// Axis of a Section-mode slider.
#[derive(Clone, Copy, Debug, PartialEq, Eq, Structural)]
pub enum SliderAxis {
    X,
    Y,
    Z,
}

/// Axis of a view button.
#[derive(Clone, Copy, Debug, PartialEq, Eq, Structural)]
pub enum ViewButtonAxis {
    ThreeD,
    X,
    Y,
    Z,
}

/// Which bound a Range-mode slider sets.
#[derive(Clone, Copy, Debug, PartialEq, Eq, Structural)]
pub enum RangeSliderAxis {
    XMin,
    XMax,
    YMin,
    YMax,
    ZMin,
    ZMax,
}

// ── Slider changes ──────────────────────────────────────────────────

/// The filter after a Section-mode slider of `axis` reads `val`: the slider takes
/// the value and the state turns dirty, unless the slider already had it.
pub open spec fn section_slider_applied(s: RangeSelectionState, axis: SliderAxis, val: u32) -> RangeSelectionState {
    match axis {
        SliderAxis::X => if s.x_slider != val { RangeSelectionState { x_slider: val, dirty: true, ..s } } else { s },
        SliderAxis::Y => if s.y_slider != val { RangeSelectionState { y_slider: val, dirty: true, ..s } } else { s },
        SliderAxis::Z => if s.z_slider != val { RangeSelectionState { z_slider: val, dirty: true, ..s } } else { s },
    }
}

/// The filter after a Range-mode slider reads `val`. A new minimum above the
/// maximum drags the maximum up with it; a new maximum below the minimum drags the
/// minimum down. A value the slider already had changes nothing.
pub open spec fn range_slider_applied(s: RangeSelectionState, axis: RangeSliderAxis, val: u32) -> RangeSelectionState {
    match axis {
        RangeSliderAxis::XMin => if s.x_min != val {
            RangeSelectionState { x_min: val, x_max: if val > s.x_max { val } else { s.x_max }, dirty: true, ..s }
        } else {
            s
        },
        RangeSliderAxis::XMax => if s.x_max != val {
            RangeSelectionState { x_max: val, x_min: if val < s.x_min { val } else { s.x_min }, dirty: true, ..s }
        } else {
            s
        },
        RangeSliderAxis::YMin => if s.y_min != val {
            RangeSelectionState { y_min: val, y_max: if val > s.y_max { val } else { s.y_max }, dirty: true, ..s }
        } else {
            s
        },
        RangeSliderAxis::YMax => if s.y_max != val {
            RangeSelectionState { y_max: val, y_min: if val < s.y_min { val } else { s.y_min }, dirty: true, ..s }
        } else {
            s
        },
        RangeSliderAxis::ZMin => if s.z_min != val {
            RangeSelectionState { z_min: val, z_max: if val > s.z_max { val } else { s.z_max }, dirty: true, ..s }
        } else {
            s
        },
        RangeSliderAxis::ZMax => if s.z_max != val {
            RangeSelectionState { z_max: val, z_min: if val < s.z_min { val } else { s.z_min }, dirty: true, ..s }
        } else {
            s
        },
    }
}

/// A slider whose value changed this frame: the Section axis or the Range bound
/// it controls (an entity carries at most one of them in practice) and its value,
/// already truncated to an integer.
#[derive(Clone, Copy, Debug)]
pub struct SliderChange {
    pub section: Option<SliderAxis>,
    pub range: Option<RangeSliderAxis>,
    pub value: u32,
}

/// The filter after one slider change.
pub open spec fn slider_change_applied(s: RangeSelectionState, c: SliderChange) -> RangeSelectionState {
    let s1 = match c.section {
        Some(axis) => section_slider_applied(s, axis, c.value),
        None => s,
    };
    match c.range {
        Some(axis) => range_slider_applied(s1, axis, c.value),
        None => s1,
    }
}

/// The filter after the slider changes `cs`, applied in order.
pub open spec fn slider_changes_applied(s: RangeSelectionState, cs: Seq<SliderChange>) -> RangeSelectionState
    decreases cs.len(),
{
    if cs.len() == 0 {
        s
    } else {
        slider_change_applied(slider_changes_applied(s, cs.drop_last()), cs.last())
    }
}

impl RangeSelectionState {
    /// A Section-mode slider reads `val`; returns whether the filter changed.
    pub fn apply_section_slider(&mut self, axis: SliderAxis, val: u32) -> (changed: bool)
        ensures
            *final(self) == section_slider_applied(*old(self), axis, val),
            changed == (*final(self) != *old(self)),
    {
        let changed = match axis {
            SliderAxis::X => {
                if self.x_slider != val {
                    self.x_slider = val;
                    true
                } else {
                    false
                }
            },
            SliderAxis::Y => {
                if self.y_slider != val {
                    self.y_slider = val;
                    true
                } else {
                    false
                }
            },
            SliderAxis::Z => {
                if self.z_slider != val {
                    self.z_slider = val;
                    true
                } else {
                    false
                }
            },
        };
        if changed {
            self.dirty = true;
        }
        changed
    }

    /// A Range-mode slider reads `val`, keeping each minimum at or below its
    /// maximum; returns whether the filter changed.
    pub fn apply_range_slider(&mut self, axis: RangeSliderAxis, val: u32) -> (changed: bool)
        ensures
            *final(self) == range_slider_applied(*old(self), axis, val),
            changed == (*final(self) != *old(self)),
    {
        let changed = match axis {
            RangeSliderAxis::XMin => {
                if self.x_min != val {
                    self.x_min = val;
                    if val > self.x_max {
                        self.x_max = val;
                    }
                    true
                } else {
                    false
                }
            },
            RangeSliderAxis::XMax => {
                if self.x_max != val {
                    self.x_max = val;
                    if val < self.x_min {
                        self.x_min = val;
                    }
                    true
                } else {
                    false
                }
            },
            RangeSliderAxis::YMin => {
                if self.y_min != val {
                    self.y_min = val;
                    if val > self.y_max {
                        self.y_max = val;
                    }
                    true
                } else {
                    false
                }
            },
            RangeSliderAxis::YMax => {
                if self.y_max != val {
                    self.y_max = val;
                    if val < self.y_min {
                        self.y_min = val;
                    }
                    true
                } else {
                    false
                }
            },
            RangeSliderAxis::ZMin => {
                if self.z_min != val {
                    self.z_min = val;
                    if val > self.z_max {
                        self.z_max = val;
                    }
                    true
                } else {
                    false
                }
            },
            RangeSliderAxis::ZMax => {
                if self.z_max != val {
                    self.z_max = val;
                    if val < self.z_min {
                        self.z_min = val;
                    }
                    true
                } else {
                    false
                }
            },
        };
        if changed {
            self.dirty = true;
        }
        changed
    }
}

/// Syncs the changed slider values into the filter. The first call only arms
/// `ready`: at startup the slider widgets report their own initialisation as a
/// change, which must not reset the filter.
/// Returns whether the filter changed.
pub fn on_slider_changed(state: &mut RangeSelectionState, ready: &mut bool, changes: &Vec<SliderChange>) -> (changed: bool)
    ensures
        *final(ready),
        !*old(ready) ==> *final(state) == *old(state),
        *old(ready) ==> *final(state) == slider_changes_applied(*old(state), changes@),
        changed == (*final(state) != *old(state)),
{
    if !*ready {
        *ready = true;
        return false;
    }
    let start = *state;
    let mut i: usize = 0;
    while i < changes.len()
        invariant
            i <= changes.len(),
            start == *old(state),
            *state == slider_changes_applied(*old(state), changes@.subrange(0, i as int)),
        decreases changes.len() - i,
    {
        let c = changes[i];
        proof {
            assert(changes@.subrange(0, i + 1).drop_last() == changes@.subrange(0, i as int));
        }
        if let Some(axis) = c.section {
            state.apply_section_slider(axis, c.value);
        }
        if let Some(axis) = c.range {
            state.apply_range_slider(axis, c.value);
        }
        i = i + 1;
    }
    proof {
        assert(changes@.subrange(0, changes.len() as int) == changes@);
    }
    *state != start
}

/// The grid axis a Section slider controls.
pub open spec fn section_axis(axis: SliderAxis) -> Axis {
    match axis {
        SliderAxis::X => Axis::X,
        SliderAxis::Y => Axis::Y,
        SliderAxis::Z => Axis::Z,
    }
}

/// The grid axis a Range slider controls.
pub open spec fn range_axis(axis: RangeSliderAxis) -> Axis {
    match axis {
        RangeSliderAxis::XMin | RangeSliderAxis::XMax => Axis::X,
        RangeSliderAxis::YMin | RangeSliderAxis::YMax => Axis::Y,
        RangeSliderAxis::ZMin | RangeSliderAxis::ZMax => Axis::Z,
    }
}

/// The value of a slider change lies on its slider's track, `0..=dim` of the axis.
pub open spec fn change_on_track(c: SliderChange, dims: CubeGridDims) -> bool {
    &&& (c.section matches Some(a) ==> c.value <= dims.along(section_axis(a)))
    &&& (c.range matches Some(a) ==> c.value <= dims.along(range_axis(a)))
}

/// Every minimum is at or below its maximum.
pub open spec fn ranges_ordered(s: RangeSelectionState) -> bool {
    s.x_min <= s.x_max && s.y_min <= s.y_max && s.z_min <= s.z_max
}

/// Whatever value a slider reports, every range keeps its minimum at or below
/// its maximum.
pub proof fn lemma_slider_change_keeps_ranges_ordered(s: RangeSelectionState, c: SliderChange)
    requires
        ranges_ordered(s),
    ensures
        ranges_ordered(slider_change_applied(s, c)),
{
}

/// A sequence of slider changes keeps every range ordered.
pub proof fn lemma_slider_changes_keep_ranges_ordered(s: RangeSelectionState, cs: Seq<SliderChange>)
    requires
        ranges_ordered(s),
    ensures
        ranges_ordered(slider_changes_applied(s, cs)),
    decreases cs.len(),
{
    if cs.len() > 0 {
        lemma_slider_changes_keep_ranges_ordered(s, cs.drop_last());
    }
}

/// Slider changes whose values stay on their tracks keep the filter consistent
/// with the grid.
pub proof fn lemma_slider_changes_keep_wf(s: RangeSelectionState, cs: Seq<SliderChange>, dims: CubeGridDims)
    requires
        s.wf(dims),
        forall|i: int| 0 <= i < cs.len() ==> change_on_track(#[trigger] cs[i], dims),
    ensures
        slider_changes_applied(s, cs).wf(dims),
    decreases cs.len(),
{
    if cs.len() > 0 {
        lemma_slider_changes_keep_wf(s, cs.drop_last(), dims);
        assert(change_on_track(cs[cs.len() - 1], dims));
    }
}

/// Whether a Range slider sets the minimum of its axis (else the maximum).
pub open spec fn sets_min(axis: RangeSliderAxis) -> bool {
    axis == RangeSliderAxis::XMin || axis == RangeSliderAxis::YMin || axis == RangeSliderAxis::ZMin
}

/// A Range slider that reports a new value `val` sets its bound to `val`. The
/// other bound of the same axis stays put unless `val` crosses it, in which case
/// it is dragged to `val` (so a maximum pulled below the minimum leaves
/// `min == max == val`, and a minimum pushed above the maximum likewise). The
/// bounds of the other axes, every Section slider, the mode and the value filter
/// are untouched, and a rebuild is requested.
pub proof fn lemma_range_slider_moves_bounds(s: RangeSelectionState, axis: RangeSliderAxis, val: u32)
    requires
        range_value_of(s, axis) != val,
    ensures
        ({
            let r = range_slider_applied(s, axis, val);
            let a = range_axis(axis);
            &&& sets_min(axis) ==> r.min_of(a) == val && (val <= s.max_of(a) ==> r.max_of(a) == s.max_of(a))
                && (val > s.max_of(a) ==> r.max_of(a) == val)
            &&& !sets_min(axis) ==> r.max_of(a) == val && (val >= s.min_of(a) ==> r.min_of(a) == s.min_of(a))
                && (val < s.min_of(a) ==> r.min_of(a) == val)
            &&& (s.min_of(a) <= s.max_of(a) ==> r.min_of(a) <= r.max_of(a))
            &&& forall|b: Axis| b != a ==> r.min_of(b) == s.min_of(b) && r.max_of(b) == s.max_of(b)
            &&& forall|b: Axis| r.slider_of(b) == s.slider_of(b)
            &&& r.mode == s.mode && r.only_failbit == s.only_failbit && r.dirty
        }),
{
}

/// A Section slider that reports a new value `val` sets its own axis to `val`
/// and leaves every other setting alone, requesting a rebuild.
pub proof fn lemma_section_slider_moves_one_slider(s: RangeSelectionState, axis: SliderAxis, val: u32)
    requires
        s.slider_of(section_axis(axis)) != val,
    ensures
        ({
            let r = section_slider_applied(s, axis, val);
            let a = section_axis(axis);
            &&& r.slider_of(a) == val
            &&& forall|b: Axis| b != a ==> r.slider_of(b) == s.slider_of(b)
            &&& forall|b: Axis| r.min_of(b) == s.min_of(b) && r.max_of(b) == s.max_of(b)
            &&& r.mode == s.mode && r.only_failbit == s.only_failbit && r.dirty
        }),
{
}

/// Reporting the same slider value a second time changes nothing.
pub proof fn lemma_slider_change_idempotent(s: RangeSelectionState, c: SliderChange)
    ensures
        slider_change_applied(slider_change_applied(s, c), c) == slider_change_applied(s, c),
{
}

/// The filter turns dirty exactly when a slider change alters it, and a change
/// never clears a pending rebuild.
pub proof fn lemma_slider_change_marks_dirty(s: RangeSelectionState, c: SliderChange)
    ensures
        slider_change_applied(s, c) != s ==> slider_change_applied(s, c).dirty,
        s.dirty ==> slider_change_applied(s, c).dirty,
{
}

// ── Range slider display ────────────────────────────────────────────

/// The filter value a Range slider should display.
pub open spec fn range_value_of(state: RangeSelectionState, axis: RangeSliderAxis) -> u32 {
    match axis {
        RangeSliderAxis::XMin => state.x_min,
        RangeSliderAxis::XMax => state.x_max,
        RangeSliderAxis::YMin => state.y_min,
        RangeSliderAxis::YMax => state.y_max,
        RangeSliderAxis::ZMin => state.z_min,
        RangeSliderAxis::ZMax => state.z_max,
    }
}

/// The value a Range slider should show for the current filter, so that a bound
/// moved by the clamping of another slider is written back to its own slider.
pub fn range_slider_value(state: &RangeSelectionState, axis: RangeSliderAxis) -> (v: u32)
    ensures
        v == range_value_of(*state, axis),
{
    match axis {
        RangeSliderAxis::XMin => state.x_min,
        RangeSliderAxis::XMax => state.x_max,
        RangeSliderAxis::YMin => state.y_min,
        RangeSliderAxis::YMax => state.y_max,
        RangeSliderAxis::ZMin => state.z_min,
        RangeSliderAxis::ZMax => state.z_max,
    }
}

/// After a Range slider reports a value on its track, that slider shows the
/// value it reported.
pub proof fn lemma_range_slider_shows_its_value(s: RangeSelectionState, axis: RangeSliderAxis, val: u32)
    ensures
        range_value_of(range_slider_applied(s, axis, val), axis) == val,
{
}

// ── Mode button and value filter ────────────────────────────────────

/// The other selection mode.
pub open spec fn other_mode(mode: SelectionMode) -> SelectionMode {
    match mode {
        SelectionMode::Section => SelectionMode::Range,
        SelectionMode::Range => SelectionMode::Section,
    }
}

/// The Range bounds `(min, max)` a Section slider seeds on an axis of `dim`
/// cubes: a slider at layer `N` gives the one-layer range `N..=N`; a slider at 0
/// (all layers) gives `0..=dim`.
pub open spec fn seeded_range(slider: u32, dim: usize) -> (u32, u32) {
    if slider == 0 {
        (0u32, dim as u32)
    } else {
        (slider, slider)
    }
}

/// The filter after a press of the mode button. Section to Range seeds each
/// axis range from its Section slider; Range to Section keeps every value.
pub open spec fn mode_toggled(s: RangeSelectionState, dims: CubeGridDims) -> RangeSelectionState {
    match s.mode {
        SelectionMode::Section => RangeSelectionState {
            mode: SelectionMode::Range,
            x_min: seeded_range(s.x_slider, dims.x).0,
            x_max: seeded_range(s.x_slider, dims.x).1,
            y_min: seeded_range(s.y_slider, dims.y).0,
            y_max: seeded_range(s.y_slider, dims.y).1,
            z_min: seeded_range(s.z_slider, dims.z).0,
            z_max: seeded_range(s.z_slider, dims.z).1,
            dirty: true,
            ..s
        },
        SelectionMode::Range => RangeSelectionState { mode: SelectionMode::Section, dirty: true, ..s },
    }
}

/// The Range bounds a Section slider seeds.
fn seed_range(slider: u32, dim: usize) -> (r: (u32, u32))
    ensures
        r == seeded_range(slider, dim),
{
    if slider == 0 {
        (0, dim as u32)
    } else {
        (slider, slider)
    }
}

impl RangeSelectionState {
    /// A press of the mode button on a grid of `dims`: switch between Section and
    /// Range mode and request a rebuild. Entering Range mode starts each axis
    /// range from its Section slider, so the same cubes stay on screen.
    pub fn toggle_mode(&mut self, dims: CubeGridDims)
        ensures
            *final(self) == mode_toggled(*old(self), dims),
    {
        match self.mode {
            SelectionMode::Section => {
                let (x_min, x_max) = seed_range(self.x_slider, dims.x);
                let (y_min, y_max) = seed_range(self.y_slider, dims.y);
                let (z_min, z_max) = seed_range(self.z_slider, dims.z);
                self.x_min = x_min;
                self.x_max = x_max;
                self.y_min = y_min;
                self.y_max = y_max;
                self.z_min = z_min;
                self.z_max = z_max;
                self.mode = SelectionMode::Range;
            },
            SelectionMode::Range => {
                self.mode = SelectionMode::Section;
            },
        }
        self.dirty = true;
    }

    /// The "Only FailBit" checkbox reads `checked`.
    pub fn set_only_failbit(&mut self, checked: bool)
        ensures
            *final(self) == (RangeSelectionState { only_failbit: checked, dirty: true, ..*old(self) }),
    {
        self.only_failbit = checked;
        self.dirty = true;
    }
}

/// Two presses of the mode button starting in Section mode come back to Section
/// mode with every Section slider and the value filter as they were.
pub proof fn lemma_toggle_twice(s: RangeSelectionState, dims: CubeGridDims)
    requires
        s.mode == SelectionMode::Section,
    ensures
        ({
            let twice = mode_toggled(mode_toggled(s, dims), dims);
            &&& twice.mode == SelectionMode::Section
            &&& twice.x_slider == s.x_slider && twice.y_slider == s.y_slider && twice.z_slider == s.z_slider
            &&& twice.only_failbit == s.only_failbit
            &&& twice.dirty
        }),
{
}

/// Setting the value filter keeps the filter consistent with the grid.
pub proof fn lemma_failbit_keeps_wf(s: RangeSelectionState, dims: CubeGridDims, checked: bool)
    requires
        s.wf(dims),
    ensures
        (RangeSelectionState { only_failbit: checked, dirty: true, ..s }).wf(dims),
{
}

/// Switching modes keeps the filter consistent with the grid.
pub proof fn lemma_toggle_keeps_wf(s: RangeSelectionState, dims: CubeGridDims)
    requires
        s.wf(dims),
    ensures
        mode_toggled(s, dims).wf(dims),
{
}

/// Switching from Section to Range mode keeps the picture: a consistent filter
/// draws the same cubes before and after the switch.
pub proof fn lemma_section_to_range_keeps_view(grid: &CubeGrid, s: RangeSelectionState)
    requires
        grid.wf(),
        s.wf(grid.dims),
        s.mode == SelectionMode::Section,
    ensures
        visible_list(grid, mode_toggled(s, grid.dims)) == visible_list(grid, s),
{
    let r = mode_toggled(s, grid.dims);
    lemma_toggle_keeps_wf(s, grid.dims);
    lemma_wf_shows_nonempty_box(s, grid.dims);
    lemma_wf_shows_nonempty_box(r, grid.dims);
    lemma_u32_truncation_le(grid.dims.x);
    lemma_u32_truncation_le(grid.dims.y);
    lemma_u32_truncation_le(grid.dims.z);
    assert(same_box(r, s, grid.dims));
    lemma_same_box_same_list(grid, r, s);
}

/// Which panels and label the mode button leaves on screen.
#[derive(Clone, Copy, Debug, PartialEq, Eq, Structural)]
pub struct ModeLayout {
    pub section_panel_visible: bool,
    pub range_panel_visible: bool,
    /// The button offers the switch to Range mode (else to Section mode).
    pub offers_range: bool,
}

/// Panel layout for `mode`: the panel of the active mode shows, the other hides,
/// and the button names the mode it switches to.
pub fn mode_layout(mode: SelectionMode) -> (l: ModeLayout)
    ensures
        l.section_panel_visible == (mode == SelectionMode::Section),
        l.range_panel_visible == (mode == SelectionMode::Range),
        l.offers_range == (mode == SelectionMode::Section),
{
    let is_section = match mode {
        SelectionMode::Section => true,
        SelectionMode::Range => false,
    };
    ModeLayout { section_panel_visible: is_section, range_panel_visible: !is_section, offers_range: is_section }
}

// ── View buttons ────────────────────────────────────────────────────

/// The view mode a view button selects.
pub open spec fn view_mode_for(axis: ViewButtonAxis) -> ViewMode {
    match axis {
        ViewButtonAxis::ThreeD => ViewMode::ThreeD,
        ViewButtonAxis::X => ViewMode::SectionX,
        ViewButtonAxis::Y => ViewMode::SectionY,
        ViewButtonAxis::Z => ViewMode::SectionZ,
    }
}

/// Sets the view mode from the view buttons pressed this frame; the last press wins.
pub fn on_view_button_changed(view_mode: &mut ViewMode, pressed: &Vec<ViewButtonAxis>)
    ensures
        pressed.len() == 0 ==> *final(view_mode) == *old(view_mode),
        pressed.len() > 0 ==> *final(view_mode) == view_mode_for(pressed@.last()),
{
    let mut i: usize = 0;
    while i < pressed.len()
        invariant
            i <= pressed.len(),
            i == 0 ==> *view_mode == *old(view_mode),
            i > 0 ==> *view_mode == view_mode_for(pressed@[i - 1]),
        decreases pressed.len() - i,
    {
        *view_mode = match pressed[i] {
            ViewButtonAxis::ThreeD => ViewMode::ThreeD,
            ViewButtonAxis::X => ViewMode::SectionX,
            ViewButtonAxis::Y => ViewMode::SectionY,
            ViewButtonAxis::Z => ViewMode::SectionZ,
        };
        i = i + 1;
    }
}

/// Background of a view button.
#[derive(Clone, Copy, Debug, PartialEq, Eq, Structural)]
pub enum ButtonShade {
    Active,
    Hovered,
    Inactive,
}

/// Shade of a view button: the button of the active view mode is highlighted,
/// a hovered one is lighter, the rest are dark.
pub open spec fn shade_of(view_mode: ViewMode, axis: ViewButtonAxis, hovered: bool) -> ButtonShade {
    if view_mode_for(axis) == view_mode {
        ButtonShade::Active
    } else if hovered {
        ButtonShade::Hovered
    } else {
        ButtonShade::Inactive
    }
}

/// Shade of the view button `axis` while the view mode is `view_mode`.
pub fn button_shade(view_mode: ViewMode, axis: ViewButtonAxis, hovered: bool) -> (b: ButtonShade)
    ensures
        b == shade_of(view_mode, axis, hovered),
{
    let is_active = match (view_mode, axis) {
        (ViewMode::ThreeD, ViewButtonAxis::ThreeD) => true,
        (ViewMode::SectionX, ViewButtonAxis::X) => true,
        (ViewMode::SectionY, ViewButtonAxis::Y) => true,
        (ViewMode::SectionZ, ViewButtonAxis::Z) => true,
        _ => false,
    };
    if is_active {
        ButtonShade::Active
    } else if hovered {
        ButtonShade::Hovered
    } else {
        ButtonShade::Inactive
    }
}

/// Shade of a checkbox: highlighted while checked, dark otherwise.
pub fn checkbox_shade(checked: bool) -> (b: ButtonShade)
    ensures
        checked ==> b == ButtonShade::Active,
        !checked ==> b == ButtonShade::Inactive,
{
    if checked {
        ButtonShade::Active
    } else {
        ButtonShade::Inactive
    }
}

/// Whatever the view mode, exactly one view button is highlighted, and pressing a
/// button highlights that button.
pub proof fn lemma_one_active_button(view_mode: ViewMode, pressed: ViewButtonAxis)
    ensures
        exists|a: ViewButtonAxis| #[trigger] view_mode_for(a) == view_mode,
        forall|a: ViewButtonAxis, b: ViewButtonAxis|
            view_mode_for(a) == view_mode && view_mode_for(b) == view_mode ==> a == b,
        shade_of(view_mode_for(pressed), pressed, false) == ButtonShade::Active,
{
    let a = match view_mode {
        ViewMode::ThreeD => ViewButtonAxis::ThreeD,
        ViewMode::SectionX => ViewButtonAxis::X,
        ViewMode::SectionY => ViewButtonAxis::Y,
        ViewMode::SectionZ => ViewButtonAxis::Z,
    };
    assert(view_mode_for(a) == view_mode);
}

// ── ESC ─────────────────────────────────────────────────────────────

/// The checkbox updates that ESC asks for, so that the widgets match the reset state.
#[derive(Clone, Copy, Debug, PartialEq, Eq, Structural)]
pub struct EscActions {
    pub uncheck_failbit: bool,
    pub uncheck_orbit: bool,
    pub check_guide: bool,
}

/// The filter after ESC: in Section mode every slider returns to 0 (show all);
/// in Range mode every range spans the whole axis; in both the value filter is
/// cleared and a rebuild is requested.
pub open spec fn esc_reset(s: RangeSelectionState, dims: CubeGridDims) -> RangeSelectionState {
    match s.mode {
        SelectionMode::Section => RangeSelectionState {
            x_slider: 0,
            y_slider: 0,
            z_slider: 0,
            only_failbit: false,
            dirty: true,
            ..s
        },
        SelectionMode::Range => RangeSelectionState {
            x_min: 0,
            x_max: dims.x as u32,
            y_min: 0,
            y_max: dims.y as u32,
            z_min: 0,
            z_max: dims.z as u32,
            only_failbit: false,
            dirty: true,
            ..s
        },
    }
}

/// ESC: resets the filter of the current mode, stops orbiting the visible part,
/// turns the guide lines on, and says which checkboxes (when present, with
/// their checked state) must be flipped to match.
pub fn handle_esc(
    state: &mut RangeSelectionState,
    dims: CubeGridDims,
    orbit_only_visible: &mut bool,
    show_guide: &mut bool,
    failbit_checked: Option<bool>,
    orbit_checked: Option<bool>,
    guide_checked: Option<bool>,
) -> (a: EscActions)
    ensures
        *final(state) == esc_reset(*old(state), dims),
        !*final(orbit_only_visible),
        *final(show_guide),
        a.uncheck_failbit == (failbit_checked == Some(true)),
        a.uncheck_orbit == (orbit_checked == Some(true)),
        a.check_guide == (guide_checked == Some(false)),
{
    match state.mode {
        SelectionMode::Section => {
            state.x_slider = 0;
            state.y_slider = 0;
            state.z_slider = 0;
            state.only_failbit = false;
        },
        SelectionMode::Range => {
            state.x_min = 0;
            state.x_max = dims.x as u32;
            state.y_min = 0;
            state.y_max = dims.y as u32;
            state.z_min = 0;
            state.z_max = dims.z as u32;
            state.only_failbit = false;
        },
    }
    *orbit_only_visible = false;
    state.dirty = true;
    *show_guide = true;
    let uncheck_failbit = match failbit_checked {
        Some(c) => c,
        None => false,
    };
    let uncheck_orbit = match orbit_checked {
        Some(c) => c,
        None => false,
    };
    let check_guide = match guide_checked {
        Some(c) => !c,
        None => false,
    };
    EscActions { uncheck_failbit, uncheck_orbit, check_guide }
}

/// A press of the mode button switches the mode and never moves a Section
/// slider. Leaving Range mode keeps every range bound as it was; entering it
/// starts each axis from its Section slider: a slider at layer `N` gives
/// `min == max == N`, a slider at 0 gives `0..=dim` (the whole axis).
pub proof fn lemma_toggle_keeps_sliders(s: RangeSelectionState, dims: CubeGridDims)
    ensures
        ({
            let t = mode_toggled(s, dims);
            &&& t.mode != s.mode
            &&& forall|a: Axis| t.slider_of(a) == s.slider_of(a)
            &&& t.only_failbit == s.only_failbit && t.dirty
            &&& s.mode == SelectionMode::Range ==> forall|a: Axis| t.min_of(a) == s.min_of(a) && t.max_of(a) == s.max_of(a)
            &&& s.mode == SelectionMode::Section ==> forall|a: Axis| {
                &&& s.slider_of(a) == 0 ==> t.min_of(a) == 0 && t.max_of(a) == dims.along(a) as u32
                &&& s.slider_of(a) != 0 ==> t.min_of(a) == s.slider_of(a) && t.max_of(a) == s.slider_of(a)
            }
        }),
{
}

/// ESC keeps the selection mode and the value filter off afterwards. In Section
/// mode it returns every Section slider to 0 and leaves the Range bounds alone;
/// in Range mode it opens every range to the whole axis (`0..=dim`) and leaves
/// the Section sliders alone.
pub proof fn lemma_esc_keeps_mode(s: RangeSelectionState, dims: CubeGridDims)
    ensures
        ({
            let e = esc_reset(s, dims);
            &&& e.mode == s.mode
            &&& !e.only_failbit && e.dirty
            &&& s.mode == SelectionMode::Section ==> forall|a: Axis| e.slider_of(a) == 0 && e.min_of(a) == s.min_of(a)
                && e.max_of(a) == s.max_of(a)
            &&& s.mode == SelectionMode::Range ==> forall|a: Axis| e.slider_of(a) == s.slider_of(a) && e.min_of(a) == 0
                && e.max_of(a) == dims.along(a) as u32
        }),
{
}

/// ESC keeps a consistent filter consistent, and afterwards every cube of the
/// grid lies in the filter's box with the value filter off: the whole grid shows.
pub proof fn lemma_esc_shows_whole_grid(s: RangeSelectionState, dims: CubeGridDims)
    requires
        s.wf(dims),
    ensures
        esc_reset(s, dims).wf(dims),
        !esc_reset(s, dims).only_failbit,
        forall|x: int, y: int, z: int|
            0 <= x < dims.x && 0 <= y < dims.y && 0 <= z < dims.z ==> #[trigger] esc_reset(s, dims).selects(
                dims,
                x,
                y,
                z,
            ),
{
    lemma_u32_truncation_le(dims.x);
    lemma_u32_truncation_le(dims.y);
    lemma_u32_truncation_le(dims.z);
}

// ── Cube count ──────────────────────────────────────────────────────

/// Counting the drawn cubes of `state` takes no machine subtraction below zero:
/// without the value filter, Range mode counts `hi - lo + 1` cubes per axis.
pub open spec fn count_defined(state: RangeSelectionState, dims: CubeGridDims) -> bool {
    state.mode == SelectionMode::Range && !state.only_failbit ==> {
        &&& state.lo(Axis::X) <= state.hi(Axis::X, dims)
        &&& state.lo(Axis::Y) <= state.hi(Axis::Y, dims)
        &&& state.lo(Axis::Z) <= state.hi(Axis::Z, dims)
    }
}

/// Whether counting the drawn cubes of `state` is defined on a grid of `dims`.
pub fn count_is_defined(state: &RangeSelectionState, dims: CubeGridDims) -> (b: bool)
    ensures
        b == count_defined(*state, dims),
{
    match state.mode {
        SelectionMode::Section => true,
        SelectionMode::Range => {
            if state.only_failbit {
                true
            } else {
                let x_ok = state.x_min.saturating_sub(1) <= cap_max(state.x_max, dims.x).saturating_sub(1);
                let y_ok = state.y_min.saturating_sub(1) <= cap_max(state.y_max, dims.y).saturating_sub(1);
                let z_ok = state.z_min.saturating_sub(1) <= cap_max(state.z_max, dims.z).saturating_sub(1);
                x_ok && y_ok && z_ok
            }
        },
    }
}

/// Counts the red cubes (value 1) in the box `xs..xe` by `ys..ye` by `zs..ze`,
/// which is the box the filter shows.
#[verifier::loop_isolation(false)]
fn count_failbits(
    grid: &CubeGrid,
    state: &RangeSelectionState,
    xs: usize,
    xe: usize,
    ys: usize,
    ye: usize,
    zs: usize,
    ze: usize,
) -> (n: usize)
    requires
        grid.wf(),
        state.within(grid.dims),
        state.only_failbit,
        xs == state.lo(Axis::X) && xe == xs + layers(*state, Axis::X, grid.dims),
        ys == state.lo(Axis::Y) && ye == ys + layers(*state, Axis::Y, grid.dims),
        zs == state.lo(Axis::Z) && ze == zs + layers(*state, Axis::Z, grid.dims),
    ensures
        n == visible_list(grid, *state).len(),
{
    let ghost nx = layers(*state, Axis::X, grid.dims);
    let ghost ny = layers(*state, Axis::Y, grid.dims);
    let ghost nz = layers(*state, Axis::Z, grid.dims);
    proof {
        assert(nx <= grid.dims.x && ny <= grid.dims.y && nz <= grid.dims.z);
        assert(nz * (ny * nx) <= grid.dims.x * grid.dims.y * grid.dims.z) by (nonlinear_arith)
            requires nx <= grid.dims.x, ny <= grid.dims.y, nz <= grid.dims.z;
    }
    let mut count: usize = 0;
    let mut z = zs;
    while z < ze
        invariant
            zs <= z <= ze,
            count == box_list(grid, *state, (z - zs) as nat).len(),
        decreases ze - z,
    {
        let mut y = ys;
        while y < ye
            invariant
                zs <= z < ze,
                ys <= y <= ye,
                count == box_list(grid, *state, (z - zs) as nat).len()
                    + layer_list(grid, *state, z as int, (y - ys) as nat).len(),
            decreases ye - y,
        {
            let mut x = xs;
            while x < xe
                invariant
                    zs <= z < ze,
                    ys <= y < ye,
                    xs <= x <= xe,
                    count == box_list(grid, *state, (z - zs) as nat).len()
                        + layer_list(grid, *state, z as int, (y - ys) as nat).len()
                        + row_list(grid, *state, y as int, z as int, (x - xs) as nat).len(),
                decreases xe - x,
            {
                proof {
                    crate::cube_grid::lemma_index_in_range(grid, x as int, y as int, z as int);
                    let bz = (z - zs) as nat;
                    let ly = (y - ys) as nat;
                    let rx = (x - xs) as nat;
                    lemma_box_list_len(grid, *state, bz);
                    lemma_layer_list_len(grid, *state, z as int, ly);
                    lemma_row_list_len(grid, *state, y as int, z as int, rx);
                    assert(bz * (ny * nx) + ly * nx + rx + 1 <= nz * (ny * nx)) by (nonlinear_arith)
                        requires bz + 1 <= nz, ly + 1 <= ny, rx + 1 <= nx;
                }
                if grid.get(x, y, z) == 1 {
                    count = count + 1;
                }
                x = x + 1;
            }
            y = y + 1;
        }
        z = z + 1;
    }
    count
}

/// Number of cubes the current filter draws, as shown in the cube counter.
/// Without the value filter it is the size of the shown box; with it, the red
/// cubes in that box are counted one by one.
pub fn visible_cube_count(grid: &CubeGrid, state: &RangeSelectionState) -> (n: usize)
    requires
        grid.wf(),
        state.within(grid.dims),
        count_defined(*state, grid.dims),
    ensures
        n == visible_list(grid, *state).len(),
{
    let dims = grid.dims;
    let ghost nx = layers(*state, Axis::X, dims);
    let ghost ny = layers(*state, Axis::Y, dims);
    let ghost nz = layers(*state, Axis::Z, dims);
    proof {
        lemma_box_list_len(grid, *state, nz);
        assert(nx <= dims.x && ny <= dims.y && nz <= dims.z);
        assert(nx * ny <= dims.x * dims.y) by (nonlinear_arith)
            requires nx <= dims.x, ny <= dims.y;
        assert(nx * ny * nz <= dims.x * dims.y * dims.z) by (nonlinear_arith)
            requires nx * ny <= dims.x * dims.y, nz <= dims.z;
        assert(nz * (ny * nx) == nx * ny * nz) by (nonlinear_arith);
    }
    match state.mode {
        SelectionMode::Section => {
            let xc = if state.x_slider == 0 { dims.x } else { 1 };
            let yc = if state.y_slider == 0 { dims.y } else { 1 };
            let zc = if state.z_slider == 0 { dims.z } else { 1 };
            if state.only_failbit {
                let xs: usize = if state.x_slider == 0 { 0 } else { (state.x_slider - 1) as usize };
                let ys: usize = if state.y_slider == 0 { 0 } else { (state.y_slider - 1) as usize };
                let zs: usize = if state.z_slider == 0 { 0 } else { (state.z_slider - 1) as usize };
                count_failbits(grid, state, xs, xs + xc, ys, ys + yc, zs, zs + zc)
            } else {
                xc * yc * zc
            }
        },
        SelectionMode::Range => {
            let x_lo = state.x_min.saturating_sub(1) as usize;
            let x_hi = cap_max(state.x_max, dims.x).saturating_sub(1) as usize;
            let y_lo = state.y_min.saturating_sub(1) as usize;
            let y_hi = cap_max(state.y_max, dims.y).saturating_sub(1) as usize;
            let z_lo = state.z_min.saturating_sub(1) as usize;
            let z_hi = cap_max(state.z_max, dims.z).saturating_sub(1) as usize;
            if state.only_failbit {
                let xe = if x_lo <= x_hi { x_hi + 1 } else { x_lo };
                let ye = if y_lo <= y_hi { y_hi + 1 } else { y_lo };
                let ze = if z_lo <= z_hi { z_hi + 1 } else { z_lo };
                count_failbits(grid, state, x_lo, xe, y_lo, ye, z_lo, ze)
            } else {
                (x_hi - x_lo + 1) * (y_hi - y_lo + 1) * (z_hi - z_lo + 1)
            }
        },
    }
}

} // verus!
