use cube_viewer::camera::{plan_camera_frame, visible_center_bounds, ModeTransition, ViewMode};
use cube_viewer::cube_grid::{Axis, CubeGrid, CubeGridDims, RangeSelectionState, SelectionMode};
use cube_viewer::cube_material::hover_grid_words;
use cube_viewer::guide_line::{dim_for_axis, range_for_axis, slider_for_axis, visible_range, ShowGuideLine};
use cube_viewer::picking::{cell_of_rounded, dda_step, first_visible_on_path, is_visible, PickingState};
use cube_viewer::shared_state::SharedState;

fn state(mode: SelectionMode) -> RangeSelectionState {
    RangeSelectionState {
        x_slider: 0,
        y_slider: 2,
        z_slider: 0,
        x_min: 2,
        x_max: 3,
        y_min: 1,
        y_max: 9,
        z_min: 0,
        z_max: 1,
        mode,
        only_failbit: false,
        dirty: false,
    }
}

fn patterned(x: usize, y: usize, z: usize) -> CubeGrid {
    let data = (0..x * y * z).map(|i| (i % 3) as u8).collect();
    CubeGrid { dims: CubeGridDims { x, y, z }, data }
}

#[test]
fn section_orientations() {
    assert_eq!(ViewMode::ThreeD.section_orientation(), ((0, 0, -1), (0, 1, 0)));
    assert_eq!(ViewMode::SectionX.section_orientation(), ((-1, 0, 0), (0, 1, 0)));
    assert_eq!(ViewMode::SectionY.section_orientation(), ((0, 0, -1), (0, 1, 0)));
    assert_eq!(ViewMode::SectionZ.section_orientation(), ((0, -1, 0), (0, 0, 1)));
    for m in [ViewMode::ThreeD, ViewMode::SectionX, ViewMode::SectionY, ViewMode::SectionZ] {
        let (f, u) = m.section_orientation();
        assert_eq!(f.0 * u.0 + f.1 * u.1 + f.2 * u.2, 0);
    }
    assert_eq!(ViewMode::default(), ViewMode::ThreeD);
}

#[test]
fn center_bounds_per_mode() {
    let d = CubeGridDims { x: 5, y: 6, z: 7 };
    let b = visible_center_bounds(&state(SelectionMode::Section), d);
    assert_eq!(b, ((0, 4), (1, 1), (0, 6)));
    let b = visible_center_bounds(&state(SelectionMode::Range), d);
    assert_eq!(b, ((1, 2), (0, 5), (0, 0)));
}

#[test]
fn guide_range_matches_center_bounds() {
    let d = CubeGridDims { x: 5, y: 6, z: 7 };
    for mode in [SelectionMode::Section, SelectionMode::Range] {
        let s = state(mode);
        let b = visible_center_bounds(&s, d);
        assert_eq!(visible_range(&s, Axis::X, d), b.0);
        assert_eq!(visible_range(&s, Axis::Y, d), b.1);
        assert_eq!(visible_range(&s, Axis::Z, d), b.2);
    }
    assert_eq!(dim_for_axis(d, Axis::Z), 7);
    assert_eq!(slider_for_axis(&state(SelectionMode::Section), Axis::Y), 2);
    assert_eq!(range_for_axis(&state(SelectionMode::Range), Axis::X), (2, 3));
    assert!(ShowGuideLine::default().0);
}

#[test]
fn camera_frame_plans() {
    let d = CubeGridDims { x: 4, y: 9, z: 2 };
    let mut prev = None;
    let p = plan_camera_frame(&mut prev, ViewMode::ThreeD, true, false, d);
    assert_eq!(p.transition, ModeTransition::ReturnedToOrbit);
    assert!(p.drag);
    assert_eq!(prev, Some(ViewMode::ThreeD));
    let p = plan_camera_frame(&mut prev, ViewMode::ThreeD, true, true, d);
    assert_eq!(p.transition, ModeTransition::Unchanged);
    assert!(!p.drag);
    let p = plan_camera_frame(&mut prev, ViewMode::SectionX, false, false, d);
    assert_eq!(p.transition, ModeTransition::EnteredSection);
    assert_eq!(p.section_extent, Some(9));
    let p = plan_camera_frame(&mut prev, ViewMode::SectionY, false, false, d);
    assert_eq!(p.section_extent, Some(4));
    let p = plan_camera_frame(&mut prev, ViewMode::SectionZ, false, false, d);
    assert_eq!(p.section_extent, Some(9));
    assert_eq!(prev, Some(ViewMode::SectionZ));
}

#[test]
fn visibility_of_cells() {
    let g = patterned(3, 3, 3);
    let mut s = state(SelectionMode::Section);
    assert!(is_visible(0, 1, 2, &s, &g));
    assert!(!is_visible(0, 0, 2, &s, &g));
    s.mode = SelectionMode::Range;
    assert!(is_visible(1, 2, 0, &s, &g));
    assert!(!is_visible(0, 2, 0, &s, &g));
    s.only_failbit = true;
    // value at (1, 0, 0) is 1, at (2, 0, 0) is 2
    assert!(is_visible(1, 0, 0, &s, &g));
    assert!(!is_visible(2, 0, 0, &s, &g));
}

#[test]
fn rounded_coordinates_inside_and_outside() {
    let d = CubeGridDims { x: 3, y: 4, z: 5 };
    assert_eq!(cell_of_rounded(d, 2, 3, 4), Some((2, 3, 4)));
    assert_eq!(cell_of_rounded(d, 3, 0, 0), None);
    assert_eq!(cell_of_rounded(d, 0, -1, 0), None);
    assert_eq!(cell_of_rounded(d, 0, 0, 5), None);
}

#[test]
fn steps_stop_at_the_border() {
    let d = CubeGridDims { x: 3, y: 3, z: 3 };
    assert_eq!(dda_step(d, (1, 1, 1), Axis::X, (true, true, true)), Some((2, 1, 1)));
    assert_eq!(dda_step(d, (2, 1, 1), Axis::X, (true, true, true)), None);
    assert_eq!(dda_step(d, (1, 0, 1), Axis::Y, (true, false, true)), None);
    assert_eq!(dda_step(d, (1, 1, 1), Axis::Z, (true, true, false)), Some((1, 1, 0)));
}

#[test]
fn walk_returns_first_visible_cell() {
    let g = patterned(4, 4, 4);
    let mut s = state(SelectionMode::Range);
    s.x_min = 3;
    s.x_max = 4;
    s.y_max = 4;
    s.z_max = 4;
    let moves = vec![Axis::X, Axis::Y, Axis::X, Axis::X];
    assert_eq!(first_visible_on_path(&g, &s, (0, 0, 0), &moves, (true, true, true)), Some((2, 1, 0)));
    s.x_min = 1;
    assert_eq!(first_visible_on_path(&g, &s, (0, 0, 0), &moves, (true, true, true)), Some((0, 0, 0)));
    s.x_min = 4;
    // leaves the grid after (3, 1, 0)
    assert_eq!(first_visible_on_path(&g, &s, (0, 0, 0), &moves, (true, true, true)), Some((3, 1, 0)));
    s.only_failbit = true;
    // (3, 1, 0) has index 7, value 1
    assert_eq!(first_visible_on_path(&g, &s, (0, 0, 0), &moves, (true, true, true)), Some((3, 1, 0)));
    assert_eq!(first_visible_on_path(&g, &s, (0, 0, 0), &vec![Axis::Y], (true, true, true)), None);
    assert!(PickingState::default().hovered_cube.is_none());
}

#[test]
fn hover_words() {
    assert_eq!(hover_grid_words(Some((3, 4, 5))), [3, 4, 5, 1]);
    assert_eq!(hover_grid_words(None), [0, 0, 0, 0]);
}

#[test]
fn shared_state_defaults() {
    let s = SharedState::default();
    assert_eq!(*s.selected.lock().unwrap(), None);
    assert_eq!(*s.requested_xyz.lock().unwrap(), (5, 5, 5));
}
