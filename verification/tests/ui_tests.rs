use cube_viewer::camera::ViewMode;
use cube_viewer::cube_grid::{
    compute_visible_instances, CubeGrid, CubeGridDims, RangeSelectionState, SelectionMode,
};
use cube_viewer::ui::{
    button_shade, handle_esc, mode_layout, on_slider_changed, on_view_button_changed,
    range_slider_value, visible_cube_count, ButtonShade, RangeSliderAxis, SliderAxis, SliderChange,
    ViewButtonAxis,
};

fn base() -> RangeSelectionState {
    RangeSelectionState {
        x_slider: 0,
        y_slider: 0,
        z_slider: 0,
        x_min: 1,
        x_max: 10,
        y_min: 1,
        y_max: 10,
        z_min: 1,
        z_max: 10,
        mode: SelectionMode::Range,
        only_failbit: false,
        dirty: false,
    }
}

fn section(axis: SliderAxis, value: u32) -> SliderChange {
    SliderChange { section: Some(axis), range: None, value }
}

fn range(axis: RangeSliderAxis, value: u32) -> SliderChange {
    SliderChange { section: None, range: Some(axis), value }
}

fn patterned(x: usize, y: usize, z: usize) -> CubeGrid {
    let data = (0..x * y * z).map(|i| (i % 3) as u8).collect();
    CubeGrid { dims: CubeGridDims { x, y, z }, data }
}

#[test]
fn first_slider_report_only_arms_the_system() {
    let mut s = base();
    let mut ready = false;
    on_slider_changed(&mut s, &mut ready, &vec![section(SliderAxis::X, 5)]);
    assert!(ready);
    assert_eq!(s.x_slider, 0);
    assert!(!s.dirty);
    on_slider_changed(&mut s, &mut ready, &vec![section(SliderAxis::X, 5)]);
    assert_eq!(s.x_slider, 5);
    assert!(s.dirty);
}

#[test]
fn same_value_changes_nothing() {
    let mut s = base();
    assert!(!s.apply_section_slider(SliderAxis::Y, 0));
    assert!(!s.apply_range_slider(RangeSliderAxis::ZMax, 10));
    assert!(!s.dirty);
    assert!(s.apply_section_slider(SliderAxis::Z, 3));
    assert_eq!(s.z_slider, 3);
    assert!(s.dirty);
}

#[test]
fn raising_min_above_max_drags_max_up() {
    let mut s = base();
    s.x_max = 4;
    assert!(s.apply_range_slider(RangeSliderAxis::XMin, 7));
    assert_eq!((s.x_min, s.x_max), (7, 7));
    assert!(s.dirty);
}

#[test]
fn lowering_max_below_min_drags_min_down() {
    let mut s = base();
    s.y_min = 6;
    assert!(s.apply_range_slider(RangeSliderAxis::YMax, 2));
    assert_eq!((s.y_min, s.y_max), (2, 2));
}

#[test]
fn min_below_max_leaves_max() {
    let mut s = base();
    assert!(s.apply_range_slider(RangeSliderAxis::ZMin, 3));
    assert_eq!((s.z_min, s.z_max), (3, 10));
}

#[test]
fn changes_apply_in_order_and_keep_ranges_ordered() {
    let mut s = base();
    let mut ready = true;
    let changes = vec![
        range(RangeSliderAxis::XMin, 8),
        range(RangeSliderAxis::XMax, 3),
        range(RangeSliderAxis::YMax, 5),
        section(SliderAxis::X, 2),
    ];
    on_slider_changed(&mut s, &mut ready, &changes);
    assert_eq!((s.x_min, s.x_max), (3, 3));
    assert_eq!((s.y_min, s.y_max), (1, 5));
    assert_eq!(s.x_slider, 2);
    assert!(s.x_min <= s.x_max && s.y_min <= s.y_max && s.z_min <= s.z_max);
}

#[test]
fn range_slider_shows_state_value() {
    let mut s = base();
    s.apply_range_slider(RangeSliderAxis::XMin, 9);
    assert_eq!(range_slider_value(&s, RangeSliderAxis::XMin), 9);
    assert_eq!(range_slider_value(&s, RangeSliderAxis::XMax), 10);
    s.apply_range_slider(RangeSliderAxis::XMax, 4);
    assert_eq!(range_slider_value(&s, RangeSliderAxis::XMin), 4);
    assert_eq!(range_slider_value(&s, RangeSliderAxis::ZMin), 1);
}

#[test]
fn range_to_section_keeps_values() {
    let d = CubeGridDims { x: 10, y: 10, z: 10 };
    let mut s = base();
    s.x_min = 3;
    s.toggle_mode(d);
    assert_eq!(s.mode, SelectionMode::Section);
    assert!(s.dirty);
    assert_eq!((s.x_min, s.x_max), (3, 10));
}

#[test]
fn section_to_range_seeds_ranges_from_sliders() {
    let d = CubeGridDims { x: 4, y: 5, z: 6 };
    let g = patterned(4, 5, 6);
    let mut s = base();
    s.mode = SelectionMode::Section;
    s.x_slider = 2;
    s.z_slider = 6;
    let before = compute_visible_instances(&g, &s);
    s.toggle_mode(d);
    assert_eq!(s.mode, SelectionMode::Range);
    assert_eq!((s.x_min, s.x_max), (2, 2));
    assert_eq!((s.y_min, s.y_max), (0, 5));
    assert_eq!((s.z_min, s.z_max), (6, 6));
    assert_eq!(compute_visible_instances(&g, &s), before);
    s.toggle_mode(d);
    assert_eq!(s.mode, SelectionMode::Section);
    assert_eq!((s.x_slider, s.y_slider, s.z_slider), (2, 0, 6));
}

#[test]
fn failbit_checkbox_sets_filter() {
    let mut s = base();
    s.set_only_failbit(true);
    assert!(s.only_failbit && s.dirty);
    s.set_only_failbit(false);
    assert!(!s.only_failbit);
}

#[test]
fn mode_layout_shows_active_panel() {
    let l = mode_layout(SelectionMode::Section);
    assert!(l.section_panel_visible && !l.range_panel_visible && l.offers_range);
    let l = mode_layout(SelectionMode::Range);
    assert!(!l.section_panel_visible && l.range_panel_visible && !l.offers_range);
}

#[test]
fn last_view_button_press_wins() {
    let mut m = ViewMode::ThreeD;
    on_view_button_changed(&mut m, &vec![]);
    assert_eq!(m, ViewMode::ThreeD);
    on_view_button_changed(&mut m, &vec![ViewButtonAxis::X, ViewButtonAxis::Z]);
    assert_eq!(m, ViewMode::SectionZ);
    on_view_button_changed(&mut m, &vec![ViewButtonAxis::Y]);
    assert_eq!(m, ViewMode::SectionY);
    on_view_button_changed(&mut m, &vec![ViewButtonAxis::ThreeD]);
    assert_eq!(m, ViewMode::ThreeD);
}

#[test]
fn button_shades() {
    assert_eq!(button_shade(ViewMode::SectionX, ViewButtonAxis::X, false), ButtonShade::Active);
    assert_eq!(button_shade(ViewMode::SectionX, ViewButtonAxis::X, true), ButtonShade::Active);
    assert_eq!(button_shade(ViewMode::SectionX, ViewButtonAxis::Y, true), ButtonShade::Hovered);
    assert_eq!(button_shade(ViewMode::SectionX, ViewButtonAxis::ThreeD, false), ButtonShade::Inactive);
    let active = [ViewButtonAxis::ThreeD, ViewButtonAxis::X, ViewButtonAxis::Y, ViewButtonAxis::Z]
        .iter()
        .filter(|a| button_shade(ViewMode::ThreeD, **a, false) == ButtonShade::Active)
        .count();
    assert_eq!(active, 1);
}

#[test]
fn esc_in_section_mode_shows_everything() {
    let d = CubeGridDims { x: 4, y: 5, z: 6 };
    let mut s = base();
    s.mode = SelectionMode::Section;
    s.x_slider = 2;
    s.z_slider = 6;
    s.only_failbit = true;
    let mut orbit = true;
    let mut guide = false;
    let a = handle_esc(&mut s, d, &mut orbit, &mut guide, Some(true), Some(false), Some(false));
    assert_eq!((s.x_slider, s.y_slider, s.z_slider), (0, 0, 0));
    assert!(!s.only_failbit && s.dirty);
    assert_eq!((s.x_min, s.x_max), (1, 10));
    assert!(!orbit && guide);
    assert!(a.uncheck_failbit && !a.uncheck_orbit && a.check_guide);
}

#[test]
fn esc_in_range_mode_spans_every_layer() {
    let d = CubeGridDims { x: 4, y: 5, z: 6 };
    let mut s = base();
    s.x_min = 2;
    s.x_max = 3;
    let mut orbit = false;
    let mut guide = true;
    let a = handle_esc(&mut s, d, &mut orbit, &mut guide, None, Some(true), Some(true));
    assert_eq!((s.x_min, s.x_max, s.y_min, s.y_max, s.z_min, s.z_max), (0, 4, 0, 5, 0, 6));
    assert!(!a.uncheck_failbit && a.uncheck_orbit && !a.check_guide);
    let g = patterned(4, 5, 6);
    assert_eq!(compute_visible_instances(&g, &s).len(), 120);
}

#[test]
fn count_matches_drawn_cubes() {
    let g = patterned(4, 3, 2);
    let mut s = base();
    s.mode = SelectionMode::Section;
    assert_eq!(visible_cube_count(&g, &s), 24);
    s.x_slider = 3;
    assert_eq!(visible_cube_count(&g, &s), 6);
    s.only_failbit = true;
    assert_eq!(visible_cube_count(&g, &s), compute_visible_instances(&g, &s).len());
    s.mode = SelectionMode::Range;
    s.x_min = 2;
    s.x_max = 3;
    s.only_failbit = false;
    assert_eq!(visible_cube_count(&g, &s), 2 * 3 * 2);
    assert_eq!(visible_cube_count(&g, &s), compute_visible_instances(&g, &s).len());
    s.only_failbit = true;
    let n = visible_cube_count(&g, &s);
    assert_eq!(n, compute_visible_instances(&g, &s).len());
    assert_eq!(n, 4);
}
