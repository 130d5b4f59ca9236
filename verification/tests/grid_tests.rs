use cube_viewer::cube_grid::{
    compute_visible_instances, cube_color, CellInstance, CubeColor, CubeGrid, CubeGridDims,
    RangeSelectionState, SelectionMode, DIM_X, DIM_Y, DIM_Z,
};

fn dims(x: usize, y: usize, z: usize) -> CubeGridDims {
    CubeGridDims { x, y, z }
}

/// A grid whose value at each cell is its linear index modulo 3.
fn patterned(d: CubeGridDims) -> CubeGrid {
    let data = (0..d.x * d.y * d.z).map(|i| (i % 3) as u8).collect();
    CubeGrid { dims: d, data }
}

fn all_state(d: CubeGridDims) -> RangeSelectionState {
    RangeSelectionState {
        x_slider: 0,
        y_slider: 0,
        z_slider: 0,
        x_min: 1,
        x_max: d.x as u32,
        y_min: 1,
        y_max: d.y as u32,
        z_min: 1,
        z_max: d.z as u32,
        mode: SelectionMode::Section,
        only_failbit: false,
        dirty: false,
    }
}

fn coords(v: &[CellInstance]) -> Vec<(usize, usize, usize)> {
    v.iter().map(|c| (c.x, c.y, c.z)).collect()
}

#[test]
fn total_multiplies_the_three_sizes() {
    assert_eq!(dims(2, 3, 4).total(), 24);
    assert_eq!(dims(1, 1, 1).total(), 1);
    assert_eq!(dims(5, 0, 7).total(), 0);
}

#[test]
fn default_dims_and_constants() {
    let d = CubeGridDims::default();
    assert_eq!((d.x, d.y, d.z), (64, 1024, 16));
    assert_eq!((DIM_X, DIM_Y, DIM_Z), (64, 1024, 16));
    assert_eq!(d.total(), 1_048_576);
}

#[test]
fn index_is_x_plus_row_plus_layer() {
    let g = patterned(dims(3, 4, 5));
    assert_eq!(g.index(0, 0, 0), 0);
    assert_eq!(g.index(1, 2, 3), 1 + 2 * 3 + 3 * 12);
    assert_eq!(g.index(2, 3, 4), 59);
}

#[test]
fn index_is_a_bijection_onto_the_data() {
    let g = patterned(dims(3, 4, 5));
    let mut seen = vec![false; 60];
    for z in 0..5 {
        for y in 0..4 {
            for x in 0..3 {
                let i = g.index(x, y, z);
                assert!(i < 60);
                assert!(!seen[i]);
                seen[i] = true;
            }
        }
    }
    assert!(seen.iter().all(|b| *b));
}

#[test]
fn get_reads_the_indexed_byte() {
    let g = patterned(dims(3, 4, 5));
    assert_eq!(g.get(1, 2, 3), (43 % 3) as u8);
    assert_eq!(g.get(2, 0, 0), 2);
}

#[test]
fn set_then_get_returns_written_value_and_keeps_others() {
    let mut g = patterned(dims(3, 4, 5));
    let before = g.data.clone();
    g.set(1, 2, 3, 7);
    assert_eq!(g.get(1, 2, 3), 7);
    for i in 0..60 {
        if i != 43 {
            assert_eq!(g.data[i], before[i]);
        }
    }
    assert_eq!(g.dims.x, 3);
}

#[test]
fn default_grid_is_full_size_with_values_below_three() {
    let g = CubeGrid::default();
    assert_eq!(g.data.len(), 1_048_576);
    assert!(g.data.iter().all(|v| *v < 3));
    // a million random draws from {0, 1, 2} are not all the same
    assert!(g.data.iter().any(|v| *v != g.data[0]));
}

#[test]
fn default_selection_state() {
    let s = RangeSelectionState::default();
    assert_eq!((s.x_slider, s.y_slider, s.z_slider), (0, 0, 0));
    assert_eq!((s.x_min, s.y_min, s.z_min), (0, 0, 0));
    assert_eq!((s.x_max, s.y_max, s.z_max), (64, 1024, 16));
    assert_eq!(s.mode, SelectionMode::Section);
    assert!(!s.only_failbit);
    assert!(s.dirty);
    assert_eq!(SelectionMode::default(), SelectionMode::Section);
}

#[test]
fn colors_of_values() {
    assert_eq!(cube_color(0), CubeColor::White);
    assert_eq!(cube_color(1), CubeColor::Red);
    assert_eq!(cube_color(2), CubeColor::Gray);
    assert_eq!(cube_color(9), CubeColor::White);
}

#[test]
fn section_all_lists_every_cube_in_z_y_x_order() {
    let d = dims(2, 2, 2);
    let g = patterned(d);
    let out = compute_visible_instances(&g, &all_state(d));
    assert_eq!(
        coords(&out),
        vec![(0, 0, 0), (1, 0, 0), (0, 1, 0), (1, 1, 0), (0, 0, 1), (1, 0, 1), (0, 1, 1), (1, 1, 1)]
    );
    for c in &out {
        assert_eq!(c.color, cube_color(g.get(c.x, c.y, c.z)));
    }
    assert_eq!(out[1].color, CubeColor::Red);
    assert_eq!(out[2].color, CubeColor::Gray);
}

#[test]
fn section_slider_selects_one_layer() {
    let d = dims(3, 2, 2);
    let g = patterned(d);
    let mut s = all_state(d);
    s.x_slider = 2;
    let out = compute_visible_instances(&g, &s);
    assert_eq!(coords(&out), vec![(1, 0, 0), (1, 1, 0), (1, 0, 1), (1, 1, 1)]);
    s.y_slider = 1;
    s.z_slider = 2;
    let out = compute_visible_instances(&g, &s);
    assert_eq!(coords(&out), vec![(1, 0, 1)]);
}

#[test]
fn range_mode_selects_the_box() {
    let d = dims(4, 3, 2);
    let g = patterned(d);
    let mut s = all_state(d);
    s.mode = SelectionMode::Range;
    s.x_min = 2;
    s.x_max = 3;
    s.y_min = 3;
    s.y_max = 3;
    let out = compute_visible_instances(&g, &s);
    assert_eq!(coords(&out), vec![(1, 2, 0), (2, 2, 0), (1, 2, 1), (2, 2, 1)]);
}

#[test]
fn range_max_beyond_axis_is_capped() {
    let d = dims(3, 1, 1);
    let g = patterned(d);
    let mut s = all_state(d);
    s.mode = SelectionMode::Range;
    s.x_min = 2;
    s.x_max = 50;
    let out = compute_visible_instances(&g, &s);
    assert_eq!(coords(&out), vec![(1, 0, 0), (2, 0, 0)]);
}

#[test]
fn range_min_zero_and_one_show_the_same() {
    let d = dims(3, 2, 2);
    let g = patterned(d);
    let mut s = all_state(d);
    s.mode = SelectionMode::Range;
    let with_one = compute_visible_instances(&g, &s);
    s.x_min = 0;
    s.y_min = 0;
    s.z_min = 0;
    let with_zero = compute_visible_instances(&g, &s);
    assert_eq!(with_one, with_zero);
    assert_eq!(with_one.len(), 12);
}

#[test]
fn range_min_above_max_shows_nothing() {
    let d = dims(4, 1, 1);
    let g = patterned(d);
    let mut s = all_state(d);
    s.mode = SelectionMode::Range;
    s.x_min = 4;
    s.x_max = 2;
    assert!(compute_visible_instances(&g, &s).is_empty());
}

#[test]
fn only_failbit_keeps_red_cubes() {
    let d = dims(3, 2, 1);
    let g = patterned(d);
    let mut s = all_state(d);
    s.only_failbit = true;
    let out = compute_visible_instances(&g, &s);
    // values by index: 0 1 2 0 1 2 -> red at indices 1 and 4
    assert_eq!(coords(&out), vec![(1, 0, 0), (1, 1, 0)]);
    assert!(out.iter().all(|c| c.color == CubeColor::Red));
}

#[test]
fn empty_axis_gives_empty_list() {
    let d = dims(0, 3, 3);
    let g = patterned(d);
    let s = all_state(d);
    assert!(compute_visible_instances(&g, &s).is_empty());
}

#[test]
fn range_max_zero_means_no_upper_limit() {
    let d = dims(3, 2, 1);
    let g = patterned(d);
    let mut s = all_state(d);
    s.mode = SelectionMode::Range;
    s.x_min = 0;
    s.x_max = 0;
    s.y_min = 2;
    s.y_max = 0;
    let out = compute_visible_instances(&g, &s);
    assert_eq!(coords(&out), vec![(0, 1, 0), (1, 1, 0), (2, 1, 0)]);
}

#[test]
fn failbit_keeps_the_red_cubes_of_the_unfiltered_list() {
    let d = dims(4, 3, 2);
    let g = patterned(d);
    let mut s = all_state(d);
    s.mode = SelectionMode::Range;
    s.x_min = 2;
    let all = compute_visible_instances(&g, &s);
    s.only_failbit = true;
    let red = compute_visible_instances(&g, &s);
    let expected: Vec<CellInstance> = all.into_iter().filter(|c| c.color == CubeColor::Red).collect();
    assert_eq!(red, expected);
    assert!(!red.is_empty());
}

#[test]
fn range_matching_section_draws_the_same() {
    let d = dims(4, 3, 2);
    let g = patterned(d);
    let mut sec = all_state(d);
    sec.x_slider = 3;
    sec.z_slider = 0;
    let mut rng = sec;
    rng.mode = SelectionMode::Range;
    rng.x_min = 3;
    rng.x_max = 3;
    rng.y_min = 1;
    rng.y_max = 0;
    rng.z_min = 0;
    rng.z_max = 9;
    assert_eq!(compute_visible_instances(&g, &rng), compute_visible_instances(&g, &sec));
}
