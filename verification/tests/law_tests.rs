use cube_viewer::camera::bounds_are_defined;
use cube_viewer::cube_grid::{
    compute_visible_instances, CubeGrid, CubeGridDims, RangeSelectionState, SelectionMode,
};
use cube_viewer::guide_line::visible_range;
use cube_viewer::picking::is_visible;
use cube_viewer::ui::{count_is_defined, checkbox_shade, visible_cube_count, ButtonShade};
use cube_viewer::cube_grid::Axis;

fn patterned(x: usize, y: usize, z: usize) -> CubeGrid {
    let data = (0..x * y * z).map(|i| ((i * 7 + i / 5) % 3) as u8).collect();
    CubeGrid { dims: CubeGridDims { x, y, z }, data }
}

fn states() -> Vec<RangeSelectionState> {
    let base = RangeSelectionState {
        x_slider: 0,
        y_slider: 0,
        z_slider: 0,
        x_min: 1,
        x_max: 4,
        y_min: 1,
        y_max: 3,
        z_min: 1,
        z_max: 3,
        mode: SelectionMode::Section,
        only_failbit: false,
        dirty: false,
    };
    let mut v = Vec::new();
    for failbit in [false, true] {
        let mut s = base;
        s.only_failbit = failbit;
        v.push(s);
        s.x_slider = 2;
        s.z_slider = 3;
        v.push(s);
        let mut r = base;
        r.only_failbit = failbit;
        r.mode = SelectionMode::Range;
        r.x_min = 2;
        r.x_max = 3;
        r.y_min = 0;
        r.y_max = 2;
        v.push(r);
        r.z_min = 3;
        r.z_max = 3;
        v.push(r);
    }
    v
}

#[test]
fn picking_agrees_with_drawing() {
    let g = patterned(4, 3, 3);
    for s in states() {
        let drawn = compute_visible_instances(&g, &s);
        for z in 0..3 {
            for y in 0..3 {
                for x in 0..4 {
                    let listed = drawn.iter().any(|c| (c.x, c.y, c.z) == (x, y, z));
                    assert_eq!(is_visible(x, y, z, &s, &g), listed);
                }
            }
        }
    }
}

#[test]
fn count_equals_number_drawn() {
    let g = patterned(4, 3, 3);
    for s in states() {
        assert!(count_is_defined(&s, g.dims));
        assert_eq!(visible_cube_count(&g, &s), compute_visible_instances(&g, &s).len());
    }
}

#[test]
fn drawn_list_is_strictly_ordered() {
    let g = patterned(4, 3, 3);
    for s in states() {
        let drawn = compute_visible_instances(&g, &s);
        for w in drawn.windows(2) {
            assert!((w[0].z, w[0].y, w[0].x) < (w[1].z, w[1].y, w[1].x));
        }
    }
}

#[test]
fn guide_range_frames_drawn_cubes() {
    let g = patterned(4, 3, 3);
    for s in states() {
        let xr = visible_range(&s, Axis::X, g.dims);
        let yr = visible_range(&s, Axis::Y, g.dims);
        let zr = visible_range(&s, Axis::Z, g.dims);
        let drawn = compute_visible_instances(&g, &s);
        for c in &drawn {
            assert!(xr.0 <= c.x && c.x <= xr.1);
            assert!(yr.0 <= c.y && c.y <= yr.1);
            assert!(zr.0 <= c.z && c.z <= zr.1);
        }
        if !s.only_failbit {
            let first = drawn.first().unwrap();
            let last = drawn.last().unwrap();
            assert_eq!((first.x, first.y, first.z), (xr.0, yr.0, zr.0));
            assert_eq!((last.x, last.y, last.z), (xr.1, yr.1, zr.1));
        }
    }
}

#[test]
fn precondition_checks() {
    let g = patterned(2, 2, 2);
    assert!(g.is_well_formed());
    let bad = CubeGrid { dims: CubeGridDims { x: 2, y: 2, z: 2 }, data: vec![0; 7] };
    assert!(!bad.is_well_formed());
    let huge = CubeGrid { dims: CubeGridDims { x: usize::MAX, y: 2, z: 1 }, data: vec![] };
    assert!(!huge.is_well_formed());

    let mut s = states()[0];
    assert!(s.is_within(g.dims));
    s.x_slider = 3;
    assert!(!s.is_within(g.dims));
    s.mode = SelectionMode::Range;
    s.x_max = 40;
    assert!(s.is_within(g.dims));
    s.only_failbit = false;
    s.x_min = 3;
    s.x_max = 1;
    assert!(!count_is_defined(&s, g.dims));
    s.only_failbit = true;
    assert!(count_is_defined(&s, g.dims));

    let mut t = states()[0];
    let empty = CubeGridDims { x: 0, y: 2, z: 2 };
    assert!(!bounds_are_defined(&t, empty));
    t.x_slider = 1;
    assert!(bounds_are_defined(&t, empty));
}

#[test]
fn checkbox_shades() {
    assert_eq!(checkbox_shade(true), ButtonShade::Active);
    assert_eq!(checkbox_shade(false), ButtonShade::Inactive);
}
