pub mod camera;
pub mod cube_grid;
pub mod cube_material;
pub mod guide_line;
pub mod picking;
pub mod random;
pub mod shared_state;
pub mod ui;
