//! Camera model and rasterizer.

pub mod camera;
pub mod fixed;
pub mod frame;
pub mod line;
pub mod scene;
pub mod thick_line;
