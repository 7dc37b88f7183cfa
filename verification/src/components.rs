pub mod camera;
pub mod geometry;
pub mod time;
