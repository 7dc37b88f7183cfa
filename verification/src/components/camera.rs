use vstd::prelude::*;

verus! {

/// A 2D camera viewing a `width` × `height` region.
#[derive(Debug, Clone, Copy, PartialEq, Eq)]
pub struct Camera2D {
    pub width: u32,
    pub height: u32,
}

impl Camera2D {
    pub fn new(width: u32, height: u32) -> (c: Camera2D)
        ensures
            c == (Camera2D { width, height }),
    {
        Camera2D { width, height }
    }
}

impl Default for Camera2D {
    /// A 1024 × 720 camera.
    fn default() -> (c: Camera2D)
        ensures
            c == (Camera2D { width: 1024, height: 720 }),
    {
        Camera2D::new(1024, 720)
    }
}

} // verus!
