use vstd::prelude::*;

verus! {

/// Settings of the window the application opens.
#[derive(Debug, Clone, Copy, Default)]
pub struct WindowSettings {}

} // verus!
