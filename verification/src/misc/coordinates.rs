use vstd::prelude::*;

verus! {

/// The coordinate spaces a point passes through on its way to the screen,
/// in that order.
#[derive(Debug, Clone, Copy, PartialEq, Eq)]
pub enum Coordinate {
    LocalSpace,
    WorldSpace,
    ViewSpace,
    Ndc,
    ScreenSpace,
}

} // verus!
