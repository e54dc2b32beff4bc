//! A page-position vector: the absolute pixel position of the drawable
//! region's top-left corner relative to the document origin.

use vstd::prelude::*;

verus! {

/// Immutable 2D page-position vector.  Values may be negative when the
/// container scrolls above or left of the viewport origin.
#[derive(Clone, Copy, Debug, PartialEq, Eq, Structural)]
pub struct Offset {
    pub top: i32,
    pub left: i32,
}

impl Offset {
    pub fn new(top: i32, left: i32) -> (o: Self)
        ensures
            o.top == top,
            o.left == left,
    {
        Self { top, left }
    }
}

} // verus!
