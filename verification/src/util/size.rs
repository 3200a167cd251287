use vstd::prelude::*;

verus! {

/// Width and height of a bounding box, in cells.
#[derive(PartialEq, Eq, Structural, Hash, Copy, Clone, Debug)]
pub struct Size {
    pub width: u16,
    pub height: u16,
}

impl Size {
    pub fn new(width: u16, height: u16) -> (r: Size)
        ensures
            r.width == width,
            r.height == height,
    {
        Size { width, height }
    }

    /// A box with no cells: nothing of it is ever drawn.
    pub open spec fn is_empty(self) -> bool {
        self.width == 0 || self.height == 0
    }
}

impl Default for Size {
    fn default() -> (r: Size)
        ensures
            r.width == 0,
            r.height == 0,
    {
        Size { width: 0, height: 0 }
    }
}

} // verus!
