//! The window's pixel dimensions, shared with every system that needs
//! screen space.

use vstd::prelude::*;

verus! {

#[derive(Debug, Clone, Copy, PartialEq, Eq, Structural)]
pub struct WindowDim {
    pub width: u32,
    pub height: u32,
}

impl WindowDim {
    pub fn new(width: u32, height: u32) -> (d: WindowDim)
        ensures
            d == (WindowDim { width, height }),
    {
        WindowDim { width, height }
    }

    pub fn resize(&mut self, width: u32, height: u32)
        ensures
            *final(self) == (WindowDim { width, height }),
    {
        self.width = width;
        self.height = height;
    }
}

} // verus!
