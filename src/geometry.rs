use vstd::prelude::*;

verus! {

/// An axis-aligned rectangle as written in an atlas descriptor.
#[derive(Clone, Copy, Debug, PartialEq, Eq, Structural)]
pub struct Rect {
    pub x: i32,
    pub y: i32,
    pub w: i32,
    pub h: i32,
}

impl Rect {
    pub fn new(x: i32, y: i32, w: i32, h: i32) -> (r: Rect)
        ensures
            r == (Rect { x, y, w, h }),
    {
        Rect { x, y, w, h }
    }
}

/// One entry of an atlas: the frame's rectangle in the shared texture and its trim margin.
#[derive(Clone, Debug)]
pub struct FrameRegion {
    pub filename: String,
    pub region: Rect,
    pub margin: Rect,
}

} // verus!
