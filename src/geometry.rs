//! Points and rectangles in pixel space.
use vstd::prelude::*;

verus! {

#[derive(Clone, Copy, Debug, Default, PartialEq, Eq, Structural)]
pub struct Point {
    pub x: u32,
    pub y: u32,
}

#[derive(Clone, Copy, Debug, Default, PartialEq, Eq, Structural)]
pub struct RectSize {
    pub width: u32,
    pub height: u32,
}

/// A rectangle: its top left corner and its size.
#[derive(Clone, Copy, Debug, Default, PartialEq, Eq, Structural)]
pub struct Rect {
    pub pos: Point,
    pub size: RectSize,
}

impl Rect {
    /// The right edge has an x coordinate that fits in `u32`.
    pub open spec fn right_fits(&self) -> bool {
        self.pos.x + self.size.width <= u32::MAX
    }

    /// The bottom edge has a y coordinate that fits in `u32`.
    pub open spec fn bottom_fits(&self) -> bool {
        self.pos.y + self.size.height <= u32::MAX
    }

    pub fn top_left(&self) -> (r: Point)
        ensures
            r == self.pos,
    {
        self.pos
    }

    pub fn top_right(&self) -> (r: Point)
        requires
            self.right_fits(),
        ensures
            r == (Point { x: (self.pos.x + self.size.width) as u32, y: self.pos.y }),
    {
        let Point { x, y } = self.pos;
        Point { x: x + self.size.width, y }
    }

    pub fn bottom_right(&self) -> (r: Point)
        requires
            self.bottom_fits(),
        ensures
            r == (Point { x: self.pos.x, y: (self.pos.y + self.size.height) as u32 }),
    {
        let Point { x, y } = self.pos;
        Point { x, y: y + self.size.height }
    }

    pub fn bottom_left(&self) -> (r: Point)
        requires
            self.right_fits(),
            self.bottom_fits(),
        ensures
            r == (Point {
                x: (self.pos.x + self.size.width) as u32,
                y: (self.pos.y + self.size.height) as u32,
            }),
    {
        let Point { x, y } = self.pos;
        Point { x: x + self.size.width, y: y + self.size.height }
    }
}

} // verus!
