//! Rectangles of the scaled screen, as ranges of pixels.
use vstd::prelude::*;
use core::ops::Range;

verus! {

pub type X = u16;
pub type Y = u16;
pub type W = u16;
pub type H = u16;

/// The pixels `x.start..x.end` by `y.start..y.end`.
#[derive(Debug)]
pub struct Rect {
    pub x: Range<X>,
    pub y: Range<Y>,
}

impl Clone for Rect {
    fn clone(&self) -> (res: Self)
        ensures
            res.x.start == self.x.start,
            res.x.end == self.x.end,
            res.y.start == self.y.start,
            res.y.end == self.y.end,
    {
        Rect { x: self.x.start..self.x.end, y: self.y.start..self.y.end }
    }
}

impl Rect {
    pub fn width(&self) -> (res: W)
        requires
            self.x.start <= self.x.end,
        ensures
            res == self.x.end - self.x.start,
    {
        self.x.end - self.x.start
    }

    pub fn height(&self) -> (res: H)
        requires
            self.y.start <= self.y.end,
        ensures
            res == self.y.end - self.y.start,
    {
        self.y.end - self.y.start
    }

    /// Whether the pixel `(x, y)` lies in the rectangle.
    pub fn contains(&self, x: X, y: Y) -> (res: bool)
        ensures
            res == (self.x.start <= x && x < self.x.end && self.y.start <= y && y < self.y.end),
    {
        self.x.start <= x && x < self.x.end && self.y.start <= y && y < self.y.end
    }
}

} // verus!
