//! Positions within the sprite sheet.
use vstd::prelude::*;

pub use super::unscaled::{W, H};

verus! {

pub type Inner = u16;

/// A horizontal position in the sprite sheet.
#[derive(Clone, Copy, Debug, Default, PartialEq, Eq, Structural)]
pub struct X(pub Inner);

/// A vertical position in the sprite sheet.
#[derive(Clone, Copy, Debug, Default, PartialEq, Eq, Structural)]
pub struct Y(pub Inner);

pub fn x_const_add_w(x: X, w: W) -> (res: X)
    requires
        x.0 + w.0 <= Inner::MAX,
    ensures
        res.0 == x.0 + w.0,
{
    X(x.0 + w.0)
}

pub fn y_const_add_h(y: Y, h: H) -> (res: Y)
    requires
        y.0 + h.0 <= Inner::MAX,
    ensures
        res.0 == y.0 + h.0,
{
    Y(y.0 + h.0)
}

/// A point in the sprite sheet.
#[derive(Clone, Copy, Debug, Default, PartialEq, Eq, Structural)]
pub struct XY {
    pub x: X,
    pub y: Y,
}

impl XY {
    /// Moves right by `w`.
    pub fn add_w(self, w: W) -> (res: XY)
        requires
            self.x.0 + w.0 <= Inner::MAX,
        ensures
            res.x.0 == self.x.0 + w.0,
            res.y == self.y,
    {
        XY { x: X(self.x.0 + w.0), y: self.y }
    }

    /// Moves down by `h`.
    pub fn add_h(self, h: H) -> (res: XY)
        requires
            self.y.0 + h.0 <= Inner::MAX,
        ensures
            res.x == self.x,
            res.y.0 == self.y.0 + h.0,
    {
        XY { x: self.x, y: Y(self.y.0 + h.0) }
    }
}

} // verus!
