//! Pixel coordinates and extents, before any scaling for display.
use vstd::prelude::*;

verus! {

/// The integer type that all unscaled coordinates are made of.
pub type Inner = u16;

/// Widens a byte to the coordinate type.
pub fn inner_from_u8(byte: u8) -> (res: Inner)
    ensures
        res == byte,
{
    byte as Inner
}

/// A horizontal position, in pixels.
#[derive(Copy, Clone, Default, Debug, PartialEq, Eq, PartialOrd, Ord, Structural)]
pub struct X(pub Inner);

/// A vertical position, in pixels.
#[derive(Copy, Clone, Default, Debug, PartialEq, Eq, PartialOrd, Ord, Structural)]
pub struct Y(pub Inner);

/// A horizontal extent, in pixels.
#[derive(Copy, Clone, Default, Debug, PartialEq, Eq, PartialOrd, Ord, Structural)]
pub struct W(pub Inner);

/// A vertical extent, in pixels.
#[derive(Copy, Clone, Default, Debug, PartialEq, Eq, PartialOrd, Ord, Structural)]
pub struct H(pub Inner);

impl X {
    pub fn get(self) -> (res: Inner)
        ensures
            res == self.0,
    {
        self.0
    }

    /// Moves right by `w`, stopping at the largest representable position.
    pub fn saturating_add(self, w: W) -> (res: X)
        ensures
            res.0 == if self.0 + w.0 > Inner::MAX { Inner::MAX as int } else { self.0 + w.0 },
    {
        X(self.0.saturating_add(w.0))
    }

    /// Moves left by `w`, stopping at zero.
    pub fn saturating_sub(self, w: W) -> (res: X)
        ensures
            res.0 == if self.0 < w.0 { 0 } else { self.0 - w.0 },
    {
        X(self.0.saturating_sub(w.0))
    }

    /// The distance from `x` to `self`, or zero if `x` is to the right of `self`.
    pub fn saturating_point_sub(self, x: X) -> (res: W)
        ensures
            res.0 == if self.0 < x.0 { 0 } else { self.0 - x.0 },
    {
        W(self.0.saturating_sub(x.0))
    }
}

impl Y {
    pub fn get(self) -> (res: Inner)
        ensures
            res == self.0,
    {
        self.0
    }

    /// Moves down by `h`, stopping at the largest representable position.
    pub fn saturating_add(self, h: H) -> (res: Y)
        ensures
            res.0 == if self.0 + h.0 > Inner::MAX { Inner::MAX as int } else { self.0 + h.0 },
    {
        Y(self.0.saturating_add(h.0))
    }

    /// Moves up by `h`, stopping at zero.
    pub fn saturating_sub(self, h: H) -> (res: Y)
        ensures
            res.0 == if self.0 < h.0 { 0 } else { self.0 - h.0 },
    {
        Y(self.0.saturating_sub(h.0))
    }

    /// The distance from `y` to `self`, or zero if `y` is below `self`.
    pub fn saturating_point_sub(self, y: Y) -> (res: H)
        ensures
            res.0 == if self.0 < y.0 { 0 } else { self.0 - y.0 },
    {
        H(self.0.saturating_sub(y.0))
    }
}

impl W {
    pub fn get(self) -> (res: Inner)
        ensures
            res == self.0,
    {
        self.0
    }

    /// Shrinks by `other`, stopping at zero.
    pub fn saturating_sub(self, other: W) -> (res: W)
        ensures
            res.0 == if self.0 < other.0 { 0 } else { self.0 - other.0 },
    {
        W(self.0.saturating_sub(other.0))
    }
}

impl H {
    pub fn get(self) -> (res: Inner)
        ensures
            res == self.0,
    {
        self.0
    }

    /// Shrinks by `other`, stopping at zero.
    pub fn saturating_sub(self, other: H) -> (res: H)
        ensures
            res.0 == if self.0 < other.0 { 0 } else { self.0 - other.0 },
    {
        H(self.0.saturating_sub(other.0))
    }
}

pub fn w_to_usize(w: W) -> (res: usize)
    ensures
        res == w.0,
{
    w.0 as usize
}

pub fn h_to_usize(h: H) -> (res: usize)
    ensures
        res == h.0,
{
    h.0 as usize
}

pub fn w_const_add(a: W, b: W) -> (res: W)
    requires
        a.0 + b.0 <= Inner::MAX,
    ensures
        res.0 == a.0 + b.0,
{
    W(a.0 + b.0)
}

pub fn w_const_sub(a: W, b: W) -> (res: W)
    requires
        a.0 >= b.0,
    ensures
        res.0 == a.0 - b.0,
{
    W(a.0 - b.0)
}

pub fn w_const_mul(a: W, b: Inner) -> (res: W)
    requires
        a.0 * b <= Inner::MAX,
    ensures
        res.0 == a.0 * b,
{
    W(a.0 * b)
}

pub fn w_const_div(a: W, b: Inner) -> (res: W)
    requires
        b != 0,
    ensures
        res.0 == a.0 / b,
{
    W(a.0 / b)
}

pub fn h_const_add(a: H, b: H) -> (res: H)
    requires
        a.0 + b.0 <= Inner::MAX,
    ensures
        res.0 == a.0 + b.0,
{
    H(a.0 + b.0)
}

pub fn h_const_sub(a: H, b: H) -> (res: H)
    requires
        a.0 >= b.0,
    ensures
        res.0 == a.0 - b.0,
{
    H(a.0 - b.0)
}

pub fn h_const_mul(a: H, b: Inner) -> (res: H)
    requires
        a.0 * b <= Inner::MAX,
    ensures
        res.0 == a.0 * b,
{
    H(a.0 * b)
}

pub fn h_const_div(a: H, b: Inner) -> (res: H)
    requires
        b != 0,
    ensures
        res.0 == a.0 / b,
{
    H(a.0 / b)
}

pub fn x_const_add_w(x: X, w: W) -> (res: X)
    requires
        x.0 + w.0 <= Inner::MAX,
    ensures
        res.0 == x.0 + w.0,
{
    X(x.0 + w.0)
}

pub fn y_const_add_h(y: Y, h: H) -> (res: Y)
    requires
        y.0 + h.0 <= Inner::MAX,
    ensures
        res.0 == y.0 + h.0,
{
    Y(y.0 + h.0)
}

/// A point.
#[derive(Clone, Copy, Default, Debug, PartialEq, Eq, Structural)]
pub struct XY {
    pub x: X,
    pub y: Y,
}

/// A pair of extents.
#[derive(Clone, Copy, Debug, PartialEq, Eq, Structural)]
pub struct WH {
    pub w: W,
    pub h: H,
}

/// A rectangle given by its top left corner and its extents.
#[derive(Clone, Copy, Debug, PartialEq, Eq, Structural)]
pub struct Rect {
    pub x: X,
    pub y: Y,
    pub w: W,
    pub h: H,
}

impl Rect {
    /// The top left corner.
    pub fn xy(self) -> (res: XY)
        ensures
            res.x == self.x,
            res.y == self.y,
    {
        XY { x: self.x, y: self.y }
    }

    /// The extents.
    pub fn wh(self) -> (res: WH)
        ensures
            res.w == self.w,
            res.h == self.h,
    {
        WH { w: self.w, h: self.h }
    }

    /// The rectangle with the given corner and extents.
    pub fn xy_wh(xy: XY, wh: WH) -> (res: Rect)
        ensures
            res.x == xy.x,
            res.y == xy.y,
            res.w == wh.w,
            res.h == wh.h,
    {
        Rect { x: xy.x, y: xy.y, w: wh.w, h: wh.h }
    }
}

} // verus!
