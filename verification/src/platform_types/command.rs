//! Coordinates of draw commands, clipped to the logical screen.
use vstd::prelude::*;

use super::{ARGB, sprite, unscaled};

verus! {

pub type Inner = unscaled::Inner;

/// The width of the logical screen, in pixels.
pub const WIDTH: Inner = 480;
/// The height of the logical screen, in pixels.
pub const HEIGHT: Inner = 320;

/// The number of pixels on the logical screen.
pub const LENGTH: usize = 153600;

/// The largest value that a command `X` or `W` can hold.
pub const X_MAX: Inner = 479;
/// The largest value that a command `Y` can hold.
pub const Y_MAX: Inner = 319;
/// The largest value that a command `H` can hold. (It is bounded by the width.)
pub const H_MAX: Inner = 479;

/// The value an unscaled coordinate has once clipped to `max`.
pub open spec fn clip(value: int, max: int) -> int {
    if value < max { value } else { max }
}

/// A horizontal position on the logical screen.
#[derive(Clone, Copy, Debug, Default, PartialEq, Eq, Structural)]
pub struct X(unscaled::X);

/// A vertical position on the logical screen.
#[derive(Clone, Copy, Debug, Default, PartialEq, Eq, Structural)]
pub struct Y(unscaled::Y);

/// A horizontal extent on the logical screen.
#[derive(Clone, Copy, Debug, Default, PartialEq, Eq, Structural)]
pub struct W(unscaled::W);

/// A vertical extent on the logical screen.
#[derive(Clone, Copy, Debug, Default, PartialEq, Eq, Structural)]
pub struct H(unscaled::H);

impl View for X {
    type V = int;

    closed spec fn view(&self) -> int {
        self.0.0 as int
    }
}

impl View for Y {
    type V = int;

    closed spec fn view(&self) -> int {
        self.0.0 as int
    }
}

impl View for W {
    type V = int;

    closed spec fn view(&self) -> int {
        self.0.0 as int
    }
}

impl View for H {
    type V = int;

    closed spec fn view(&self) -> int {
        self.0.0 as int
    }
}

impl X {
    #[verifier::type_invariant]
    closed spec fn inv(self) -> bool {
        self.0.0 <= X_MAX
    }

    /// The largest position on the screen.
    pub fn max() -> (res: X)
        ensures
            res@ == X_MAX,
    {
        X(unscaled::X(X_MAX))
    }

    pub fn get(self) -> (res: unscaled::X)
        ensures
            res.0 == self@,
            res.0 <= X_MAX,
    {
        proof {
            use_type_invariant(&self);
        }
        self.0
    }

    /// `x`, or the largest position on the screen if `x` lies beyond it.
    pub fn clipped(x: unscaled::X) -> (res: X)
        ensures
            res@ == clip(x.0 as int, X_MAX as int),
    {
        if x.0 < X_MAX {
            X(x)
        } else {
            X::max()
        }
    }

    pub fn clipped_inner(x: Inner) -> (res: X)
        ensures
            res@ == clip(x as int, X_MAX as int),
    {
        X::clipped(unscaled::X(x))
    }

    /// Moves right by `w`, clipping to the screen.
    pub fn add_w(self, w: W) -> (res: X)
        ensures
            res@ == clip(self@ + w@, X_MAX as int),
    {
        proof {
            use_type_invariant(&self);
            use_type_invariant(&w);
        }
        X::clipped(unscaled::X(self.0.0 + w.0.0))
    }
}

impl Y {
    #[verifier::type_invariant]
    closed spec fn inv(self) -> bool {
        self.0.0 <= Y_MAX
    }

    /// The lowest position on the screen.
    pub fn max() -> (res: Y)
        ensures
            res@ == Y_MAX,
    {
        Y(unscaled::Y(Y_MAX))
    }

    pub fn get(self) -> (res: unscaled::Y)
        ensures
            res.0 == self@,
            res.0 <= Y_MAX,
    {
        proof {
            use_type_invariant(&self);
        }
        self.0
    }

    /// `y`, or the lowest position on the screen if `y` lies beyond it.
    pub fn clipped(y: unscaled::Y) -> (res: Y)
        ensures
            res@ == clip(y.0 as int, Y_MAX as int),
    {
        if y.0 < Y_MAX {
            Y(y)
        } else {
            Y::max()
        }
    }

    pub fn clipped_inner(y: Inner) -> (res: Y)
        ensures
            res@ == clip(y as int, Y_MAX as int),
    {
        Y::clipped(unscaled::Y(y))
    }

    /// Moves down by `h`, clipping to the screen.
    pub fn add_h(self, h: H) -> (res: Y)
        ensures
            res@ == clip(self@ + h@, Y_MAX as int),
    {
        proof {
            use_type_invariant(&self);
            use_type_invariant(&h);
        }
        Y::clipped(unscaled::Y(self.0.0 + h.0.0))
    }
}

impl W {
    #[verifier::type_invariant]
    closed spec fn inv(self) -> bool {
        self.0.0 <= X_MAX
    }

    /// The widest extent on the screen.
    pub fn max() -> (res: W)
        ensures
            res@ == X_MAX,
    {
        W(unscaled::W(X_MAX))
    }

    pub fn get(self) -> (res: unscaled::W)
        ensures
            res.0 == self@,
            res.0 <= X_MAX,
    {
        proof {
            use_type_invariant(&self);
        }
        self.0
    }

    /// `w`, or the widest extent on the screen if `w` is wider.
    pub fn clipped(w: unscaled::W) -> (res: W)
        ensures
            res@ == clip(w.0 as int, X_MAX as int),
    {
        if w.0 < X_MAX {
            W(w)
        } else {
            W::max()
        }
    }

    pub fn clipped_inner(w: Inner) -> (res: W)
        ensures
            res@ == clip(w as int, X_MAX as int),
    {
        W::clipped(unscaled::W(w))
    }

    /// Scales by `inner`, clipping to the screen.
    pub fn mul(self, inner: Inner) -> (res: W)
        requires
            self@ * inner <= Inner::MAX,
        ensures
            res@ == clip(self@ * inner, X_MAX as int),
    {
        W::clipped(unscaled::W(self.get().0 * inner))
    }
}

impl H {
    #[verifier::type_invariant]
    closed spec fn inv(self) -> bool {
        self.0.0 <= H_MAX
    }

    /// The tallest extent a command can have.
    pub fn max() -> (res: H)
        ensures
            res@ == H_MAX,
    {
        H(unscaled::H(H_MAX))
    }

    pub fn get(self) -> (res: unscaled::H)
        ensures
            res.0 == self@,
            res.0 <= H_MAX,
    {
        proof {
            use_type_invariant(&self);
        }
        self.0
    }

    /// `h`, or the tallest extent a command can have if `h` is taller.
    pub fn clipped(h: unscaled::H) -> (res: H)
        ensures
            res@ == clip(h.0 as int, H_MAX as int),
    {
        if h.0 < H_MAX {
            H(h)
        } else {
            H::max()
        }
    }

    pub fn clipped_inner(h: Inner) -> (res: H)
        ensures
            res@ == clip(h as int, H_MAX as int),
    {
        H::clipped(unscaled::H(h))
    }

    /// Scales by `inner`, clipping to the screen.
    pub fn mul(self, inner: Inner) -> (res: H)
        requires
            self@ * inner <= Inner::MAX,
        ensures
            res@ == clip(self@ * inner, H_MAX as int),
    {
        H::clipped(unscaled::H(self.get().0 * inner))
    }
}

pub fn w_to_usize(w: W) -> (res: usize)
    ensures
        res == w@,
{
    w.get().0 as usize
}

pub fn h_to_usize(h: H) -> (res: usize)
    ensures
        res == h@,
{
    h.get().0 as usize
}

pub fn w_const_add(a: W, b: W) -> (res: W)
    ensures
        res@ == clip(a@ + b@, X_MAX as int),
{
    W::clipped_inner(a.get().0 + b.get().0)
}

pub fn w_const_sub(a: W, b: W) -> (res: W)
    requires
        a@ >= b@,
    ensures
        res@ == a@ - b@,
{
    W::clipped_inner(a.get().0 - b.get().0)
}

pub fn w_const_mul(a: W, b: Inner) -> (res: W)
    requires
        a@ * b <= Inner::MAX,
    ensures
        res@ == clip(a@ * b, X_MAX as int),
{
    W::clipped_inner(a.get().0 * b)
}

pub fn w_const_div(a: W, b: Inner) -> (res: W)
    requires
        b != 0,
    ensures
        res@ == a@ / (b as int),
{
    W::clipped_inner(a.get().0 / b)
}

pub fn h_const_add(a: H, b: H) -> (res: H)
    ensures
        res@ == clip(a@ + b@, H_MAX as int),
{
    H::clipped_inner(a.get().0 + b.get().0)
}

pub fn h_const_sub(a: H, b: H) -> (res: H)
    requires
        a@ >= b@,
    ensures
        res@ == a@ - b@,
{
    H::clipped_inner(a.get().0 - b.get().0)
}

pub fn h_const_mul(a: H, b: Inner) -> (res: H)
    requires
        a@ * b <= Inner::MAX,
    ensures
        res@ == clip(a@ * b, H_MAX as int),
{
    H::clipped_inner(a.get().0 * b)
}

pub fn h_const_div(a: H, b: Inner) -> (res: H)
    requires
        b != 0,
    ensures
        res@ == a@ / (b as int),
{
    H::clipped_inner(a.get().0 / b)
}

/// A rectangle on the logical screen, given by its inclusive corners.
#[derive(Clone, Copy, Debug, Default, PartialEq, Eq, Structural)]
pub struct Rect {
    pub x_min: X,
    pub y_min: Y,
    pub x_max: X,
    pub y_max: Y,
}

/// Whether an unscaled rectangle is one that `Rect::from_unscaled` accepts: its
/// far edges are representable and it is not empty along either axis.
pub open spec fn unscaled_rect_convertible(r: unscaled::Rect) -> bool {
    &&& 1 <= r.x.0 + r.w.0 <= Inner::MAX
    &&& 1 <= r.y.0 + r.h.0 <= Inner::MAX
}

impl Rect {
    /// The clipped rectangle covering the pixels of `r`.
    pub fn from_unscaled(r: unscaled::Rect) -> (res: Rect)
        requires
            unscaled_rect_convertible(r),
        ensures
            res.x_min@ == clip(r.x.0 as int, X_MAX as int),
            res.y_min@ == clip(r.y.0 as int, Y_MAX as int),
            res.x_max@ == clip(r.x.0 + r.w.0 - 1, X_MAX as int),
            res.y_max@ == clip(r.y.0 + r.h.0 - 1, Y_MAX as int),
    {
        let unscaled::Rect { x, y, w, h } = r;
        Rect {
            x_min: X::clipped(x),
            y_min: Y::clipped(y),
            x_max: X::clipped_inner(x.0 + w.0 - 1),
            y_max: Y::clipped_inner(y.0 + h.0 - 1),
        }
    }

    /// The unscaled rectangle covering the same pixels.
    pub fn unscaled(self) -> (res: unscaled::Rect)
        requires
            self.x_min@ <= self.x_max@,
            self.y_min@ <= self.y_max@,
        ensures
            res.x.0 == self.x_min@,
            res.y.0 == self.y_min@,
            res.w.0 == self.x_max@ - self.x_min@ + 1,
            res.h.0 == self.y_max@ - self.y_min@ + 1,
    {
        let Rect { x_min, y_min, x_max, y_max } = self;
        let x_min = x_min.get();
        let y_min = y_min.get();
        let x_max = x_max.get();
        let y_max = y_max.get();
        unscaled::Rect {
            x: x_min,
            y: y_min,
            w: unscaled::W(x_max.0 - x_min.0 + 1),
            h: unscaled::H(y_max.0 - y_min.0 + 1),
        }
    }
}

/// Converting a well-ordered clipped rectangle to unscaled form and back gives
/// the same rectangle.
pub proof fn lemma_from_unscaled_of_unscaled(r: Rect)
    requires
        r.x_min@ <= r.x_max@ <= X_MAX,
        r.y_min@ <= r.y_max@ <= Y_MAX,
        0 <= r.x_min@,
        0 <= r.y_min@,
    ensures
        ({
            let u = unscaled::Rect {
                x: unscaled::X(r.x_min@ as u16),
                y: unscaled::Y(r.y_min@ as u16),
                w: unscaled::W((r.x_max@ - r.x_min@ + 1) as u16),
                h: unscaled::H((r.y_max@ - r.y_min@ + 1) as u16),
            };
            &&& unscaled_rect_convertible(u)
            &&& clip(u.x.0 as int, X_MAX as int) == r.x_min@
            &&& clip(u.y.0 as int, Y_MAX as int) == r.y_min@
            &&& clip(u.x.0 + u.w.0 - 1, X_MAX as int) == r.x_max@
            &&& clip(u.y.0 + u.h.0 - 1, Y_MAX as int) == r.y_max@
        }),
{
}

/// Converting an on-screen, non-empty unscaled rectangle to clipped form and back
/// gives the same rectangle.
pub proof fn lemma_unscaled_of_from_unscaled(r: unscaled::Rect)
    requires
        r.w.0 >= 1,
        r.h.0 >= 1,
        r.x.0 + r.w.0 - 1 <= X_MAX,
        r.y.0 + r.h.0 - 1 <= Y_MAX,
    ensures
        unscaled_rect_convertible(r),
        clip(r.x.0 as int, X_MAX as int) == r.x.0,
        clip(r.y.0 as int, Y_MAX as int) == r.y.0,
        clip(r.x.0 + r.w.0 - 1, X_MAX as int) - clip(r.x.0 as int, X_MAX as int) + 1 == r.w.0,
        clip(r.y.0 + r.h.0 - 1, Y_MAX as int) - clip(r.y.0 as int, Y_MAX as int) + 1 == r.h.0,
{
}

/// Two positions are equal exactly when their values are.
pub proof fn lemma_x_eq(a: X, b: X)
    ensures
        (a == b) == (a@ == b@),
{
}

/// Two positions are equal exactly when their values are.
pub proof fn lemma_y_eq(a: Y, b: Y)
    ensures
        (a == b) == (a@ == b@),
{
}

/// A request to draw a rectangle of the sprite sheet on the screen.
#[derive(Clone, Copy, Debug, Default)]
pub struct Command {
    pub rect: Rect,
    pub sprite_xy: sprite::XY,
    pub colour_override: ARGB,
}

} // verus!
