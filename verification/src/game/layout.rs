//! Where the hands, the deck and the discard pile lie on the table.
use vstd::prelude::*;
use crate::models::{CardIndex, HandId};
use crate::platform_types::unscaled::{X, Y, XY, W, H, Inner, Rect};

verus! {

/// How a hand is laid out on the table.
#[derive(Clone, Copy, Debug, PartialEq, Eq)]
pub enum Spread {
    /// Left to right, between two horizontal edges, at a height.
    LTR((X, X), Y),
    /// Top to bottom, between two vertical edges, at a horizontal position.
    TTB((Y, Y), X),
}

/// The width of a card, in pixels.
pub const CARD_W: Inner = 74;

/// The height of a card, in pixels.
pub const CARD_H: Inner = 105;

/// Where the deck lies: centred on the table.
pub fn deck_xy() -> (res: XY)
    ensures
        res.x.0 == 203,
        res.y.0 == 107,
{
    XY { x: X(203), y: Y(107) }
}

/// Where the discard pile lies: left of the deck.
pub fn discard_xy() -> (res: XY)
    ensures
        res.x.0 == 127,
        res.y.0 == 107,
{
    XY { x: X(127), y: Y(107) }
}

/// The layout of each hand: the player at the bottom, the first cpu on the left,
/// the second at the top and the third on the right.
pub open spec fn spread_spec(id: HandId) -> Spread {
    match id {
        HandId::Player => Spread::LTR((X(92), X(406)), Y(215)),
        HandId::Cpu1 => Spread::TTB((Y(52), Y(268)), X(0)),
        HandId::Cpu2 => Spread::LTR((X(92), X(406)), Y(0)),
        HandId::Cpu3 => Spread::TTB((Y(52), Y(268)), X(406)),
    }
}

pub fn spread(id: HandId) -> (res: Spread)
    ensures
        res == spread_spec(id),
{
    match id {
        HandId::Player => Spread::LTR((X(92), X(406)), Y(215)),
        HandId::Cpu1 => Spread::TTB((Y(52), Y(268)), X(0)),
        HandId::Cpu2 => Spread::LTR((X(92), X(406)), Y(0)),
        HandId::Cpu3 => Spread::TTB((Y(52), Y(268)), X(406)),
    }
}

/// The point in front of a hand, towards the middle of the table, where a card
/// shown to everyone is placed.
pub open spec fn in_front_of_spec(id: HandId) -> XY {
    match spread_spec(id) {
        Spread::LTR((x1, x2), y) => XY {
            x: X((x1.0 + (x2.0 - x1.0) / 2 - CARD_W / 2) as u16),
            y: match id {
                HandId::Player | HandId::Cpu3 => Y((y.0 - CARD_H / 2) as u16),
                HandId::Cpu1 | HandId::Cpu2 => Y((y.0 + CARD_H / 2) as u16),
            },
        },
        Spread::TTB((y1, y2), x) => XY {
            x: match id {
                HandId::Player | HandId::Cpu3 => X((x.0 - CARD_W / 2) as u16),
                HandId::Cpu1 | HandId::Cpu2 => X((x.0 + CARD_W / 2) as u16),
            },
            y: Y((y1.0 + (y2.0 - y1.0) / 2 - CARD_H / 2) as u16),
        },
    }
}

pub fn in_front_of(id: HandId) -> (res: XY)
    ensures
        res == in_front_of_spec(id),
{
    let half_w: Inner = CARD_W / 2;
    let half_h: Inner = CARD_H / 2;
    match spread(id) {
        Spread::LTR((x1, x2), y) => XY {
            x: X(x1.0 + (x2.0 - x1.0) / 2 - half_w),
            y: match id {
                HandId::Player | HandId::Cpu3 => Y(y.0 - half_h),
                HandId::Cpu1 | HandId::Cpu2 => Y(y.0 + half_h),
            },
        },
        Spread::TTB((y1, y2), x) => XY {
            x: match id {
                HandId::Player | HandId::Cpu3 => X(x.0 - half_w),
                HandId::Cpu1 | HandId::Cpu2 => X(x.0 + half_w),
            },
            y: Y(y1.0 + (y2.0 - y1.0) / 2 - half_h),
        },
    }
}

/// `a - b`, or zero where `b` is larger.
pub open spec fn sat_sub(a: int, b: int) -> int {
    if a >= b { a - b } else { 0 }
}

/// `a + b`, or the largest coordinate where that is larger.
pub open spec fn sat_add(a: int, b: int) -> int {
    if a + b <= Inner::MAX { a + b } else { Inner::MAX as int }
}

/// How far apart neighbouring cards lie when `len` cards of extent `span` share
/// the room between `min_edge` and `max_edge`: they overlap evenly where they do
/// not fit, and lie side by side where they do.
pub open spec fn card_step(min_edge: int, max_edge: int, span: int, len: int) -> int {
    let usable = sat_sub(sat_sub(max_edge, min_edge), span);
    if usable / len < span { usable / len } else { span }
}

/// Where the card at `index` of a hand of `len` cards lies.
pub open spec fn card_position_spec(spread: Spread, len: int, index: int) -> XY {
    match spread {
        Spread::LTR((min_edge, max_edge), y) => if len == 0 {
            XY { x: min_edge, y }
        } else {
            XY {
                x: X(
                    sat_add(
                        min_edge.0 as int,
                        card_step(min_edge.0 as int, max_edge.0 as int, CARD_W as int, len) * index,
                    ) as u16,
                ),
                y,
            }
        },
        Spread::TTB((min_edge, max_edge), x) => if len == 0 {
            XY { x, y: min_edge }
        } else {
            XY {
                x,
                y: Y(
                    sat_add(
                        min_edge.0 as int,
                        card_step(min_edge.0 as int, max_edge.0 as int, CARD_H as int, len) * index,
                    ) as u16,
                ),
            }
        },
    }
}

/// The step between neighbouring cards; at most `span`.
fn step_for(min_edge: Inner, max_edge: Inner, span: Inner, len: u8) -> (res: Inner)
    requires
        len > 0,
    ensures
        res == card_step(min_edge as int, max_edge as int, span as int, len as int),
        res <= span,
{
    let full = if max_edge >= min_edge { max_edge - min_edge } else { 0 };
    let usable = if full >= span { full - span } else { 0 };
    let per_card = usable / (len as Inner);
    if per_card < span { per_card } else { span }
}

pub fn get_card_position(spread: Spread, len: u8, index: CardIndex) -> (res: XY)
    ensures
        res == card_position_spec(spread, len as int, index as int),
{
    match spread {
        Spread::LTR((min_edge, max_edge), y) => {
            if len == 0 {
                return XY { x: min_edge, y };
            }
            let step = step_for(min_edge.0, max_edge.0, CARD_W, len);
            assert(step * index <= 74 * 255) by (nonlinear_arith)
                requires
                    step <= 74,
                    index <= 255,
            ;
            XY { x: min_edge.saturating_add(W(step * (index as Inner))), y }
        },
        Spread::TTB((min_edge, max_edge), x) => {
            if len == 0 {
                return XY { x, y: min_edge };
            }
            let step = step_for(min_edge.0, max_edge.0, CARD_H, len);
            assert(step * index <= 105 * 255) by (nonlinear_arith)
                requires
                    step <= 105,
                    index <= 255,
            ;
            XY { x, y: min_edge.saturating_add(H(step * (index as Inner))) }
        },
    }
}

/// Where a card added to a hand of `len` cards lands: the last place of the
/// hand once it holds the new card.
pub fn get_card_insert_position(spread: Spread, len: u8) -> (res: XY)
    requires
        len < u8::MAX,
    ensures
        res == card_position_spec(spread, len + 1, len as int),
{
    get_card_position(spread, len + 1, len)
}

/// The margin between a window's frame and its content, in pixels.
pub const WINDOW_CONTENT_OFFSET: Inner = 3;

/// The part of `window` from `base_xy` to the inner corner of its bottom right
/// margin.
pub fn fit_to_rest_of_window(base_xy: XY, window: Rect) -> (res: Rect)
    requires
        window.w.0 >= WINDOW_CONTENT_OFFSET,
        window.h.0 >= WINDOW_CONTENT_OFFSET,
        window.x.0 + window.w.0 - WINDOW_CONTENT_OFFSET <= u16::MAX,
        window.y.0 + window.h.0 - WINDOW_CONTENT_OFFSET <= u16::MAX,
        base_xy.x.0 <= window.x.0 + window.w.0 - WINDOW_CONTENT_OFFSET,
        base_xy.y.0 <= window.y.0 + window.h.0 - WINDOW_CONTENT_OFFSET,
    ensures
        res == (Rect {
            x: base_xy.x,
            y: base_xy.y,
            w: W((window.x.0 + window.w.0 - WINDOW_CONTENT_OFFSET - base_xy.x.0) as u16),
            h: H((window.y.0 + window.h.0 - WINDOW_CONTENT_OFFSET - base_xy.y.0) as u16),
        }),
{
    let right = window.x.0 + (window.w.0 - WINDOW_CONTENT_OFFSET);
    let bottom = window.y.0 + (window.h.0 - WINDOW_CONTENT_OFFSET);
    Rect { x: base_xy.x, y: base_xy.y, w: W(right - base_xy.x.0), h: H(bottom - base_xy.y.0) }
}

} // verus!
