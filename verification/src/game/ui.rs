//! Immediate mode widgets: which one is hot (under the cursor) and which one is
//! active (being pressed).
use vstd::prelude::*;
use crate::platform_types::{Button, Input, Speaker, SFX, WHITE};
use crate::platform_types::unscaled;
use crate::platform_types::command::{clip, X_MAX};
use crate::gfx::{
    appended, center_line_in_rect, center_line_spec, chevron_target, lemma_appended_trans, line_targets,
    nine_slice_targets, ChevronDir, Commands, Highlighted, NineSlice, CELL, CHEVRON_H, CHEVRON_W,
};
use crate::gfx::CHAR_ADVANCE_WIDTH;

verus! {

/// The widgets of the game; `Zero` is none.
#[derive(Copy, Clone, Debug, Default, PartialEq, Eq, Structural)]
pub enum Id {
    #[default]
    Zero,
    Submit,
    CpuIdSelect,
    AskSuit,
    AnytimeCard,
    RankSelect,
    NetPredicate,
    LurePredicate,
    ZingerCardSelect,
}

/// Which widget is active, which is hot, and which will be hot next frame.
#[derive(Copy, Clone, Default, Debug, PartialEq, Eq, Structural)]
pub struct Context {
    pub active: Id,
    pub hot: Id,
    pub next_hot: Id,
}

impl Context {
    pub fn set_not_active(&mut self)
        ensures
            *final(self) == (Context { active: Id::Zero, ..*old(self) }),
    {
        self.active = Id::Zero;
    }

    pub fn set_active(&mut self, id: Id)
        ensures
            *final(self) == (Context { active: id, ..*old(self) }),
    {
        self.active = id;
    }

    pub fn set_next_hot(&mut self, id: Id)
        ensures
            *final(self) == (Context { next_hot: id, ..*old(self) }),
    {
        self.next_hot = id;
    }

    pub fn set_not_hot(&mut self)
        ensures
            *final(self) == (Context { hot: Id::Zero, ..*old(self) }),
    {
        self.hot = Id::Zero;
    }

    /// Starts a frame: unless a widget is active, the one marked next becomes hot;
    /// nothing is marked next yet.
    pub fn frame_init(&mut self)
        ensures
            final(self).active == old(self).active,
            final(self).hot == if old(self).active == Id::Zero {
                old(self).next_hot
            } else {
                old(self).hot
            },
            final(self).next_hot == Id::Zero,
    {
        if self.active == Id::Zero {
            self.hot = self.next_hot;
        }
        self.next_hot = Id::Zero;
    }
}

/// A button's response to this frame's input: an active button fires when A is
/// released while it is hot, and stops being active; a hot button becomes active
/// when A is pressed, with a sound. Either stays marked to be hot next frame.
pub open spec fn button_press_spec(ctx: Context, input: Input, id: Id) -> (bool, Context, bool) {
    if ctx.active == id {
        let released = input.previous_gamepad.spec_contains(Button::a_spec())
            && !input.gamepad.spec_contains(Button::a_spec());
        if released {
            (ctx.hot == id, Context { active: Id::Zero, next_hot: id, ..ctx }, false)
        } else {
            (false, Context { next_hot: id, ..ctx }, false)
        }
    } else if ctx.hot == id {
        if input.spec_pressed(Button::a_spec()) {
            (false, Context { active: id, next_hot: id, ..ctx }, true)
        } else {
            (false, Context { next_hot: id, ..ctx }, false)
        }
    } else {
        (false, ctx, false)
    }
}

/// Whether the button `id` was pressed this frame; the context follows what was
/// done, and a press makes a sound.
pub fn button_press(ctx: &mut Context, input: Input, speaker: &mut Speaker, id: Id) -> (res: bool)
    ensures
        res == button_press_spec(*old(ctx), input, id).0,
        *final(ctx) == button_press_spec(*old(ctx), input, id).1,
        final(speaker)@ == if button_press_spec(*old(ctx), input, id).2 {
            old(speaker)@.push(SFX::ButtonPress)
        } else {
            old(speaker)@
        },
{
    let mut output = false;
    if ctx.active == id {
        if input.released_this_frame(Button::A()) {
            output = ctx.hot == id;
            ctx.set_not_active();
        }
        ctx.set_next_hot(id);
    } else if ctx.hot == id {
        if input.pressed_this_frame(Button::A()) {
            ctx.set_active(id);
            speaker.request_sfx(SFX::ButtonPress);
        }
        ctx.set_next_hot(id);
    }
    output
}

/// The frame a button is drawn with: pressed while it is active and A is held,
/// lit while it is hot, plain otherwise.
pub open spec fn button_look(ctx: Context, input: Input, id: Id) -> NineSlice {
    if ctx.active == id && input.gamepad@ & 1 == 1 {
        NineSlice::ButtonPressed
    } else if ctx.hot == id {
        NineSlice::ButtonHot
    } else {
        NineSlice::Button
    }
}

/// Whether a button with a label of `len` characters fits in `rect`, well
/// inside the screen.
pub open spec fn button_fits(rect: unscaled::Rect, len: int) -> bool {
    let xy = center_line_spec(len, rect);
    &&& rect.x.0 + CELL <= 65535
    &&& rect.y.0 + CELL <= 65535
    &&& rect.x.0 + rect.w.0 / 2 <= 65535
    &&& rect.y.0 + rect.h.0 / 2 <= 65535
    &&& CHAR_ADVANCE_WIDTH * len <= 65535
    &&& rect.x.0 + rect.w.0 / 2 >= clip(CHAR_ADVANCE_WIDTH * len, X_MAX as int) / 2
    &&& rect.y.0 + rect.h.0 / 2 >= 4
    &&& xy.x.0 + CHAR_ADVANCE_WIDTH * len <= 65535
    &&& xy.y.0 <= 65525
}

/// A button labelled `text` in `rect`: what `button_press` says of the press,
/// then the button's frame, as `button_look` picks it once the press is
/// handled, and its label, centred on one line.
pub fn do_button(
    commands: &mut Commands,
    ctx: &mut Context,
    input: Input,
    speaker: &mut Speaker,
    id: Id,
    rect: unscaled::Rect,
    text: &[u8],
) -> (res: bool)
    requires
        text@.len() <= 9362,
        button_fits(rect, text@.len() as int),
    ensures
        res == button_press_spec(*old(ctx), input, id).0,
        *final(ctx) == button_press_spec(*old(ctx), input, id).1,
        final(speaker)@ == if button_press_spec(*old(ctx), input, id).2 {
            old(speaker)@.push(SFX::ButtonPress)
        } else {
            old(speaker)@
        },
        appended(
            old(commands)@,
            final(commands)@,
            nine_slice_targets(button_look(*final(ctx), input, id), rect) + line_targets(
                text@,
                center_line_spec(text@.len() as int, rect),
                WHITE,
            ),
        ),
{
    let result = button_press(ctx, input, speaker, id);
    let look = if ctx.active == id && input.gamepad.contains(Button::A()) {
        NineSlice::ButtonPressed
    } else if ctx.hot == id {
        NineSlice::ButtonHot
    } else {
        NineSlice::Button
    };
    let ghost before = commands@;
    commands.draw_nine_slice(look, rect);
    let ghost framed = commands@;
    let xy = center_line_in_rect(text.len() as u16, rect);
    commands.print_line(text, xy, WHITE);
    proof {
        lemma_appended_trans(
            before,
            framed,
            commands@,
            nine_slice_targets(look, rect),
            line_targets(text@, xy, WHITE),
        );
    }
    result
}

/// Marks `id` hot for the next frame if it is hot or active now, and draws the
/// chevrons above and below `rect` that show a choice can be changed, lit when
/// it is hot or active.
pub fn draw_quick_select(commands: &mut Commands, ctx: &mut Context, rect: unscaled::Rect, id: Id)
    requires
        rect.x.0 + rect.w.0 / 2 <= 65535,
        rect.x.0 + rect.w.0 / 2 >= CHEVRON_W / 2,
        rect.x.0 + rect.w.0 / 2 - CHEVRON_W / 2 + CHEVRON_W <= 65535,
        rect.y.0 + CHEVRON_H <= 65535,
        rect.y.0 + rect.h.0 <= 65535,
        rect.y.0 + rect.h.0 >= CHEVRON_H,
    ensures
        ({
            let lit = old(ctx).active == id || old(ctx).hot == id;
            let highlighted = if lit { Highlighted::Yes } else { Highlighted::No };
            let x = unscaled::X((rect.x.0 + rect.w.0 / 2 - CHEVRON_W / 2) as u16);
            &&& *final(ctx) == if lit { Context { next_hot: id, ..*old(ctx) } } else { *old(ctx) }
            &&& appended(
                old(commands)@,
                final(commands)@,
                seq![
                    chevron_target(unscaled::XY { x, y: rect.y }, ChevronDir::Up, highlighted),
                    chevron_target(
                        unscaled::XY { x, y: unscaled::Y((rect.y.0 + rect.h.0 - CHEVRON_H) as u16) },
                        ChevronDir::Down,
                        highlighted,
                    ),
                ],
            )
        }),
{
    let mut highlighted = Highlighted::No;
    if ctx.active == id || ctx.hot == id {
        ctx.set_next_hot(id);
        highlighted = Highlighted::Yes;
    }
    let x = unscaled::X(rect.x.0 + rect.w.0 / 2 - CHEVRON_W / 2);
    let ghost before = commands@;
    let up = unscaled::XY { x, y: rect.y };
    commands.draw_chevron(up, ChevronDir::Up, highlighted);
    let ghost mid = commands@;
    let down = unscaled::XY { x, y: unscaled::Y(rect.y.0 + rect.h.0 - CHEVRON_H) };
    commands.draw_chevron(down, ChevronDir::Down, highlighted);
    proof {
        lemma_appended_trans(
            before,
            mid,
            commands@,
            seq![chevron_target(up, ChevronDir::Up, highlighted)],
            seq![chevron_target(down, ChevronDir::Down, highlighted)],
        );
        assert(seq![chevron_target(up, ChevronDir::Up, highlighted)] + seq![
            chevron_target(down, ChevronDir::Down, highlighted),
        ] =~= seq![
            chevron_target(up, ChevronDir::Up, highlighted),
            chevron_target(down, ChevronDir::Down, highlighted),
        ]);
    }
}

} // verus!
