//! Drawing: building the list of commands that the renderer carries out.
use vstd::prelude::*;
use crate::platform_types::command::{self, clip, lemma_x_eq, lemma_y_eq, unscaled_rect_convertible, X_MAX, Y_MAX};
use crate::platform_types::lines::{bytes_lines, first_longest, lines_of, longest_line_of};
use crate::platform_types::{sprite, unscaled, Command, ARGB};

pub mod card_face;

verus! {

/// A command before clipping: the part of the sprite sheet, the rectangle on the
/// screen and the colour override.
pub type Target = (sprite::XY, unscaled::Rect, ARGB);

/// Whether the clipped rectangle of `t` spans more than one pixel each way; only
/// such commands are kept.
pub open spec fn target_useful(t: Target) -> bool {
    &&& clip(t.1.x.0 as int, X_MAX as int) != clip(t.1.x.0 + t.1.w.0 - 1, X_MAX as int)
    &&& clip(t.1.y.0 as int, Y_MAX as int) != clip(t.1.y.0 + t.1.h.0 - 1, Y_MAX as int)
}

/// The useful targets among `ts`, in order.
pub open spec fn useful_targets(ts: Seq<Target>) -> Seq<Target>
    decreases ts.len(),
{
    if ts.len() == 0 {
        Seq::empty()
    } else {
        let rest = useful_targets(ts.drop_last());
        if target_useful(ts.last()) {
            rest.push(ts.last())
        } else {
            rest
        }
    }
}

/// Whether `c` is the clipped command for `t`.
pub open spec fn matches_target(c: Command, t: Target) -> bool {
    &&& c.sprite_xy == t.0
    &&& c.colour_override == t.2
    &&& c.rect.x_min@ == clip(t.1.x.0 as int, X_MAX as int)
    &&& c.rect.y_min@ == clip(t.1.y.0 as int, Y_MAX as int)
    &&& c.rect.x_max@ == clip(t.1.x.0 + t.1.w.0 - 1, X_MAX as int)
    &&& c.rect.y_max@ == clip(t.1.y.0 + t.1.h.0 - 1, Y_MAX as int)
}

/// Whether `after` is `before` followed by the commands for the useful targets
/// among `ts`.
pub open spec fn appended(before: Seq<Command>, after: Seq<Command>, ts: Seq<Target>) -> bool {
    let u = useful_targets(ts);
    &&& after.len() == before.len() + u.len()
    &&& after.subrange(0, before.len() as int) == before
    &&& forall|i: int| 0 <= i < u.len() ==> matches_target(#[trigger] after[before.len() + i], u[i])
}

proof fn lemma_useful_targets_concat(a: Seq<Target>, b: Seq<Target>)
    ensures
        useful_targets(a + b) == useful_targets(a) + useful_targets(b),
    decreases b.len(),
{
    if b.len() == 0 {
        assert(a + b =~= a);
        assert(useful_targets(a) + useful_targets(b) =~= useful_targets(a));
    } else {
        lemma_useful_targets_concat(a, b.drop_last());
        assert((a + b).drop_last() =~= a + b.drop_last());
        assert((a + b).last() == b.last());
        if target_useful(b.last()) {
            assert(useful_targets(a) + useful_targets(b) =~= (useful_targets(a) + useful_targets(
                b.drop_last(),
            )).push(b.last()));
        }
    }
}

/// Appending in two steps appends both lists.
pub proof fn lemma_appended_trans(a: Seq<Command>, b: Seq<Command>, c: Seq<Command>, s: Seq<Target>, t: Seq<Target>)
    requires
        appended(a, b, s),
        appended(b, c, t),
    ensures
        appended(a, c, s + t),
{
    lemma_useful_targets_concat(s, t);
    let us = useful_targets(s);
    let ut = useful_targets(t);
    assert(c.subrange(0, a.len() as int) =~= a) by {
        assert(c.subrange(0, b.len() as int).subrange(0, a.len() as int) =~= c.subrange(0, a.len() as int));
    }
    assert forall|i: int| 0 <= i < us.len() + ut.len() implies matches_target(
        #[trigger] c[a.len() + i],
        (us + ut)[i],
    ) by {
        if i < us.len() {
            assert(c[a.len() + i] == c.subrange(0, b.len() as int)[a.len() + i]);
            assert(b[a.len() + i] == c[a.len() + i]);
        } else {
            assert(c[b.len() + (i - us.len())] == c[a.len() + i]);
        }
    }
}

proof fn lemma_appended_nothing(a: Seq<Command>)
    ensures
        appended(a, a, Seq::empty()),
{
    assert(a.subrange(0, a.len() as int) =~= a);
}

/// The commands drawn so far in a frame.
pub struct Commands {
    commands: Vec<Command>,
}

impl View for Commands {
    type V = Seq<Command>;

    closed spec fn view(&self) -> Seq<Command> {
        self.commands@
    }
}

impl Default for Commands {
    fn default() -> (res: Commands)
        ensures
            res@ == Seq::<Command>::empty(),
    {
        Commands { commands: Vec::new() }
    }
}

/// Whether a command spans more than one pixel each way.
pub open spec fn command_useful(c: Command) -> bool {
    c.rect.x_min != c.rect.x_max && c.rect.y_min != c.rect.y_max
}

impl Commands {
    /// The commands, in order.
    pub fn slice(&self) -> (res: &[Command])
        ensures
            res@ == self@,
    {
        self.commands.as_slice()
    }

    pub fn clear(&mut self)
        ensures
            final(self)@ == Seq::<Command>::empty(),
    {
        self.commands.clear();
    }

    /// Keeps `command` where it spans more than one pixel each way.
    pub fn push_command_if_useful(&mut self, command: Command)
        ensures
            final(self)@ == if command_useful(command) {
                old(self)@.push(command)
            } else {
                old(self)@
            },
    {
        if command.rect.x_min != command.rect.x_max && command.rect.y_min != command.rect.y_max {
            self.commands.push(command);
        }
    }

    /// Draws the part of the sprite sheet at `sprite_xy` in `rect`.
    pub fn sspr(&mut self, sprite_xy: sprite::XY, rect: command::Rect)
        ensures
            ({
                let c = Command { rect, sprite_xy, colour_override: 0 };
                final(self)@ == if command_useful(c) {
                    old(self)@.push(c)
                } else {
                    old(self)@
                }
            }),
    {
        self.push_command_if_useful(Command { rect, sprite_xy, colour_override: 0 });
    }

    /// Draws the target `(sprite_xy, rect, colour)`.
    fn push_target(&mut self, sprite_xy: sprite::XY, rect: unscaled::Rect, colour: ARGB)
        requires
            unscaled_rect_convertible(rect),
        ensures
            appended(old(self)@, final(self)@, seq![(sprite_xy, rect, colour)]),
    {
        let c = Command { rect: command::Rect::from_unscaled(rect), sprite_xy, colour_override: colour };
        proof {
            lemma_x_eq(c.rect.x_min, c.rect.x_max);
            lemma_y_eq(c.rect.y_min, c.rect.y_max);
            let ts = seq![(sprite_xy, rect, colour)];
            assert(ts.drop_last() =~= Seq::<Target>::empty());
        }
        self.push_command_if_useful(c);
        proof {
            let t = (sprite_xy, rect, colour);
            let ts = seq![t];
            assert(ts.last() == t);
            assert(useful_targets(ts.drop_last()) =~= Seq::<Target>::empty());
            assert(command_useful(c) == target_useful(t));
            assert(matches_target(c, t));
            if target_useful(t) {
                assert(useful_targets(ts) =~= seq![t]);
                assert(self@[old(self)@.len() as int] == c);
            } else {
                assert(useful_targets(ts) =~= Seq::<Target>::empty());
            }
        }
        assert(self@.subrange(0, old(self)@.len() as int) =~= old(self)@);
    }
}

/// The width a character takes up, spacing included.
pub const CHAR_ADVANCE_WIDTH: u16 = 7;

/// The height a line takes up, spacing included.
pub const CHAR_ADVANCE_HEIGHT: u16 = 11;

/// Where the font starts in the sprite sheet: below the card images.
pub const FONT_OFFSET: u16 = 936;

/// The target for drawing `character` with its top left at `xy`: the accented
/// characters above `0xE0` sit among the non-printable ones, a pixel taller.
pub open spec fn char_target(character: u8, xy: unscaled::XY, colour: ARGB) -> Target {
    let accented = character > 0xE0;
    let c = if accented { (character - 0xD0) as int } else { character as int };
    let offset = if accented { FONT_OFFSET - 1 } else { FONT_OFFSET as int };
    let y = if accented { if xy.y.0 >= 1 { xy.y.0 - 1 } else { 0 } } else { xy.y.0 as int };
    let h = if accented { 10int } else { 9int };
    (
        sprite::XY { x: sprite::X(((c % 16) * 5) as u16), y: sprite::Y(((c / 16) * 9 + offset) as u16) },
        unscaled::Rect { x: xy.x, y: unscaled::Y(y as u16), w: unscaled::W(5), h: unscaled::H(h as u16) },
        colour,
    )
}

/// The targets for drawing `bytes` as one line from `xy` rightwards.
pub open spec fn line_targets(bytes: Seq<u8>, xy: unscaled::XY, colour: ARGB) -> Seq<Target> {
    Seq::new(
        bytes.len(),
        |i: int|
            char_target(
                bytes[i],
                unscaled::XY { x: unscaled::X((xy.x.0 + CHAR_ADVANCE_WIDTH * i) as u16), y: xy.y },
                colour,
            ),
    )
}

/// The targets of `lines`, the `j`th from `xy` moved down `j` line heights.
pub open spec fn lines_targets(lines: Seq<Seq<u8>>, xy: unscaled::XY, colour: ARGB) -> Seq<Target>
    decreases lines.len(),
{
    if lines.len() == 0 {
        Seq::empty()
    } else {
        lines_targets(lines.drop_last(), xy, colour) + line_targets(
            lines.last(),
            unscaled::XY {
                x: xy.x,
                y: unscaled::Y((xy.y.0 + CHAR_ADVANCE_HEIGHT * (lines.len() - 1)) as u16),
            },
            colour,
        )
    }
}

/// Whether `bytes` printed from `xy` stays within the coordinate range.
pub open spec fn print_fits(bytes: Seq<u8>, xy: unscaled::XY) -> bool {
    &&& xy.y.0 + CHAR_ADVANCE_HEIGHT * lines_of(bytes).len() <= 65535
    &&& forall|j: int|
        0 <= j < lines_of(bytes).len() ==> xy.x.0 + CHAR_ADVANCE_WIDTH * (#[trigger] lines_of(bytes)[j]).len()
            <= 65535
}

impl Commands {
    /// Draws `character` with its top left at `xy`.
    pub fn print_char(&mut self, character: u8, xy: unscaled::XY, colour_override: ARGB)
        requires
            xy.x.0 <= 65530,
            xy.y.0 <= 65525,
        ensures
            appended(old(self)@, final(self)@, seq![char_target(character, xy, colour_override)]),
    {
        let mut character = character;
        let mut y = xy.y;
        let mut font_offset: u16 = FONT_OFFSET;
        let mut h: u16 = 9;
        if character > 0xE0 {
            character = character - 0xD0;
            h = h + 1;
            font_offset = font_offset - 1;
            y = y.saturating_sub(unscaled::H(1));
        }
        let sprite_xy = sprite::XY {
            x: sprite::X(((character % 16) * 5) as u16),
            y: sprite::Y(((character / 16) * 9) as u16 + font_offset),
        };
        let rect = unscaled::Rect { x: xy.x, y, w: unscaled::W(5), h: unscaled::H(h) };
        self.push_target(sprite_xy, rect, colour_override);
    }

    /// Draws `bytes` as one line, from `xy` rightwards.
    pub fn print_line(&mut self, bytes: &[u8], xy: unscaled::XY, colour: ARGB)
        requires
            xy.x.0 + CHAR_ADVANCE_WIDTH * bytes@.len() <= 65535,
            xy.y.0 <= 65525,
        ensures
            appended(old(self)@, final(self)@, line_targets(bytes@, xy, colour)),
    {
        let mut x = xy.x;
        let mut i: usize = 0;
        proof {
            lemma_appended_nothing(self@);
            assert(line_targets(bytes@.take(0), xy, colour) =~= Seq::<Target>::empty());
        }
        while i < bytes.len()
            invariant
                i <= bytes@.len(),
                xy.x.0 + CHAR_ADVANCE_WIDTH * bytes@.len() <= 65535,
                xy.y.0 <= 65525,
                x.0 == xy.x.0 + CHAR_ADVANCE_WIDTH * i,
                appended(old(self)@, self@, line_targets(bytes@.take(i as int), xy, colour)),
            decreases bytes@.len() - i,
        {
            let ghost before = self@;
            self.print_char(bytes[i], unscaled::XY { x, y: xy.y }, colour);
            proof {
                lemma_appended_trans(
                    old(self)@,
                    before,
                    self@,
                    line_targets(bytes@.take(i as int), xy, colour),
                    seq![char_target(bytes@[i as int], unscaled::XY { x, y: xy.y }, colour)],
                );
                assert(line_targets(bytes@.take(i as int), xy, colour) + seq![char_target(
                    bytes@[i as int],
                    unscaled::XY { x, y: xy.y },
                    colour,
                )] =~= line_targets(bytes@.take(i + 1), xy, colour));
            }
            x = unscaled::X(x.0 + CHAR_ADVANCE_WIDTH);
            i = i + 1;
        }
        assert(bytes@.take(i as int) =~= bytes@);
    }

    /// Draws `bytes` line by line, from `xy` down.
    pub fn print(&mut self, bytes: &[u8], xy: unscaled::XY, colour: ARGB)
        requires
            print_fits(bytes@, xy),
        ensures
            appended(old(self)@, final(self)@, lines_targets(lines_of(bytes@), xy, colour)),
    {
        let lines = bytes_lines(bytes);
        let ghost views = lines@.map_values(|l: &[u8]| l@);
        let mut y = xy.y;
        let mut j: usize = 0;
        proof {
            lemma_appended_nothing(self@);
            assert(views.take(0) =~= Seq::<Seq<u8>>::empty());
        }
        while j < lines.len()
            invariant
                j <= lines@.len(),
                views == lines@.map_values(|l: &[u8]| l@),
                views == lines_of(bytes@),
                print_fits(bytes@, xy),
                y.0 == xy.y.0 + CHAR_ADVANCE_HEIGHT * j,
                appended(old(self)@, self@, lines_targets(views.take(j as int), xy, colour)),
            decreases lines@.len() - j,
        {
            let ghost before = self@;
            let line = lines[j];
            assert(line@ == views[j as int]);
            assert(xy.x.0 + CHAR_ADVANCE_WIDTH * lines_of(bytes@)[j as int].len() <= 65535);
            self.print_line(line, unscaled::XY { x: xy.x, y }, colour);
            proof {
                lemma_appended_trans(
                    old(self)@,
                    before,
                    self@,
                    lines_targets(views.take(j as int), xy, colour),
                    line_targets(line@, unscaled::XY { x: xy.x, y }, colour),
                );
                assert(views.take(j + 1).drop_last() =~= views.take(j as int));
            }
            y = unscaled::Y(y.0 + CHAR_ADVANCE_HEIGHT);
            j = j + 1;
        }
        assert(views.take(j as int) =~= views);
    }
}

/// Where `print_centered` starts printing `bytes` to centre it in `rect`.
pub open spec fn centered_xy(bytes: Seq<u8>, rect: unscaled::Rect) -> unscaled::XY {
    let x = rect.x.0 + rect.w.0 / 2 - clip(CHAR_ADVANCE_WIDTH * first_longest(lines_of(bytes)).len(), X_MAX as int) / 2;
    let count = lines_of(bytes).len();
    let y = rect.y.0 + rect.h.0 / 2 - if count == 1 { 4int } else { 5 * count as int };
    unscaled::XY { x: unscaled::X(x as u16), y: unscaled::Y(y as u16) }
}

/// Whether centring `bytes` in `rect` stays within the coordinate range.
pub open spec fn centered_fits(bytes: Seq<u8>, rect: unscaled::Rect) -> bool {
    let len = first_longest(lines_of(bytes)).len();
    let count = lines_of(bytes).len();
    &&& rect.x.0 + rect.w.0 / 2 <= 65535
    &&& rect.y.0 + rect.h.0 / 2 <= 65535
    &&& CHAR_ADVANCE_WIDTH * len <= 65535
    &&& rect.x.0 + rect.w.0 / 2 >= clip(CHAR_ADVANCE_WIDTH * len, X_MAX as int) / 2
    &&& rect.y.0 + rect.h.0 / 2 >= if count == 1 { 4int } else { 5 * count as int }
    &&& print_fits(bytes, centered_xy(bytes, rect))
}

/// Where a line of `text_length` characters starts to be centred in `rect`.
pub open spec fn center_line_spec(text_length: int, rect: unscaled::Rect) -> unscaled::XY {
    unscaled::XY {
        x: unscaled::X((rect.x.0 + rect.w.0 / 2 - clip(CHAR_ADVANCE_WIDTH * text_length, X_MAX as int) / 2) as u16),
        y: unscaled::Y((rect.y.0 + rect.h.0 / 2 - 4) as u16),
    }
}

pub type TextLength = unscaled::Inner;

/// Where a line of `text_length` characters starts to be centred in `rect`.
pub fn center_line_in_rect(text_length: TextLength, rect: unscaled::Rect) -> (res: unscaled::XY)
    requires
        rect.x.0 + rect.w.0 / 2 <= 65535,
        rect.y.0 + rect.h.0 / 2 <= 65535,
        CHAR_ADVANCE_WIDTH * text_length <= 65535,
        rect.x.0 + rect.w.0 / 2 >= clip(CHAR_ADVANCE_WIDTH * text_length, X_MAX as int) / 2,
        rect.y.0 + rect.h.0 / 2 >= 4,
    ensures
        res == center_line_spec(text_length as int, rect),
{
    let x = rect.x.0 + rect.w.0 / 2;
    let y = rect.y.0 + rect.h.0 / 2;
    let advance = command::W::clipped_inner(CHAR_ADVANCE_WIDTH).mul(text_length).get();
    unscaled::XY { x: unscaled::X(x - advance.0 / 2), y: unscaled::Y(y - 4) }
}

impl Commands {
    /// Prints `bytes` centred in `rect`, each line starting at the same place, as
    /// if all were as long as the longest. The text is meant to fit already.
    pub fn print_centered(&mut self, bytes: &[u8], rect: unscaled::Rect, colour: ARGB)
        requires
            centered_fits(bytes@, rect),
        ensures
            appended(old(self)@, final(self)@, lines_targets(lines_of(bytes@), centered_xy(bytes@, rect), colour)),
    {
        let longest_line = longest_line_of(bytes);
        let x = rect.x.0 + rect.w.0 / 2;
        let y = rect.y.0 + rect.h.0 / 2;
        let advance = command::W::clipped_inner(CHAR_ADVANCE_WIDTH).mul(longest_line.len() as u16).get();
        let x = x - advance.0 / 2;
        let count = bytes_lines(bytes).len();
        proof {
            crate::platform_types::lines::lemma_lines_of_nonempty(bytes@);
        }
        let y = if count == 1 {
            y - 4
        } else {
            let mut y = y;
            let mut k: usize = 0;
            while k < count
                invariant
                    k <= count,
                    count == lines_of(bytes@).len(),
                    rect.y.0 + rect.h.0 / 2 >= 5 * count,
                    y == rect.y.0 + rect.h.0 / 2 - 5 * k,
                decreases count - k,
            {
                y = y - 5;
                k = k + 1;
            }
            y
        };
        self.print(bytes, unscaled::XY { x: unscaled::X(x), y: unscaled::Y(y) }, colour);
    }
}

/// The sprite sheet column of the card backing images.
pub const BACKING_SPRITE_X: u16 = 432;

/// The height of a card, in pixels.
pub const CARD_H: u16 = 105;

/// The width of a card, in pixels.
pub const CARD_W: u16 = 74;

/// The target for the card-shaped image at row `row` of the backing column, at
/// `xy`.
pub open spec fn backing_target(row: int, xy: unscaled::XY) -> Target {
    (
        sprite::XY { x: sprite::X(BACKING_SPRITE_X), y: sprite::Y((row * CARD_H) as u16) },
        unscaled::Rect { x: xy.x, y: xy.y, w: unscaled::W(CARD_W), h: unscaled::H(CARD_H) },
        0,
    )
}

/// Whether a card drawn at `xy`, with its shadow, stays within the coordinate
/// range.
pub open spec fn card_fits(xy: unscaled::XY) -> bool {
    xy.x.0 + 2 + CARD_W <= 65535 && xy.y.0 + 2 + CARD_H <= 65535
}

impl Commands {
    fn draw_backing(&mut self, row: u16, xy: unscaled::XY)
        requires
            row <= 8,
            xy.x.0 + CARD_W <= 65535,
            xy.y.0 + CARD_H <= 65535,
        ensures
            appended(old(self)@, final(self)@, seq![backing_target(row as int, xy)]),
    {
        self.push_target(
            sprite::XY { x: sprite::X(BACKING_SPRITE_X), y: sprite::Y(row * CARD_H) },
            unscaled::Rect { x: xy.x, y: xy.y, w: unscaled::W(CARD_W), h: unscaled::H(CARD_H) },
            0,
        );
    }

    /// The shadow a card casts, offset by two pixels each way.
    pub fn draw_shadow_for_card_at(&mut self, xy: unscaled::XY)
        requires
            card_fits(xy),
        ensures
            appended(old(self)@, final(self)@, seq![backing_target(6, unscaled::XY {
                x: unscaled::X((xy.x.0 + 2) as u16),
                y: unscaled::Y((xy.y.0 + 2) as u16),
            })]),
    {
        self.draw_backing(6, unscaled::XY { x: unscaled::X(xy.x.0 + 2), y: unscaled::Y(xy.y.0 + 2) });
    }

    /// The back of a card at `xy`, over its shadow.
    pub fn draw_card_back(&mut self, xy: unscaled::XY)
        requires
            card_fits(xy),
        ensures
            appended(
                old(self)@,
                final(self)@,
                seq![backing_target(6, unscaled::XY {
                    x: unscaled::X((xy.x.0 + 2) as u16),
                    y: unscaled::Y((xy.y.0 + 2) as u16),
                }), backing_target(7, xy)],
            ),
    {
        let ghost start = self@;
        self.draw_shadow_for_card_at(xy);
        let ghost mid = self@;
        self.draw_backing(7, xy);
        proof {
            let a = seq![backing_target(6, unscaled::XY {
                x: unscaled::X((xy.x.0 + 2) as u16),
                y: unscaled::Y((xy.y.0 + 2) as u16),
            })];
            let b = seq![backing_target(7, xy)];
            lemma_appended_trans(start, mid, self@, a, b);
            assert(a + b =~= seq![a[0], b[0]]);
        }
    }

    /// The highlight around a selected card at `xy`.
    pub fn draw_selectrum(&mut self, xy: unscaled::XY)
        requires
            xy.x.0 + CARD_W <= 65535,
            xy.y.0 + CARD_H <= 65535,
        ensures
            appended(old(self)@, final(self)@, seq![backing_target(8, xy)]),
    {
        self.draw_backing(8, xy);
    }
}

/// Whether a chevron points up or down.
#[derive(Clone, Copy, Debug, PartialEq, Eq, Structural)]
pub enum ChevronDir {
    Up,
    Down,
}

/// Whether a widget is drawn highlighted.
#[derive(Clone, Copy, Debug, PartialEq, Eq, Structural)]
pub enum Highlighted {
    No,
    Yes,
}

pub const CHEVRON_W: u16 = 24;
pub const CHEVRON_H: u16 = 12;

/// The column of the chevron images: four of them, up and down, plain and
/// highlighted.
pub open spec fn chevron_index(dir: ChevronDir, highlighted: Highlighted) -> int {
    match (dir, highlighted) {
        (ChevronDir::Up, Highlighted::No) => 0,
        (ChevronDir::Down, Highlighted::No) => 1,
        (ChevronDir::Up, Highlighted::Yes) => 2,
        (ChevronDir::Down, Highlighted::Yes) => 3,
    }
}

pub open spec fn chevron_target(xy: unscaled::XY, dir: ChevronDir, highlighted: Highlighted) -> Target {
    (
        sprite::XY {
            x: sprite::X((80 + CHEVRON_W * chevron_index(dir, highlighted)) as u16),
            y: sprite::Y(960),
        },
        unscaled::Rect { x: xy.x, y: xy.y, w: unscaled::W(CHEVRON_W), h: unscaled::H(CHEVRON_H) },
        0,
    )
}

impl Commands {
    /// Draws a chevron at `xy`.
    pub fn draw_chevron(&mut self, xy: unscaled::XY, dir: ChevronDir, highlighted: Highlighted)
        requires
            xy.x.0 + CHEVRON_W <= 65535,
            xy.y.0 + CHEVRON_H <= 65535,
        ensures
            appended(old(self)@, final(self)@, seq![chevron_target(xy, dir, highlighted)]),
    {
        let index: u16 = match (dir, highlighted) {
            (ChevronDir::Up, Highlighted::No) => 0,
            (ChevronDir::Down, Highlighted::No) => 1,
            (ChevronDir::Up, Highlighted::Yes) => 2,
            (ChevronDir::Down, Highlighted::Yes) => 3,
        };
        self.push_target(
            sprite::XY { x: sprite::X(80 + CHEVRON_W * index), y: sprite::Y(960) },
            unscaled::Rect { x: xy.x, y: xy.y, w: unscaled::W(CHEVRON_W), h: unscaled::H(CHEVRON_H) },
            0,
        );
    }
}

/// The frames that windows and buttons are drawn with.
#[derive(Clone, Copy, Debug, PartialEq, Eq, Structural)]
pub enum NineSlice {
    Window,
    Button,
    ButtonHot,
    ButtonPressed,
}

/// The size of a cell of a nine-slice frame.
pub const CELL: u16 = 8;

impl NineSlice {
    pub open spec fn index(self) -> int {
        match self {
            NineSlice::Window => 0,
            NineSlice::Button => 1,
            NineSlice::ButtonHot => 2,
            NineSlice::ButtonPressed => 3,
        }
    }

    /// Where the frame's top left cell is in the sprite sheet: right of the font,
    /// one three-cell-wide grid per frame.
    pub open spec fn top_left_spec(self) -> sprite::XY {
        sprite::XY { x: sprite::X((80 + 24 * self.index()) as u16), y: sprite::Y(FONT_OFFSET) }
    }

    pub fn top_left(self) -> (res: sprite::XY)
        ensures
            res == self.top_left_spec(),
    {
        let index: u16 = match self {
            NineSlice::Window => 0,
            NineSlice::Button => 1,
            NineSlice::ButtonHot => 2,
            NineSlice::ButtonPressed => 3,
        };
        sprite::XY { x: sprite::X(80 + 24 * index), y: sprite::Y(FONT_OFFSET) }
    }
}

/// The cell of the frame `ns` at column `col` and row `row` of its grid.
pub open spec fn cell_sprite(ns: NineSlice, col: int, row: int) -> sprite::XY {
    sprite::XY {
        x: sprite::X((ns.top_left_spec().x.0 + CELL * col) as u16),
        y: sprite::Y((FONT_OFFSET + CELL * row) as u16),
    }
}

/// A cell-sized target at `(x, y)`.
pub open spec fn cell_target(sprite_xy: sprite::XY, x: int, y: int) -> Target {
    (
        sprite_xy,
        unscaled::Rect { x: unscaled::X(x as u16), y: unscaled::Y(y as u16), w: unscaled::W(CELL), h: unscaled::H(CELL) },
        0,
    )
}

/// Cells of `sprite_xy` from `x` rightwards, a cell apart, while left of `to`.
pub open spec fn row_cells(sprite_xy: sprite::XY, x: int, to: int, y: int) -> Seq<Target>
    decreases (if x < to { to - x } else { 0 }),
{
    if x >= to {
        Seq::empty()
    } else {
        seq![cell_target(sprite_xy, x, y)] + row_cells(sprite_xy, x + CELL, to, y)
    }
}

/// Rows of middle cells from `y` downwards, a cell apart, while above `to`.
pub open spec fn grid_rows(sprite_xy: sprite::XY, x: int, x_to: int, y: int, to: int) -> Seq<Target>
    decreases (if y < to { to - y } else { 0 }),
{
    if y >= to {
        Seq::empty()
    } else {
        row_cells(sprite_xy, x, x_to, y) + grid_rows(sprite_xy, x, x_to, y + CELL, to)
    }
}

/// Pairs of top and bottom edge cells from `x` rightwards while left of `to`.
pub open spec fn h_edges(top: sprite::XY, bottom: sprite::XY, x: int, to: int, y_top: int, y_bottom: int) -> Seq<Target>
    decreases (if x < to { to - x } else { 0 }),
{
    if x >= to {
        Seq::empty()
    } else {
        seq![cell_target(top, x, y_top), cell_target(bottom, x, y_bottom)] + h_edges(
            top,
            bottom,
            x + CELL,
            to,
            y_top,
            y_bottom,
        )
    }
}

/// Pairs of left and right edge cells from `y` downwards while above `to`.
pub open spec fn v_edges(left: sprite::XY, right: sprite::XY, y: int, to: int, x_left: int, x_right: int) -> Seq<Target>
    decreases (if y < to { to - y } else { 0 }),
{
    if y >= to {
        Seq::empty()
    } else {
        seq![cell_target(left, x_left, y), cell_target(right, x_right, y)] + v_edges(
            left,
            right,
            y + CELL,
            to,
            x_left,
            x_right,
        )
    }
}

pub open spec fn sat_add(a: int, b: int) -> int {
    if a + b <= 65535 { a + b } else { 65535 }
}

pub open spec fn sat_sub(a: int, b: int) -> int {
    if a >= b { a - b } else { 0 }
}

/// The targets of a nine-slice frame `ns` filling `rect`: the middle cells row by
/// row, then the top and bottom edges, then the left and right edges, then the
/// four corners.
pub open spec fn nine_slice_targets(ns: NineSlice, rect: unscaled::Rect) -> Seq<Target> {
    let (x, y) = (rect.x.0 as int, rect.y.0 as int);
    let after_left = sat_add(x, CELL as int);
    let before_right = sat_sub(sat_add(x, rect.w.0 as int), CELL as int);
    let below_top = sat_add(y, CELL as int);
    let above_bottom = sat_sub(sat_add(y, rect.h.0 as int), CELL as int);
    grid_rows(cell_sprite(ns, 1, 1), after_left, before_right, below_top, above_bottom)
        + h_edges(cell_sprite(ns, 1, 0), cell_sprite(ns, 1, 2), after_left, before_right, y, above_bottom)
        + v_edges(cell_sprite(ns, 0, 1), cell_sprite(ns, 2, 1), below_top, above_bottom, x, before_right)
        + seq![
        cell_target(cell_sprite(ns, 0, 0), x, y),
        cell_target(cell_sprite(ns, 2, 0), before_right, y),
        cell_target(cell_sprite(ns, 0, 2), x, above_bottom),
        cell_target(cell_sprite(ns, 2, 2), before_right, above_bottom),
    ]
}

impl Commands {
    fn draw_cell(&mut self, sprite_xy: sprite::XY, x: u16, y: u16)
        requires
            x + CELL <= 65535,
            y + CELL <= 65535,
        ensures
            appended(old(self)@, final(self)@, seq![cell_target(sprite_xy, x as int, y as int)]),
    {
        self.push_target(
            sprite_xy,
            unscaled::Rect { x: unscaled::X(x), y: unscaled::Y(y), w: unscaled::W(CELL), h: unscaled::H(CELL) },
            0,
        );
    }

    fn draw_row(&mut self, sprite_xy: sprite::XY, from: u16, to: u16, y: u16)
        requires
            to <= 65527,
            y + CELL <= 65535,
        ensures
            appended(old(self)@, final(self)@, row_cells(sprite_xy, from as int, to as int, y as int)),
    {
        let ghost start = self@;
        let ghost mut done: Seq<Target> = Seq::empty();
        let mut x = from;
        proof {
            lemma_appended_nothing(start);
            assert(done + row_cells(sprite_xy, x as int, to as int, y as int) =~= row_cells(sprite_xy, from as int, to as int, y as int));
        }
        while x < to
            invariant
                to <= 65527,
                y + CELL <= 65535,
                appended(start, self@, done),
                done + row_cells(sprite_xy, x as int, to as int, y as int) == row_cells(sprite_xy, from as int, to as int, y as int),
            decreases (if x < to { to - x } else { 0 }),
        {
            let ghost before = self@;
            self.draw_cell(sprite_xy, x, y);
            proof {
                lemma_appended_trans(start, before, self@, done, seq![cell_target(sprite_xy, x as int, y as int)]);
                let rest = row_cells(sprite_xy, x + CELL, to as int, y as int);
                assert(done + seq![cell_target(sprite_xy, x as int, y as int)] + rest =~= done + (seq![cell_target(sprite_xy, x as int, y as int)] + rest));
                done = done + seq![cell_target(sprite_xy, x as int, y as int)];
            }
            x = x + CELL;
        }
        assert(done =~= row_cells(sprite_xy, from as int, to as int, y as int));
    }

    /// Draws the frame `ns` filling `rect`.
    pub fn draw_nine_slice(&mut self, nine_slice: NineSlice, rect: unscaled::Rect)
        requires
            rect.x.0 + CELL <= 65535,
            rect.y.0 + CELL <= 65535,
        ensures
            appended(old(self)@, final(self)@, nine_slice_targets(nine_slice, rect)),
    {
        let x = rect.x.0;
        let y = rect.y.0;
        let top_left = nine_slice.top_left();
        let top = sprite::XY { x: sprite::X(top_left.x.0 + CELL), y: top_left.y };
        let top_right = sprite::XY { x: sprite::X(top.x.0 + CELL), y: top_left.y };
        let middle_left = sprite::XY { x: top_left.x, y: sprite::Y(top_left.y.0 + CELL) };
        let middle = sprite::XY { x: top.x, y: middle_left.y };
        let middle_right = sprite::XY { x: top_right.x, y: middle_left.y };
        let bottom_left = sprite::XY { x: top_left.x, y: sprite::Y(middle_left.y.0 + CELL) };
        let bottom = sprite::XY { x: top.x, y: bottom_left.y };
        let bottom_right = sprite::XY { x: top_right.x, y: bottom_left.y };

        let after_left_corner = x.saturating_add(CELL);
        let before_right_corner = x.saturating_add(rect.w.0).saturating_sub(CELL);
        let below_top_corner = y.saturating_add(CELL);
        let above_bottom_corner = y.saturating_add(rect.h.0).saturating_sub(CELL);

        let ghost start = self@;
        let ghost mut done: Seq<Target> = Seq::empty();
        proof {
            lemma_appended_nothing(start);
        }
        let mut fill_y = below_top_corner;
        proof {
            assert(done + grid_rows(middle, after_left_corner as int, before_right_corner as int, fill_y as int, above_bottom_corner as int) =~= grid_rows(middle, after_left_corner as int, before_right_corner as int, below_top_corner as int, above_bottom_corner as int));
        }
        while fill_y < above_bottom_corner
            invariant
                before_right_corner <= 65527,
                above_bottom_corner <= 65527,
                appended(start, self@, done),
                done + grid_rows(middle, after_left_corner as int, before_right_corner as int, fill_y as int, above_bottom_corner as int)
                    == grid_rows(middle, after_left_corner as int, before_right_corner as int, below_top_corner as int, above_bottom_corner as int),
            decreases (if fill_y < above_bottom_corner { above_bottom_corner - fill_y } else { 0 }),
        {
            let ghost before = self@;
            self.draw_row(middle, after_left_corner, before_right_corner, fill_y);
            proof {
                let r = row_cells(middle, after_left_corner as int, before_right_corner as int, fill_y as int);
                lemma_appended_trans(start, before, self@, done, r);
                let rest = grid_rows(middle, after_left_corner as int, before_right_corner as int, fill_y + CELL, above_bottom_corner as int);
                assert(done + r + rest =~= done + (r + rest));
                done = done + r;
            }
            fill_y = fill_y + CELL;
        }
        assert(done =~= grid_rows(middle, after_left_corner as int, before_right_corner as int, below_top_corner as int, above_bottom_corner as int));
        let ghost grid = done;

        let mut fill_x = after_left_corner;
        proof {
            assert(done + h_edges(top, bottom, fill_x as int, before_right_corner as int, y as int, above_bottom_corner as int) =~= grid + h_edges(top, bottom, after_left_corner as int, before_right_corner as int, y as int, above_bottom_corner as int));
        }
        while fill_x < before_right_corner
            invariant
                before_right_corner <= 65527,
                above_bottom_corner <= 65527,
                y + CELL <= 65535,
                appended(start, self@, done),
                done + h_edges(top, bottom, fill_x as int, before_right_corner as int, y as int, above_bottom_corner as int)
                    == grid + h_edges(top, bottom, after_left_corner as int, before_right_corner as int, y as int, above_bottom_corner as int),
            decreases (if fill_x < before_right_corner { before_right_corner - fill_x } else { 0 }),
        {
            let ghost before = self@;
            self.draw_cell(top, fill_x, y);
            let ghost between = self@;
            self.draw_cell(bottom, fill_x, above_bottom_corner);
            proof {
                let a = seq![cell_target(top, fill_x as int, y as int)];
                let b = seq![cell_target(bottom, fill_x as int, above_bottom_corner as int)];
                lemma_appended_trans(before, between, self@, a, b);
                lemma_appended_trans(start, before, self@, done, a + b);
                let rest = h_edges(top, bottom, fill_x + CELL, before_right_corner as int, y as int, above_bottom_corner as int);
                assert(a + b =~= seq![a[0], b[0]]);
                assert(done + (a + b) + rest =~= done + (seq![a[0], b[0]] + rest));
                done = done + (a + b);
            }
            fill_x = fill_x + CELL;
        }
        let ghost edges_h = done;

        let mut fill_y = below_top_corner;
        proof {
            assert(done + v_edges(middle_left, middle_right, fill_y as int, above_bottom_corner as int, x as int, before_right_corner as int) =~= edges_h + v_edges(middle_left, middle_right, below_top_corner as int, above_bottom_corner as int, x as int, before_right_corner as int));
        }
        while fill_y < above_bottom_corner
            invariant
                before_right_corner <= 65527,
                above_bottom_corner <= 65527,
                x + CELL <= 65535,
                appended(start, self@, done),
                done + v_edges(middle_left, middle_right, fill_y as int, above_bottom_corner as int, x as int, before_right_corner as int)
                    == edges_h + v_edges(middle_left, middle_right, below_top_corner as int, above_bottom_corner as int, x as int, before_right_corner as int),
            decreases (if fill_y < above_bottom_corner { above_bottom_corner - fill_y } else { 0 }),
        {
            let ghost before = self@;
            self.draw_cell(middle_left, x, fill_y);
            let ghost between = self@;
            self.draw_cell(middle_right, before_right_corner, fill_y);
            proof {
                let a = seq![cell_target(middle_left, x as int, fill_y as int)];
                let b = seq![cell_target(middle_right, before_right_corner as int, fill_y as int)];
                lemma_appended_trans(before, between, self@, a, b);
                lemma_appended_trans(start, before, self@, done, a + b);
                let rest = v_edges(middle_left, middle_right, fill_y + CELL, above_bottom_corner as int, x as int, before_right_corner as int);
                assert(a + b =~= seq![a[0], b[0]]);
                assert(done + (a + b) + rest =~= done + (seq![a[0], b[0]] + rest));
                done = done + (a + b);
            }
            fill_y = fill_y + CELL;
        }

        let corners: [(sprite::XY, u16, u16); 4] = [
            (top_left, x, y),
            (top_right, before_right_corner, y),
            (bottom_left, x, above_bottom_corner),
            (bottom_right, before_right_corner, above_bottom_corner),
        ];
        let ghost before_corners = done;
        let mut k: usize = 0;
        while k < 4
            invariant
                k <= 4,
                before_right_corner <= 65527,
                above_bottom_corner <= 65527,
                x + CELL <= 65535,
                y + CELL <= 65535,
                corners@ == seq![
                    (top_left, x, y),
                    (top_right, before_right_corner, y),
                    (bottom_left, x, above_bottom_corner),
                    (bottom_right, before_right_corner, above_bottom_corner),
                ],
                appended(start, self@, done),
                done == before_corners + Seq::new(k as nat, |j: int| cell_target(corners@[j].0, corners@[j].1 as int, corners@[j].2 as int)),
            decreases 4 - k,
        {
            let (sprite_xy, cx, cy) = corners[k];
            let ghost before = self@;
            self.draw_cell(sprite_xy, cx, cy);
            proof {
                let a = seq![cell_target(sprite_xy, cx as int, cy as int)];
                lemma_appended_trans(start, before, self@, done, a);
                done = done + a;
                assert(done =~= before_corners + Seq::new((k + 1) as nat, |j: int| cell_target(corners@[j].0, corners@[j].1 as int, corners@[j].2 as int)));
            }
            k = k + 1;
        }
        proof {
            assert(top_left == cell_sprite(nine_slice, 0, 0));
            assert(top == cell_sprite(nine_slice, 1, 0));
            assert(top_right == cell_sprite(nine_slice, 2, 0));
            assert(middle_left == cell_sprite(nine_slice, 0, 1));
            assert(middle == cell_sprite(nine_slice, 1, 1));
            assert(middle_right == cell_sprite(nine_slice, 2, 1));
            assert(bottom_left == cell_sprite(nine_slice, 0, 2));
            assert(bottom == cell_sprite(nine_slice, 1, 2));
            assert(bottom_right == cell_sprite(nine_slice, 2, 2));
            assert(done =~= nine_slice_targets(nine_slice, rect));
        }
    }
}

} // verus!
