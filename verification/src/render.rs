//! Deciding when the screen needs redrawing, by hashing the frame's commands.
use vstd::prelude::*;

pub mod clip;
pub mod hash;

use crate::platform_types::{command, ARGB};
use crate::render::hash::{ByteOrder, Cell};

verus! {

/// Which of the two cells holds the current frame's hash.
#[derive(Copy, Clone, Default, Debug, PartialEq, Eq, Structural)]
pub enum CurrentCells {
    #[default]
    A,
    B,
}

/// The hashes of the current and the previous frame's commands.
pub struct HashCells {
    pub current_cells: CurrentCells,
    pub cells_a: Cell,
    pub cells_b: Cell,
    /// The byte order in which numbers are fed to the hash: the machine's own.
    pub order: ByteOrder,
}

impl Default for HashCells {
    fn default() -> (res: HashCells)
        ensures
            res.current_cells == CurrentCells::A,
            res.cells_a == Cell::default_spec(),
            res.cells_b == Cell::default_spec(),
    {
        HashCells {
            current_cells: CurrentCells::A,
            cells_a: Cell::default(),
            cells_b: Cell::default(),
            order: hash::native_byte_order(),
        }
    }
}

impl HashCells {
    /// The cell of the current frame.
    pub open spec fn current_spec(self) -> Cell {
        match self.current_cells {
            CurrentCells::A => self.cells_a,
            CurrentCells::B => self.cells_b,
        }
    }

    /// The cell of the previous frame.
    pub open spec fn prev_spec(self) -> Cell {
        match self.current_cells {
            CurrentCells::A => self.cells_b,
            CurrentCells::B => self.cells_a,
        }
    }

    /// The cells after swapping which is current.
    pub open spec fn swap_spec(self) -> HashCells {
        HashCells {
            current_cells: match self.current_cells {
                CurrentCells::A => CurrentCells::B,
                CurrentCells::B => CurrentCells::A,
            },
            ..self
        }
    }

    /// The cells after hashing `commands` and the size `wh` into the current one.
    pub open spec fn reset_spec(self, commands: Seq<command::Command>, wh: (u16, u16)) -> HashCells {
        let cell = Cell(hash::frame_hash(self.order, commands, wh));
        match self.current_cells {
            CurrentCells::A => HashCells { cells_a: cell, ..self },
            CurrentCells::B => HashCells { cells_b: cell, ..self },
        }
    }

    /// The cell of the current frame, to be written.
    pub fn current_mut(&mut self) -> (res: &mut Cell)
        ensures
            *res == old(self).current_spec(),
            final(self).current_cells == old(self).current_cells,
            final(self).order == old(self).order,
            final(self).prev_spec() == old(self).prev_spec(),
            final(self).current_spec() == *final(res),
    {
        match self.current_cells {
            CurrentCells::A => &mut self.cells_a,
            CurrentCells::B => &mut self.cells_b,
        }
    }

    pub fn current_and_prev(&self) -> (res: (&Cell, &Cell))
        ensures
            *res.0 == self.current_spec(),
            *res.1 == self.prev_spec(),
    {
        match self.current_cells {
            CurrentCells::A => (&self.cells_a, &self.cells_b),
            CurrentCells::B => (&self.cells_b, &self.cells_a),
        }
    }

    /// Makes the current cell the previous one and the other the current one.
    pub fn swap(&mut self)
        ensures
            *final(self) == old(self).swap_spec(),
    {
        self.current_cells = match self.current_cells {
            CurrentCells::A => CurrentCells::B,
            CurrentCells::B => CurrentCells::A,
        };
    }

    /// Resets the current cell and hashes the size `(w, h)` and then `commands`
    /// into it.
    pub fn reset_then_hash_commands(&mut self, commands: &[command::Command], wh: (u16, u16))
        ensures
            *final(self) == old(self).reset_spec(commands@, wh),
    {
        let mut cell = Cell::default();
        let (w, h) = wh;
        hash::u16(&mut cell, w, self.order);
        hash::u16(&mut cell, h, self.order);
        proof {
            hash::lemma_fnv_bytes_concat(
                hash::OFFSET_BASIS,
                hash::u16_bytes(self.order, w),
                hash::u16_bytes(self.order, h),
            );
            assert(commands@.take(0) =~= Seq::<command::Command>::empty());
            assert(hash::u16_bytes(self.order, w) + hash::u16_bytes(self.order, h) + hash::commands_bytes(
                self.order,
                commands@.take(0),
            ) =~= hash::u16_bytes(self.order, w) + hash::u16_bytes(self.order, h));
        }
        let mut i: usize = 0;
        while i < commands.len()
            invariant
                i <= commands@.len(),
                cell.0 == hash::fnv_bytes(
                    hash::OFFSET_BASIS,
                    hash::u16_bytes(self.order, w) + hash::u16_bytes(self.order, h) + hash::commands_bytes(
                        self.order,
                        commands@.take(i as int),
                    ),
                ),
            decreases commands@.len() - i,
        {
            let ghost before = cell.0;
            hash::command(&mut cell, &commands[i], self.order);
            proof {
                let prefix = hash::u16_bytes(self.order, w) + hash::u16_bytes(self.order, h);
                let done = hash::commands_bytes(self.order, commands@.take(i as int));
                let next = hash::command_bytes(self.order, commands@[i as int]);
                hash::lemma_fnv_bytes_concat(hash::OFFSET_BASIS, prefix + done, next);
                assert(commands@.take(i + 1).drop_last() =~= commands@.take(i as int));
                assert(prefix + done + next =~= prefix + hash::commands_bytes(
                    self.order,
                    commands@.take(i + 1),
                ));
            }
            i = i + 1;
        }
        assert(commands@.take(i as int) =~= commands@);
        match self.current_cells {
            CurrentCells::A => {
                self.cells_a = cell;
            },
            CurrentCells::B => {
                self.cells_b = cell;
            },
        }
    }
}

/// Hashing the same commands and size before and after a swap leaves the current
/// and the previous cells equal: an unchanged frame is recognised as unchanged.
pub proof fn lemma_same_frame_same_cells(cells: HashCells, commands: Seq<command::Command>, wh: (u16, u16))
    ensures
        ({
            let after = cells.reset_spec(commands, wh).swap_spec().reset_spec(commands, wh);
            after.current_spec() == after.prev_spec()
        }),
{
}

/// Whether the frame must be drawn again.
#[derive(Clone, Copy, Debug, PartialEq, Eq, Structural)]
pub enum NeedsRedraw {
    No,
    Yes,
}

/// The pixels of the scaled screen and of the unscaled one, and the hashes of
/// the last frames.
pub struct FrameBuffer {
    pub buffer: Vec<ARGB>,
    pub unscaled_buffer: Vec<ARGB>,
    pub width: clip::W,
    pub height: clip::H,
    pub cells: HashCells,
}

impl FrameBuffer {
    /// A frame buffer for a screen of `width` by `height` pixels: nothing drawn
    /// yet, and a black unscaled screen.
    pub fn from_size(wh: (clip::W, clip::H)) -> (res: Self)
        ensures
            res.width == wh.0,
            res.height == wh.1,
            res.buffer@.len() == 0,
            res.unscaled_buffer@ == Seq::new(command::LENGTH as nat, |i: int| 0u32),
            res.cells.current_cells == CurrentCells::A,
            res.cells.cells_a == Cell::default_spec(),
            res.cells.cells_b == Cell::default_spec(),
    {
        let (width, height) = wh;
        assert((width as usize) * (height as usize) <= 0xFFFF_FFFF) by (nonlinear_arith)
            requires
                width <= 0xFFFF,
                height <= 0xFFFF,
        ;
        let mut unscaled_buffer: Vec<ARGB> = Vec::new();
        let mut i: usize = 0;
        while i < command::LENGTH
            invariant
                i <= command::LENGTH,
                unscaled_buffer@ == Seq::new(i as nat, |j: int| 0u32),
            decreases command::LENGTH - i,
        {
            unscaled_buffer.push(0);
            i = i + 1;
            assert(unscaled_buffer@ =~= Seq::new(i as nat, |j: int| 0u32));
        }
        FrameBuffer {
            buffer: Vec::with_capacity((width as usize) * (height as usize)),
            unscaled_buffer,
            width,
            height,
            cells: HashCells::default(),
        }
    }
}

} // verus!
