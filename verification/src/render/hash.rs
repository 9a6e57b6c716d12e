//! A 32 bit FNV-1a hash of the draw commands.
use vstd::prelude::*;
use crate::platform_types::Command;

verus! {

pub const OFFSET_BASIS: u32 = 0x811c9dc5;
pub const PRIME: u32 = 0x01000193;

/// The state of a hash.
#[derive(Clone, Copy, Debug, PartialEq, Eq, Structural)]
pub struct Cell(pub u32);

impl Cell {
    pub open spec fn default_spec() -> Cell {
        Cell(OFFSET_BASIS)
    }
}

impl Default for Cell {
    fn default() -> (res: Cell)
        ensures
            res == Cell::default_spec(),
    {
        Cell(OFFSET_BASIS)
    }
}

/// The order in which the bytes of a number are fed to the hash.
#[derive(Clone, Copy, Debug, PartialEq, Eq, Structural)]
pub enum ByteOrder {
    Little,
    Big,
}

/// The hash after one more byte.
pub open spec fn fnv_byte(h: u32, b: u8) -> u32 {
    (((h ^ (b as u32)) as nat * PRIME as nat) % 0x1_0000_0000) as u32
}

/// The hash after the bytes `s`, in order.
pub open spec fn fnv_bytes(h: u32, s: Seq<u8>) -> u32
    decreases s.len(),
{
    if s.len() == 0 {
        h
    } else {
        fnv_byte(fnv_bytes(h, s.drop_last()), s.last())
    }
}

/// Hashing two pieces in turn is hashing them joined.
pub proof fn lemma_fnv_bytes_concat(h: u32, a: Seq<u8>, b: Seq<u8>)
    ensures
        fnv_bytes(h, a + b) == fnv_bytes(fnv_bytes(h, a), b),
    decreases b.len(),
{
    if b.len() == 0 {
        assert(a + b =~= a);
    } else {
        lemma_fnv_bytes_concat(h, a, b.drop_last());
        assert((a + b).drop_last() =~= a + b.drop_last());
    }
}

/// The bytes of `x` in the order `order`.
pub open spec fn u16_bytes(order: ByteOrder, x: u16) -> Seq<u8> {
    let lo = (x % 256) as u8;
    let hi = (x / 256) as u8;
    match order {
        ByteOrder::Little => seq![lo, hi],
        ByteOrder::Big => seq![hi, lo],
    }
}

/// The bytes of `x` in the order `order`.
pub open spec fn u32_bytes(order: ByteOrder, x: u32) -> Seq<u8> {
    let b0 = (x % 256) as u8;
    let b1 = ((x / 256) % 256) as u8;
    let b2 = ((x / 65536) % 256) as u8;
    let b3 = (x / 16777216) as u8;
    match order {
        ByteOrder::Little => seq![b0, b1, b2, b3],
        ByteOrder::Big => seq![b3, b2, b1, b0],
    }
}

/// The bytes that a command is hashed as: its corners, its sprite position and
/// its colour.
pub open spec fn command_bytes(order: ByteOrder, c: Command) -> Seq<u8> {
    u16_bytes(order, c.rect.x_min@ as u16) + u16_bytes(order, c.rect.y_min@ as u16) + u16_bytes(
        order,
        c.rect.x_max@ as u16,
    ) + u16_bytes(order, c.rect.y_max@ as u16) + u16_bytes(order, c.sprite_xy.x.0) + u16_bytes(
        order,
        c.sprite_xy.y.0,
    ) + u32_bytes(order, c.colour_override)
}

/// The bytes of the commands, in order.
pub open spec fn commands_bytes(order: ByteOrder, cs: Seq<Command>) -> Seq<u8>
    decreases cs.len(),
{
    if cs.len() == 0 {
        Seq::empty()
    } else {
        commands_bytes(order, cs.drop_last()) + command_bytes(order, cs.last())
    }
}

/// The hash of a frame: its size, then its commands.
pub open spec fn frame_hash(order: ByteOrder, cs: Seq<Command>, wh: (u16, u16)) -> u32 {
    fnv_bytes(OFFSET_BASIS, u16_bytes(order, wh.0) + u16_bytes(order, wh.1) + commands_bytes(order, cs))
}

/// The bytes of `x` in the machine's own order, by `u16::to_ne_bytes`: its
/// documentation says that they are the little-endian or the big-endian bytes,
/// as the machine is. Which of the two is not stated.
#[verifier::external_body]
fn u16_to_ne_bytes(x: u16) -> (res: [u8; 2])
    ensures
        res@ == u16_bytes(ByteOrder::Little, x) || res@ == u16_bytes(ByteOrder::Big, x),
{
    x.to_ne_bytes()
}

/// The byte order in which the number one is laid out as `one`: little-endian
/// where the low byte comes first, big-endian otherwise.
pub fn byte_order_of(one: [u8; 2]) -> (res: ByteOrder)
    ensures
        res == (if one[0] == 1 {
            ByteOrder::Little
        } else {
            ByteOrder::Big
        }),
{
    if one[0] == 1 {
        ByteOrder::Little
    } else {
        ByteOrder::Big
    }
}

/// The machine's byte order, as `to_ne_bytes` lays out the number one. Which
/// order that is depends on the machine, so no clause says which is returned;
/// `byte_order_of` says how the bytes decide it.
pub fn native_byte_order() -> (res: ByteOrder) {
    let one = u16_to_ne_bytes(1);
    byte_order_of(one)
}

/// Feeds one byte to the hash.
pub fn byte(hash: &mut Cell, byte: u8)
    ensures
        final(hash).0 == fnv_byte(old(hash).0, byte),
{
    hash.0 = hash.0 ^ (byte as u32);
    hash.0 = hash.0.wrapping_mul(PRIME);
}

/// Feeds the bytes to the hash, in order.
pub fn bytes(hash: &mut Cell, bytes: &[u8])
    ensures
        final(hash).0 == fnv_bytes(old(hash).0, bytes@),
{
    let mut i: usize = 0;
    while i < bytes.len()
        invariant
            i <= bytes@.len(),
            hash.0 == fnv_bytes(old(hash).0, bytes@.take(i as int)),
        decreases bytes@.len() - i,
    {
        byte(hash, bytes[i]);
        assert(bytes@.take(i + 1).drop_last() =~= bytes@.take(i as int));
        i = i + 1;
    }
    assert(bytes@.take(i as int) =~= bytes@);
}

/// Feeds the bytes of `x` to the hash, in the order `order`.
pub fn u16(hash: &mut Cell, x: u16, order: ByteOrder)
    ensures
        final(hash).0 == fnv_bytes(old(hash).0, u16_bytes(order, x)),
{
    let lo = (x % 256) as u8;
    let hi = (x / 256) as u8;
    let b = match order {
        ByteOrder::Little => [lo, hi],
        ByteOrder::Big => [hi, lo],
    };
    assert(b@ =~= u16_bytes(order, x));
    bytes(hash, &b);
}

/// Feeds the bytes of `x` to the hash, in the order `order`.
pub fn u32(hash: &mut Cell, x: u32, order: ByteOrder)
    ensures
        final(hash).0 == fnv_bytes(old(hash).0, u32_bytes(order, x)),
{
    let b0 = (x % 256) as u8;
    let b1 = ((x / 256) % 256) as u8;
    let b2 = ((x / 65536) % 256) as u8;
    let b3 = (x / 16777216) as u8;
    let b = match order {
        ByteOrder::Little => [b0, b1, b2, b3],
        ByteOrder::Big => [b3, b2, b1, b0],
    };
    assert(b@ =~= u32_bytes(order, x));
    bytes(hash, &b);
}

/// Feeds a command to the hash.
pub fn command(hash: &mut Cell, command: &Command, order: ByteOrder)
    ensures
        final(hash).0 == fnv_bytes(old(hash).0, command_bytes(order, *command)),
{
    let ghost h0 = hash.0;
    let parts: [u16; 6] = [
        command.rect.x_min.get().0,
        command.rect.y_min.get().0,
        command.rect.x_max.get().0,
        command.rect.y_max.get().0,
        command.sprite_xy.x.0,
        command.sprite_xy.y.0,
    ];
    let ghost expected = command_bytes(order, *command);
    let mut k: usize = 0;
    let ghost mut fed: Seq<u8> = Seq::empty();
    while k < 6
        invariant
            k <= 6,
            hash.0 == fnv_bytes(h0, fed),
            fed == Seq::new(k as nat, |j: int| u16_bytes(order, parts@[j])).fold_left(
                Seq::<u8>::empty(),
                |acc: Seq<u8>, s: Seq<u8>| acc + s,
            ),
        decreases 6 - k,
    {
        let ghost before = hash.0;
        u16(hash, parts[k], order);
        proof {
            lemma_fnv_bytes_concat(h0, fed, u16_bytes(order, parts@[k as int]));
            let s = Seq::new((k + 1) as nat, |j: int| u16_bytes(order, parts@[j]));
            assert(s.drop_last() =~= Seq::new(k as nat, |j: int| u16_bytes(order, parts@[j])));
            fed = fed + u16_bytes(order, parts@[k as int]);
        }
        k = k + 1;
    }
    let ghost before_colour = fed;
    u32(hash, command.colour_override, order);
    proof {
        lemma_fnv_bytes_concat(h0, fed, u32_bytes(order, command.colour_override));
        reveal_with_fuel(Seq::fold_left, 7);
        assert(fed + u32_bytes(order, command.colour_override) =~= expected);
    }
}

/// Feeds another hash's state to the hash.
pub fn hash(hash: &mut Cell, hashed: Cell, order: ByteOrder)
    ensures
        final(hash).0 == fnv_bytes(old(hash).0, u32_bytes(order, hashed.0)),
{
    u32(hash, hashed.0, order);
}

} // verus!
