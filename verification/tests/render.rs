use twisted_fish::platform_types::command::{Command, Rect};
use twisted_fish::platform_types::unscaled;
use twisted_fish::render::hash::{native_byte_order, ByteOrder, Cell};
use twisted_fish::render::HashCells;

const CELLS_W: u16 = 16;
const CELLS_H: u16 = 16;

fn one_element() -> [Command; 1] {
    let mut command = Command::default();
    command.rect = Rect::from_unscaled(unscaled::Rect {
        x: unscaled::X(0),
        y: unscaled::Y(0),
        w: unscaled::W(CELLS_W),
        h: unscaled::H(CELLS_H),
    });
    [command]
}

#[test]
fn on_the_empty_slice() {
    let mut h_c = HashCells::default();

    h_c.reset_then_hash_commands(&[], (CELLS_W, CELLS_H));
    h_c.swap();
    h_c.reset_then_hash_commands(&[], (CELLS_W, CELLS_H));

    let (current, prev) = h_c.current_and_prev();

    assert_eq!(current, prev);
}

#[test]
fn render_on_the_empty_slice() {
    let mut h_c = HashCells::default();

    h_c.reset_then_hash_commands(&[], (CELLS_W, CELLS_H));
    h_c.swap();
    h_c.reset_then_hash_commands(&[], (CELLS_W, CELLS_H));

    let (current, prev) = h_c.current_and_prev();

    assert_eq!(current, prev);
}

#[test]
fn on_this_one_element_slice() {
    let mut h_c = HashCells::default();

    let commands = &one_element();

    h_c.reset_then_hash_commands(commands, (CELLS_W, CELLS_H));
    h_c.swap();
    h_c.reset_then_hash_commands(commands, (CELLS_W, CELLS_H));

    let (current, prev) = h_c.current_and_prev();

    assert_eq!(current, prev);
}

#[test]
fn render_on_this_one_element_slice() {
    let mut h_c = HashCells::default();

    let mut commands = one_element();
    commands[0].colour_override = 0xFF00_0000;

    h_c.reset_then_hash_commands(&commands, (CELLS_W, CELLS_H));
    h_c.swap();
    h_c.reset_then_hash_commands(&commands, (CELLS_W, CELLS_H));

    let (current, prev) = h_c.current_and_prev();

    assert_eq!(current, prev);
}

#[test]
fn a_different_frame_hashes_differently() {
    let mut h_c = HashCells::default();
    h_c.reset_then_hash_commands(&[], (CELLS_W, CELLS_H));
    h_c.swap();
    h_c.reset_then_hash_commands(&one_element(), (CELLS_W, CELLS_H));
    let (current, prev) = h_c.current_and_prev();
    assert_ne!(current, prev);
}

#[test]
fn the_hash_depends_on_the_size() {
    let mut h_c = HashCells::default();
    h_c.reset_then_hash_commands(&[], (CELLS_W, CELLS_H));
    h_c.swap();
    h_c.reset_then_hash_commands(&[], (CELLS_H, CELLS_W + 1));
    let (current, prev) = h_c.current_and_prev();
    assert_ne!(current, prev);
}

#[test]
fn the_byte_order_is_the_machines() {
    let little = 1u16.to_ne_bytes()[0] == 1;
    match native_byte_order() {
        ByteOrder::Little => assert!(little),
        ByteOrder::Big => assert!(!little),
    }
}

#[test]
fn hashing_a_byte_follows_fnv1a() {
    let mut cell = Cell(0x811c_9dc5);
    twisted_fish::render::hash::byte(&mut cell, b'a');
    assert_eq!(cell, Cell(0xe40c_292c));
}

#[test]
fn the_current_cell_can_be_written() {
    let mut h_c = HashCells::default();
    *h_c.current_mut() = Cell(7);
    let (current, _) = h_c.current_and_prev();
    assert_eq!(*current, Cell(7));
}

#[test]
fn the_layout_of_one_tells_the_byte_order() {
    assert_eq!(twisted_fish::render::hash::byte_order_of([1, 0]), ByteOrder::Little);
    assert_eq!(twisted_fish::render::hash::byte_order_of([0, 1]), ByteOrder::Big);
}
