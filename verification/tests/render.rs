use evo_grid::cell::{Cell, Creature, Rgb, Substance, AMOUNT_ONE};
use evo_grid::engine::SimulationEngine;
use evo_grid::render::{draw_pixels, render_cell_creature, render_cell_substance};

fn creature(r: u8, g: u8, b: u8) -> Creature {
    Creature { color: Rgb { r, g, b } }
}

fn substance(r: u8, g: u8, b: u8, amount: u32) -> Substance {
    Substance::new(Rgb { r, g, b }, amount)
}

#[test]
fn a_creature_is_drawn_opaque_in_its_color() {
    assert_eq!(render_cell_creature(Some(creature(12, 34, 56))), [12, 34, 56, 255]);
}

#[test]
fn no_creature_is_drawn_transparent() {
    assert_eq!(render_cell_creature(None), [0, 0, 0, 0]);
}

#[test]
fn a_substance_is_as_opaque_as_it_is_concentrated() {
    assert_eq!(render_cell_substance(Some(substance(1, 2, 3, 0))), [1, 2, 3, 0]);
    assert_eq!(render_cell_substance(Some(substance(1, 2, 3, 3_921))), [1, 2, 3, 0]);
    assert_eq!(render_cell_substance(Some(substance(1, 2, 3, 3_922))), [1, 2, 3, 1]);
    assert_eq!(render_cell_substance(Some(substance(1, 2, 3, 90_000))), [1, 2, 3, 22]);
    assert_eq!(render_cell_substance(Some(substance(1, 2, 3, 500_000))), [1, 2, 3, 127]);
    assert_eq!(render_cell_substance(Some(substance(1, 2, 3, 540_000))), [1, 2, 3, 137]);
    assert_eq!(render_cell_substance(Some(substance(1, 2, 3, 999_999))), [1, 2, 3, 254]);
    assert_eq!(render_cell_substance(Some(substance(1, 2, 3, AMOUNT_ONE))), [1, 2, 3, 255]);
}

#[test]
fn an_amount_above_one_is_drawn_opaque() {
    let wild = Substance { color: Rgb { r: 1, g: 2, b: 3 }, amount: u32::MAX };
    assert_eq!(render_cell_substance(Some(wild)), [1, 2, 3, 255]);
}

#[test]
fn no_substance_is_drawn_transparent() {
    assert_eq!(render_cell_substance(None), [0, 0, 0, 0]);
}

#[test]
fn the_frame_holds_four_bytes_for_each_pixel_in_order() {
    let pixels = vec![[0, 0, 0, 0], [1, 2, 3, 255], [30, 60, 90, 127], [9, 8, 7, 6]];
    let mut screen = vec![0xAAu8; 16];
    draw_pixels(&pixels, &mut screen);
    assert_eq!(screen, vec![0, 0, 0, 0, 1, 2, 3, 255, 30, 60, 90, 127, 9, 8, 7, 6]);
}

#[test]
fn a_frame_of_the_creature_layer_follows_the_cells_in_row_major_order() {
    let mut world = SimulationEngine::new(2, 2, 0).unwrap();
    world
        .seed_cell(1, 0, Cell { occupant: Some(creature(1, 2, 3)), field: None })
        .unwrap();
    world
        .seed_cell(0, 1, Cell { occupant: Some(creature(4, 5, 6)), field: None })
        .unwrap();
    let pixels: Vec<[u8; 4]> =
        world.cells_iter().iter().map(|c| render_cell_creature(c.occupant)).collect();
    let mut screen = vec![0xAAu8; 4 * world.num_cells()];
    draw_pixels(&pixels, &mut screen);
    assert_eq!(screen, vec![0, 0, 0, 0, 1, 2, 3, 255, 4, 5, 6, 255, 0, 0, 0, 0]);
}

#[test]
fn a_longer_buffer_keeps_what_lies_behind_the_last_pixel() {
    let pixels = vec![[1, 2, 3, 4], [5, 6, 7, 8]];
    let mut screen = vec![0xAAu8; 11];
    draw_pixels(&pixels, &mut screen);
    assert_eq!(screen, vec![1, 2, 3, 4, 5, 6, 7, 8, 0xAA, 0xAA, 0xAA]);
}

#[test]
fn a_shorter_buffer_takes_the_pixels_that_fit_whole() {
    let pixels = vec![[1, 2, 3, 4], [5, 6, 7, 8], [9, 10, 11, 12]];
    let mut screen = vec![0xAAu8; 7];
    draw_pixels(&pixels, &mut screen);
    assert_eq!(screen, vec![1, 2, 3, 4, 0xAA, 0xAA, 0xAA]);
}

#[test]
fn nothing_is_drawn_from_no_pixels_or_into_no_buffer() {
    let mut screen = vec![0xAAu8; 5];
    draw_pixels(&Vec::new(), &mut screen);
    assert_eq!(screen, vec![0xAAu8; 5]);
    let mut nothing: Vec<u8> = Vec::new();
    draw_pixels(&vec![[1, 2, 3, 4]], &mut nothing);
    assert!(nothing.is_empty());
}

#[test]
fn drawing_twice_gives_the_same_frame() {
    let mut world = SimulationEngine::new(3, 3, 4).unwrap();
    world.populate(500_000, 500_000);
    let pixels: Vec<[u8; 4]> =
        world.cells_iter().iter().map(|c| render_cell_substance(c.field)).collect();
    let mut screen = vec![0u8; 4 * world.num_cells()];
    draw_pixels(&pixels, &mut screen);
    let mut again = vec![0xFFu8; 4 * world.num_cells()];
    draw_pixels(&pixels, &mut again);
    assert_eq!(screen, again);
}
