use chip8::display::{Display, CELLS, HEIGHT, WIDTH};

fn lit_cells(display: &Display) -> Vec<usize> {
    let grid = display.snapshot();
    (0..grid.len()).filter(|cell| grid[*cell]).collect()
}

#[test]
fn screen_dimensions() {
    assert_eq!(WIDTH, 64);
    assert_eq!(HEIGHT, 32);
    assert_eq!(CELLS, 64 * 32);
}

#[test]
fn new_display_is_blank() {
    let display = Display::new();
    let grid = display.snapshot();
    assert_eq!(grid.len(), 2048);
    assert!(grid.iter().all(|lit| !*lit));
}

#[test]
fn draw_sets_the_cells_of_the_set_bits() {
    let mut display = Display::new();
    let collided = display.draw(0, 0, &[0xF0, 0x90]);
    assert!(!collided);
    assert_eq!(lit_cells(&display), vec![0, 1, 2, 3, 64, 67]);
}

#[test]
fn draw_places_the_most_significant_bit_leftmost() {
    let mut display = Display::new();
    display.draw(10, 5, &[0x80]);
    assert_eq!(lit_cells(&display), vec![5 * 64 + 10]);
    let mut display = Display::new();
    display.draw(10, 5, &[0x01]);
    assert_eq!(lit_cells(&display), vec![5 * 64 + 17]);
    let mut display = Display::new();
    display.draw(10, 5, &[0x24]);
    assert_eq!(lit_cells(&display), vec![5 * 64 + 12, 5 * 64 + 15]);
}

#[test]
fn draw_wraps_around_the_right_edge() {
    let mut display = Display::new();
    let collided = display.draw(60, 31, &[0xFF]);
    assert!(!collided);
    let row = 31 * 64;
    assert_eq!(
        lit_cells(&display),
        vec![row, row + 1, row + 2, row + 3, row + 60, row + 61, row + 62, row + 63]
    );
}

#[test]
fn draw_wraps_around_the_bottom_edge() {
    let mut display = Display::new();
    let collided = display.draw(62, 31, &[0xC0, 0xC0]);
    assert!(!collided);
    assert_eq!(lit_cells(&display), vec![62, 63, 31 * 64 + 62, 31 * 64 + 63]);
}

#[test]
fn draw_takes_coordinates_modulo_the_screen() {
    let mut first = Display::new();
    first.draw(64 + 3, 32 * 5 + 4, &[0xA5, 0x3C]);
    let mut second = Display::new();
    second.draw(3, 4, &[0xA5, 0x3C]);
    assert_eq!(first.snapshot(), second.snapshot());
    let mut third = Display::new();
    third.draw(usize::MAX, usize::MAX, &[0x80]);
    let x = usize::MAX % 64;
    let y = usize::MAX % 32;
    assert_eq!(lit_cells(&third), vec![y * 64 + x]);
}

#[test]
fn drawing_onto_unset_cells_does_not_collide() {
    let mut display = Display::new();
    assert!(!display.draw(0, 0, &[0xF0]));
    assert!(!display.draw(4, 0, &[0xF0]));
    assert!(!display.draw(0, 1, &[0xFF, 0xFF]));
}

#[test]
fn drawing_a_sprite_over_itself_collides_and_erases_it() {
    let mut display = Display::new();
    let sprite = [0xF0, 0x90, 0x90, 0x90, 0xF0];
    assert!(!display.draw(12, 7, &sprite));
    assert!(display.draw(12, 7, &sprite));
    assert!(lit_cells(&display).is_empty());
}

#[test]
fn drawing_twice_restores_the_pixels() {
    let mut display = Display::new();
    display.draw(3, 3, &[0xFF, 0x81, 0xFF]);
    let before = display.snapshot();
    let first = display.draw(5, 4, &[0x3C, 0x42, 0x99]);
    let second = display.draw(5, 4, &[0x3C, 0x42, 0x99]);
    assert_eq!(display.snapshot(), before);
    // The sprite lands on set and on unset cells, so both draws collide.
    assert!(first);
    assert!(second);
}

#[test]
fn second_draw_collides_though_the_first_did_not() {
    let mut display = Display::new();
    assert!(!display.draw(0, 0, &[0x80]));
    assert!(display.draw(0, 0, &[0x80]));
}

#[test]
fn partial_overlap_collides_and_leaves_the_difference() {
    let mut display = Display::new();
    display.draw(0, 0, &[0xF0]);
    let collided = display.draw(2, 0, &[0xF0]);
    assert!(collided);
    assert_eq!(lit_cells(&display), vec![0, 1, 4, 5]);
}

#[test]
fn blank_sprite_rows_change_nothing() {
    let mut display = Display::new();
    display.draw(1, 1, &[0xFF]);
    let before = display.snapshot();
    assert!(!display.draw(1, 1, &[0x00, 0x00]));
    assert!(!display.draw(1, 1, &[]));
    assert_eq!(display.snapshot(), before);
}

#[test]
fn rows_beyond_the_screen_height_wrap_onto_earlier_rows() {
    let mut display = Display::new();
    let mut sprite = vec![0u8; 33];
    sprite[0] = 0x80;
    sprite[32] = 0x80;
    // Row 32 lands on the cell that row 0 has just set.
    assert!(display.draw(0, 0, &sprite));
    assert!(lit_cells(&display).is_empty());
}

#[test]
fn clear_unsets_every_cell() {
    let mut display = Display::new();
    display.draw(0, 0, &[0xFF; 15]);
    display.set_overlay(40, 20, true);
    display.clear();
    assert!(lit_cells(&display).is_empty());
    assert!(!display.draw(0, 0, &[0xFF]));
}

#[test]
fn pixel_reads_one_cell() {
    let mut display = Display::new();
    display.draw(8, 2, &[0x81]);
    assert!(display.pixel(8, 2));
    assert!(!display.pixel(9, 2));
    assert!(display.pixel(15, 2));
    assert!(display.pixel(64 + 8, 32 + 2));
    assert!(!display.pixel(8, 3));
}

#[test]
fn overlay_shows_without_deciding_collisions() {
    let mut display = Display::new();
    display.set_overlay(0, 0, true);
    assert!(display.pixel(0, 0));
    assert_eq!(lit_cells(&display), vec![0]);
    // The pixel below is still unset: drawing onto it does not collide.
    assert!(!display.draw(0, 0, &[0x80]));
    assert!(display.pixel(0, 0));
    // Now the pixel is set, and the overlay entry is gone.
    assert!(display.draw(0, 0, &[0x80]));
    assert!(!display.pixel(0, 0));
}

#[test]
fn overlay_can_hide_a_set_pixel() {
    let mut display = Display::new();
    display.draw(0, 0, &[0xC0]);
    display.set_overlay(1, 0, false);
    assert_eq!(lit_cells(&display), vec![0]);
    // The hidden pixel still collides.
    assert!(display.draw(1, 0, &[0x80]));
}

#[test]
fn overlay_survives_draws_that_do_not_land_on_it() {
    let mut display = Display::new();
    display.set_overlay(5, 5, true);
    display.draw(0, 0, &[0xFF]);
    display.draw(5, 5, &[0x00]);
    display.draw(4, 5, &[0x80]);
    assert!(display.pixel(5, 5));
    assert_eq!(lit_cells(&display), vec![0, 1, 2, 3, 4, 5, 6, 7, 5 * 64 + 4, 5 * 64 + 5]);
}

#[test]
fn overlay_coordinates_wrap() {
    let mut display = Display::new();
    display.set_overlay(64 + 2, 32 + 1, true);
    assert_eq!(lit_cells(&display), vec![64 + 2]);
}
