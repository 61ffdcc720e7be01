//! What holds of sprite drawing: drawing twice restores the pixels, and when
//! a draw reports a collision.

use crate::display::{
    bit_collides, blit, cell_index, collides, drawn, flips, row_hits, sprite_bit,
    touches, Screen, CELLS, HEIGHT,
};
use vstd::prelude::*;

verus! {

/// Drawing the same sprite at the same place twice in succession restores
/// the pixels.
///
/// The overlay entries of the cells that the sprite lands on are dropped by
/// the first draw; where the sprite lands on no cell with an overlay entry,
/// the whole screen is restored.
pub proof fn lemma_draw_twice_restores(screen: Screen, x: int, y: int, sprite: Seq<u8>)
    requires
        screen.wf(),
    ensures
        drawn(drawn(screen, x, y, sprite), x, y, sprite).pixels == screen.pixels,
        (forall|cell: int|
            0 <= cell < CELLS && touches(x, y, sprite, sprite.len() as int, cell)
                ==> screen.overlay[cell].is_none()) ==> drawn(
            drawn(screen, x, y, sprite),
            x,
            y,
            sprite,
        ) == screen,
{
    let once = drawn(screen, x, y, sprite);
    let twice = drawn(once, x, y, sprite);
    assert(twice.pixels =~= screen.pixels);
    if forall|cell: int|
        0 <= cell < CELLS && touches(x, y, sprite, sprite.len() as int, cell)
            ==> screen.overlay[cell].is_none() {
        assert(twice.overlay =~= screen.overlay);
    }
}

/// A set bit of a row hits the cell it lands on, and a cell that a row hits
/// is the landing cell of one of its set bits.
proof fn lemma_row_hits_bits(x: int, y: int, byte: u8, row: int, cell: int)
    requires
        0 <= cell < CELLS,
    ensures
        row_hits(x, y, byte, row, 8, cell) <==> exists|col: int|
            0 <= col < 8 && sprite_bit(byte, col) && cell == #[trigger] cell_index(x + col, y + row),
{
    reveal(row_hits);
    if row_hits(x, y, byte, row, 8, cell) {
        let col = ((cell % 64) - x) % 64;
        assert(cell == cell_index(x + col, y + row));
    }
}

/// Two different rows among the first 32 of a sprite hit no common cell.
proof fn lemma_rows_apart(x: int, y: int, first: u8, second: u8, r1: int, r2: int, cell: int)
    requires
        0 <= r1 < HEIGHT,
        0 <= r2 < HEIGHT,
        r1 != r2,
    ensures
        !(row_hits(x, y, first, r1, 8, cell) && row_hits(x, y, second, r2, 8, cell)),
{
    reveal(row_hits);
}

/// A cell that the first `rows` rows touch is hit by one of them.
proof fn lemma_touches_row(x: int, y: int, sprite: Seq<u8>, rows: int, cell: int) -> (row: int)
    requires
        touches(x, y, sprite, rows, cell),
    ensures
        0 <= row < rows,
        row_hits(x, y, sprite[row], row, 8, cell),
    decreases rows,
{
    if row_hits(x, y, sprite[rows - 1], rows - 1, 8, cell) {
        rows - 1
    } else {
        lemma_touches_row(x, y, sprite, rows - 1, cell)
    }
}

/// A cell that one of the first `rows` rows hits is touched by them.
proof fn lemma_row_touches(x: int, y: int, sprite: Seq<u8>, rows: int, row: int, cell: int)
    requires
        0 <= row < rows,
        row_hits(x, y, sprite[row], row, 8, cell),
    ensures
        touches(x, y, sprite, rows, cell),
    decreases rows,
{
    if row < rows - 1 {
        lemma_row_touches(x, y, sprite, rows - 1, row, cell);
    }
}

/// Among the first 32 rows of a sprite no two set bits land on the same
/// cell, so a cell is flipped exactly when a set bit lands on it.
pub proof fn lemma_flips_where_touched(x: int, y: int, sprite: Seq<u8>, rows: int, cell: int)
    requires
        rows <= HEIGHT,
    ensures
        flips(x, y, sprite, rows, cell) == touches(x, y, sprite, rows, cell),
    decreases rows,
{
    if rows > 0 {
        lemma_flips_where_touched(x, y, sprite, rows - 1, cell);
        if touches(x, y, sprite, rows - 1, cell) {
            let row = lemma_touches_row(x, y, sprite, rows - 1, cell);
            lemma_rows_apart(x, y, sprite[row], sprite[rows - 1], row, rows - 1, cell);
        }
    }
}

/// For a sprite of at most 32 rows, a draw reports a collision exactly when
/// a set bit lands on a cell that was set before the draw.
pub proof fn lemma_collides_where_set(pixels: Seq<bool>, x: int, y: int, sprite: Seq<u8>)
    requires
        pixels.len() == CELLS,
        sprite.len() <= HEIGHT,
    ensures
        collides(pixels, x, y, sprite, sprite.len() as int) <==> exists|cell: int|
            0 <= cell < CELLS && #[trigger] pixels[cell] && touches(
                x,
                y,
                sprite,
                sprite.len() as int,
                cell,
            ),
{
    let rows = sprite.len() as int;
    if collides(pixels, x, y, sprite, rows) {
        let (row, col) = choose|row: int, col: int|
            0 <= row < rows && 0 <= col < 8 && #[trigger] bit_collides(
                pixels,
                x,
                y,
                sprite,
                row,
                col,
            );
        let cell = cell_index(x + col, y + row);
        lemma_landing_cell_untouched(pixels, x, y, sprite, row, col);
        lemma_row_hits_bits(x, y, sprite[row], row, cell);
        lemma_row_touches(x, y, sprite, rows, row, cell);
        assert(pixels[cell] && touches(x, y, sprite, rows, cell));
    }
    if exists|cell: int|
        0 <= cell < CELLS && #[trigger] pixels[cell] && touches(x, y, sprite, rows, cell) {
        let cell = choose|cell: int|
            0 <= cell < CELLS && #[trigger] pixels[cell] && touches(x, y, sprite, rows, cell);
        let row = lemma_touches_row(x, y, sprite, rows, cell);
        lemma_row_hits_bits(x, y, sprite[row], row, cell);
        let col = choose|col: int|
            0 <= col < 8 && sprite_bit(sprite[row], col) && cell == #[trigger] cell_index(
                x + col,
                y + row,
            );
        lemma_landing_cell_untouched(pixels, x, y, sprite, row, col);
        assert(bit_collides(pixels, x, y, sprite, row, col));
    }
}

/// Where bit `col` of row `row` is set, none of the rows before it changed
/// the cell it lands on, provided the row is among the first 32.
proof fn lemma_landing_cell_untouched(
    pixels: Seq<bool>,
    x: int,
    y: int,
    sprite: Seq<u8>,
    row: int,
    col: int,
)
    requires
        pixels.len() == CELLS,
        0 <= row < HEIGHT,
        0 <= col < 8,
        sprite_bit(sprite[row], col),
    ensures
        0 <= cell_index(x + col, y + row) < CELLS,
        blit(pixels, x, y, sprite, row)[cell_index(x + col, y + row)] == pixels[cell_index(
            x + col,
            y + row,
        )],
{
    let cell = cell_index(x + col, y + row);
    lemma_row_hits_bits(x, y, sprite[row], row, cell);
    lemma_flips_where_touched(x, y, sprite, row, cell);
    if touches(x, y, sprite, row, cell) {
        let earlier = lemma_touches_row(x, y, sprite, row, cell);
        lemma_rows_apart(x, y, sprite[earlier], sprite[row], earlier, row, cell);
    }
}

/// Drawing a sprite of at most 32 rows whose set bits land only on unset
/// cells reports no collision.
pub proof fn lemma_draw_on_unset_cells(pixels: Seq<bool>, x: int, y: int, sprite: Seq<u8>)
    requires
        pixels.len() == CELLS,
        sprite.len() <= HEIGHT,
        forall|cell: int|
            0 <= cell < CELLS && touches(x, y, sprite, sprite.len() as int, cell)
                ==> !#[trigger] pixels[cell],
    ensures
        !collides(pixels, x, y, sprite, sprite.len() as int),
{
    lemma_collides_where_set(pixels, x, y, sprite);
}

/// Drawing a sprite of at most 32 rows, with at least one set bit, whose set
/// bits land only on set cells reports a collision.
pub proof fn lemma_draw_on_set_cells(pixels: Seq<bool>, x: int, y: int, sprite: Seq<u8>)
    requires
        pixels.len() == CELLS,
        sprite.len() <= HEIGHT,
        exists|row: int, col: int|
            0 <= row < sprite.len() && 0 <= col < 8 && #[trigger] sprite_bit(sprite[row], col),
        forall|cell: int|
            0 <= cell < CELLS && touches(x, y, sprite, sprite.len() as int, cell)
                ==> #[trigger] pixels[cell],
    ensures
        collides(pixels, x, y, sprite, sprite.len() as int),
{
    let rows = sprite.len() as int;
    let (row, col) = choose|row: int, col: int|
        0 <= row < sprite.len() && 0 <= col < 8 && #[trigger] sprite_bit(sprite[row], col);
    let cell = cell_index(x + col, y + row);
    lemma_row_hits_bits(x, y, sprite[row], row, cell);
    lemma_row_touches(x, y, sprite, rows, row, cell);
    assert(pixels[cell]);
    lemma_collides_where_set(pixels, x, y, sprite);
}

/// Drawing a sprite of at most 32 rows, with at least one set bit, over
/// itself reports a collision: after a first draw onto unset cells, every
/// cell that the sprite lands on is set.
pub proof fn lemma_redraw_collides(pixels: Seq<bool>, x: int, y: int, sprite: Seq<u8>)
    requires
        pixels.len() == CELLS,
        sprite.len() <= HEIGHT,
        exists|row: int, col: int|
            0 <= row < sprite.len() && 0 <= col < 8 && #[trigger] sprite_bit(sprite[row], col),
        forall|cell: int|
            0 <= cell < CELLS && touches(x, y, sprite, sprite.len() as int, cell)
                ==> !#[trigger] pixels[cell],
    ensures
        !collides(pixels, x, y, sprite, sprite.len() as int),
        collides(blit(pixels, x, y, sprite, sprite.len() as int), x, y, sprite, sprite.len() as int),
{
    let rows = sprite.len() as int;
    let once = blit(pixels, x, y, sprite, rows);
    lemma_draw_on_unset_cells(pixels, x, y, sprite);
    assert forall|cell: int|
        0 <= cell < CELLS && touches(x, y, sprite, rows, cell) implies #[trigger] once[cell] by {
        lemma_flips_where_touched(x, y, sprite, rows, cell);
    }
    lemma_draw_on_set_cells(once, x, y, sprite);
}

/// The collision that a second draw of the same sprite reports, for a
/// sprite of at most 32 rows: it collides exactly when a set bit lands on a
/// cell that was unset before the first draw.
pub proof fn lemma_second_draw_collision(pixels: Seq<bool>, x: int, y: int, sprite: Seq<u8>)
    requires
        pixels.len() == CELLS,
        sprite.len() <= HEIGHT,
    ensures
        collides(blit(pixels, x, y, sprite, sprite.len() as int), x, y, sprite, sprite.len() as int)
            <==> exists|cell: int|
            0 <= cell < CELLS && !#[trigger] pixels[cell] && touches(
                x,
                y,
                sprite,
                sprite.len() as int,
                cell,
            ),
{
    let rows = sprite.len() as int;
    let once = blit(pixels, x, y, sprite, rows);
    lemma_collides_where_set(once, x, y, sprite);
    if exists|cell: int| 0 <= cell < CELLS && #[trigger] once[cell] && touches(x, y, sprite, rows, cell) {
        let cell = choose|cell: int|
            0 <= cell < CELLS && #[trigger] once[cell] && touches(x, y, sprite, rows, cell);
        lemma_flips_where_touched(x, y, sprite, rows, cell);
        assert(!pixels[cell]);
    }
    if exists|cell: int|
        0 <= cell < CELLS && !#[trigger] pixels[cell] && touches(x, y, sprite, rows, cell) {
        let cell = choose|cell: int|
            0 <= cell < CELLS && !#[trigger] pixels[cell] && touches(x, y, sprite, rows, cell);
        lemma_flips_where_touched(x, y, sprite, rows, cell);
        assert(once[cell]);
    }
}

/// Where a sprite of at most 32 rows lands both on a set and on an unset
/// cell, or on no cell at all, the second of two draws in succession reports
/// the same collision as the first.
pub proof fn lemma_draw_twice_same_collision(pixels: Seq<bool>, x: int, y: int, sprite: Seq<u8>)
    requires
        pixels.len() == CELLS,
        sprite.len() <= HEIGHT,
        (exists|cell: int|
            0 <= cell < CELLS && #[trigger] pixels[cell] && touches(
                x,
                y,
                sprite,
                sprite.len() as int,
                cell,
            )) <==> (exists|cell: int|
            0 <= cell < CELLS && !#[trigger] pixels[cell] && touches(
                x,
                y,
                sprite,
                sprite.len() as int,
                cell,
            )),
    ensures
        collides(blit(pixels, x, y, sprite, sprite.len() as int), x, y, sprite, sprite.len() as int)
            == collides(pixels, x, y, sprite, sprite.len() as int),
{
    lemma_collides_where_set(pixels, x, y, sprite);
    lemma_second_draw_collision(pixels, x, y, sprite);
}

} // verus!
