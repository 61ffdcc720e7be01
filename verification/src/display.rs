//! The monochrome framebuffer: XOR sprite drawing with wrap-around, collision
//! reporting, and a separate overlay layer for tooling.

use vstd::prelude::*;

verus! {

/// Width of the screen in cells.
pub const WIDTH: usize = 64;

/// Height of the screen in cells.
pub const HEIGHT: usize = 32;

/// Number of cells of the screen.
pub const CELLS: usize = 2048;

/// Number of cells that one sprite byte covers.
pub const SPRITE_WIDTH: usize = 8;

/// The mathematical content of a framebuffer.
///
/// `pixels` is the layer that the machine draws into, row by row; it alone
/// decides collisions.  `overlay` is the tooling layer: a cell of it either
/// lets the pixel below show through (`None`) or forces what is shown.
pub struct Screen {
    pub pixels: Seq<bool>,
    pub overlay: Seq<Option<bool>>,
}

impl Screen {
    /// Both layers have one entry per cell.
    pub open spec fn wf(self) -> bool {
        self.pixels.len() == CELLS && self.overlay.len() == CELLS
    }

    /// What a renderer sees at a cell.
    pub open spec fn shown_at(self, cell: int) -> bool {
        match self.overlay[cell] {
            Some(lit) => lit,
            None => self.pixels[cell],
        }
    }

    /// What a renderer sees: the pixels with the overlay laid over them.
    pub open spec fn shown(self) -> Seq<bool> {
        Seq::new(CELLS as nat, |cell: int| self.shown_at(cell))
    }

    /// The screen with every pixel unset and an empty overlay.
    pub open spec fn blank() -> Screen {
        Screen {
            pixels: Seq::new(CELLS as nat, |cell: int| false),
            overlay: Seq::new(CELLS as nat, |cell: int| None),
        }
    }
}

/// The cell at column `x` and row `y`, both taken modulo the screen size.
pub open spec fn cell_index(x: int, y: int) -> int {
    (y % 32) * 64 + (x % 64)
}

/// The value of the bit of a sprite byte that is drawn in column `col`;
/// column 0 is the most significant bit.
pub open spec fn bit_weight(col: int) -> int {
    if col == 0 {
        128
    } else if col == 1 {
        64
    } else if col == 2 {
        32
    } else if col == 3 {
        16
    } else if col == 4 {
        8
    } else if col == 5 {
        4
    } else if col == 6 {
        2
    } else {
        1
    }
}

/// Whether the bit of `byte` for column `col` is set.
#[verifier::opaque]
pub open spec fn sprite_bit(byte: u8, col: int) -> bool {
    (byte as int / bit_weight(col)) % 2 == 1
}

/// Whether a sprite row, drawn as row `row` of a sprite placed at `(x, y)`,
/// has a set bit among its first `cols` columns that lands on `cell`.
#[verifier::opaque]
pub open spec fn row_hits(x: int, y: int, byte: u8, row: int, cols: int, cell: int) -> bool {
    let col = ((cell % 64) - x) % 64;
    cell / 64 == (y + row) % 32 && col < cols && sprite_bit(byte, col)
}

/// Whether an odd number of set bits of the first `rows` rows of `sprite`,
/// placed at `(x, y)`, land on `cell`: whether drawing those rows flips it.
pub open spec fn flips(x: int, y: int, sprite: Seq<u8>, rows: int, cell: int) -> bool
    decreases rows,
{
    if rows <= 0 {
        false
    } else {
        flips(x, y, sprite, rows - 1, cell) != row_hits(x, y, sprite[rows - 1], rows - 1, 8, cell)
    }
}

/// Whether any set bit of the first `rows` rows of `sprite`, placed at
/// `(x, y)`, lands on `cell`.
pub open spec fn touches(x: int, y: int, sprite: Seq<u8>, rows: int, cell: int) -> bool
    decreases rows,
{
    if rows <= 0 {
        false
    } else {
        touches(x, y, sprite, rows - 1, cell) || row_hits(x, y, sprite[rows - 1], rows - 1, 8, cell)
    }
}

/// The pixels after the first `rows` rows of `sprite` were XORed in at
/// `(x, y)`.
pub open spec fn blit(pixels: Seq<bool>, x: int, y: int, sprite: Seq<u8>, rows: int) -> Seq<bool> {
    Seq::new(pixels.len(), |cell: int| pixels[cell] != flips(x, y, sprite, rows, cell))
}

/// The overlay after the first `rows` rows of `sprite` were drawn at
/// `(x, y)`: a cell that a set bit landed on shows the pixel again.
pub open spec fn uncover(
    overlay: Seq<Option<bool>>,
    x: int,
    y: int,
    sprite: Seq<u8>,
    rows: int,
) -> Seq<Option<bool>> {
    Seq::new(
        overlay.len(),
        |cell: int|
            if touches(x, y, sprite, rows, cell) {
                None
            } else {
                overlay[cell]
            },
    )
}

/// Whether the bit of `byte` for column `col` is set and lands on a set cell
/// of `pixels`, where `byte` is drawn as row `row` of a sprite at `(x, y)`.
pub open spec fn bit_unsets(pixels: Seq<bool>, x: int, y: int, byte: u8, row: int, col: int) -> bool {
    sprite_bit(byte, col) && pixels[cell_index(x + col, y + row)]
}

/// Whether one of the first `cols` bits of a sprite row turns a set cell of
/// `pixels` unset.
pub open spec fn row_unsets(
    pixels: Seq<bool>,
    x: int,
    y: int,
    byte: u8,
    row: int,
    cols: int,
) -> bool {
    exists|col: int| 0 <= col < cols && #[trigger] bit_unsets(pixels, x, y, byte, row, col)
}

/// Whether the bit of row `row`, column `col` is set and lands on a cell
/// that is set at the moment the row is drawn, so that the cell goes from set
/// to unset.
pub open spec fn bit_collides(
    pixels: Seq<bool>,
    x: int,
    y: int,
    sprite: Seq<u8>,
    row: int,
    col: int,
) -> bool {
    bit_unsets(blit(pixels, x, y, sprite, row), x, y, sprite[row], row, col)
}

/// Whether drawing the first `rows` rows of `sprite` at `(x, y)` turns some
/// set cell unset.
pub open spec fn collides(pixels: Seq<bool>, x: int, y: int, sprite: Seq<u8>, rows: int) -> bool {
    exists|row: int, col: int|
        0 <= row < rows && 0 <= col < 8 && #[trigger] bit_collides(pixels, x, y, sprite, row, col)
}

/// The screen after `sprite` was drawn at `(x, y)`.
pub open spec fn drawn(screen: Screen, x: int, y: int, sprite: Seq<u8>) -> Screen {
    Screen {
        pixels: blit(screen.pixels, x, y, sprite, sprite.len() as int),
        overlay: uncover(screen.overlay, x, y, sprite, sprite.len() as int),
    }
}

/// The cell that bit `col` of row `row` lands on is the only cell that the
/// bit hits, and it lies on the screen.
proof fn lemma_target_cell(x: int, y: int, row: int, col: int, cell: int)
    requires
        0 <= x,
        0 <= y,
        0 <= row,
        0 <= col < 8,
        0 <= cell < CELLS,
    ensures
        0 <= cell_index(x + col, y + row) < CELLS,
        cell == cell_index(x + col, y + row) <==> (cell / 64 == (y + row) % 32 && ((cell % 64) - x)
            % 64 == col),
{
}

/// A row hits a cell with its first `col + 1` bits exactly when it hits the
/// cell with its first `col` bits or bit `col` is set and lands on the cell.
proof fn lemma_row_hits_next(x: int, y: int, byte: u8, row: int, col: int, cell: int)
    requires
        0 <= x,
        0 <= y,
        0 <= row,
        0 <= col < 8,
        0 <= cell < CELLS,
    ensures
        row_hits(x, y, byte, row, col + 1, cell) == (row_hits(x, y, byte, row, col, cell) || (cell
            == cell_index(x + col, y + row) && sprite_bit(byte, col))),
        !row_hits(x, y, byte, row, 0, cell),
{
    reveal(row_hits);
    lemma_target_cell(x, y, row, col, cell);
}

/// The cell that bit `col` of a row lands on is hit by none of the bits
/// before it.
proof fn lemma_target_not_hit_before(x: int, y: int, byte: u8, row: int, col: int)
    requires
        0 <= x,
        0 <= y,
        0 <= row,
        0 <= col < 8,
    ensures
        !row_hits(x, y, byte, row, col, cell_index(x + col, y + row)),
{
    reveal(row_hits);
}

/// One of the first `col + 1` bits of a row turns a set cell unset exactly
/// when one of the first `col` bits does or bit `col` does.
proof fn lemma_row_unsets_next(pixels: Seq<bool>, x: int, y: int, byte: u8, row: int, col: int)
    requires
        0 <= col,
    ensures
        row_unsets(pixels, x, y, byte, row, col + 1) == (row_unsets(pixels, x, y, byte, row, col)
            || bit_unsets(pixels, x, y, byte, row, col)),
        !row_unsets(pixels, x, y, byte, row, 0),
{
    if row_unsets(pixels, x, y, byte, row, col) {
        let c = choose|c: int| 0 <= c < col && #[trigger] bit_unsets(pixels, x, y, byte, row, c);
        assert(bit_unsets(pixels, x, y, byte, row, c));
    }
    if bit_unsets(pixels, x, y, byte, row, col) {
        assert(row_unsets(pixels, x, y, byte, row, col + 1));
    }
}

/// The first `row + 1` rows of a sprite turn a set cell unset exactly when
/// the first `row` rows do or row `row` does, on the pixels as the rows
/// before it left them.
proof fn lemma_collides_next(pixels: Seq<bool>, x: int, y: int, sprite: Seq<u8>, row: int)
    requires
        0 <= row,
    ensures
        collides(pixels, x, y, sprite, row + 1) == (collides(pixels, x, y, sprite, row)
            || row_unsets(blit(pixels, x, y, sprite, row), x, y, sprite[row], row, 8)),
{
    if collides(pixels, x, y, sprite, row) {
        let (r, c) = choose|r: int, c: int|
            0 <= r < row && 0 <= c < 8 && #[trigger] bit_collides(pixels, x, y, sprite, r, c);
        assert(bit_collides(pixels, x, y, sprite, r, c));
    }
    if row_unsets(blit(pixels, x, y, sprite, row), x, y, sprite[row], row, 8) {
        let c = choose|c: int|
            0 <= c < 8 && #[trigger] bit_unsets(
                blit(pixels, x, y, sprite, row),
                x,
                y,
                sprite[row],
                row,
                c,
            );
        assert(bit_collides(pixels, x, y, sprite, row, c));
    }
    if collides(pixels, x, y, sprite, row + 1) {
        let (r, c) = choose|r: int, c: int|
            0 <= r < row + 1 && 0 <= c < 8 && #[trigger] bit_collides(pixels, x, y, sprite, r, c);
        if r == row {
            assert(bit_unsets(blit(pixels, x, y, sprite, row), x, y, sprite[row], row, c));
        } else {
            assert(bit_collides(pixels, x, y, sprite, r, c));
        }
    }
}

/// The framebuffer of the machine.
pub struct Display {
    pixels: Vec<bool>,
    overlay: Vec<Option<bool>>,
}

impl Display {
    /// The content of the framebuffer.
    pub closed spec fn view(&self) -> Screen {
        Screen { pixels: self.pixels@, overlay: self.overlay@ }
    }

    /// Every framebuffer holds one pixel and one overlay entry per cell.
    #[verifier::type_invariant]
    pub open spec fn well_formed(&self) -> bool {
        self@.wf()
    }

    /// A framebuffer with every cell unset.
    pub fn new() -> (display: Display)
        ensures
            display@ == Screen::blank(),
    {
        let display = Display { pixels: vec![false; CELLS], overlay: vec![None; CELLS] };
        assert(display.pixels@ =~= Screen::blank().pixels);
        assert(display.overlay@ =~= Screen::blank().overlay);
        display
    }

    /// Sets every cell unset and empties the overlay.
    pub fn clear(&mut self)
        ensures
            final(self)@ == Screen::blank(),
    {
        proof {
            use_type_invariant(&*self);
        }
        let mut cell: usize = 0;
        while cell < CELLS
            invariant
                cell <= CELLS,
                self.pixels.len() == CELLS,
                self.overlay.len() == CELLS,
                forall|c: int| 0 <= c < cell ==> self.pixels[c] == false,
                forall|c: int| 0 <= c < cell ==> self.overlay[c] == None::<bool>,
            decreases CELLS - cell,
        {
            self.pixels[cell] = false;
            self.overlay[cell] = None;
            cell += 1;
        }
        assert(self.pixels@ =~= Screen::blank().pixels);
        assert(self.overlay@ =~= Screen::blank().overlay);
    }

    /// Whether the bit of a sprite byte for column `col` is set.
    fn bit_of(byte: u8, col: usize) -> (lit: bool)
        requires
            col < 8,
        ensures
            lit == sprite_bit(byte, col as int),
    {
        proof {
            reveal(sprite_bit);
        }
        match col {
            0 => (byte / 128) % 2 == 1,
            1 => (byte / 64) % 2 == 1,
            2 => (byte / 32) % 2 == 1,
            3 => (byte / 16) % 2 == 1,
            4 => (byte / 8) % 2 == 1,
            5 => (byte / 4) % 2 == 1,
            6 => (byte / 2) % 2 == 1,
            _ => byte % 2 == 1,
        }
    }

    /// The cell that bit `col` of row `row` of a sprite at `(x, y)` lands on.
    fn target_cell(x: usize, y: usize, row: usize, col: usize) -> (cell: usize)
        requires
            col < 8,
        ensures
            cell == cell_index(x + col, y + row),
            cell < CELLS,
    {
        let line: usize = (y % HEIGHT + row % HEIGHT) % HEIGHT;
        let column: usize = (x % WIDTH + col) % WIDTH;
        line * WIDTH + column
    }

    /// XORs one sprite row into the pixels.
    #[verifier::rlimit(40)]
    fn draw_row(&mut self, x: usize, y: usize, byte: u8, row: usize) -> (hit: bool)
        ensures
            final(self)@.wf(),
            forall|cell: int|
                0 <= cell < CELLS ==> #[trigger] final(self)@.pixels[cell] == (old(self)@.pixels[cell]
                    != row_hits(x as int, y as int, byte, row as int, 8, cell)),
            forall|cell: int|
                0 <= cell < CELLS ==> #[trigger] final(self)@.overlay[cell] == (if row_hits(
                    x as int,
                    y as int,
                    byte,
                    row as int,
                    8,
                    cell,
                ) {
                    None
                } else {
                    old(self)@.overlay[cell]
                }),
            hit == row_unsets(old(self)@.pixels, x as int, y as int, byte, row as int, 8),
    {
        proof {
            use_type_invariant(&*self);
            assert forall|cell: int| 0 <= cell < CELLS implies !#[trigger] row_hits(
                x as int,
                y as int,
                byte,
                row as int,
                0,
                cell,
            ) by {
                lemma_row_hits_next(x as int, y as int, byte, row as int, 0, cell);
            }
        }
        let mut hit: bool = false;
        let mut col: usize = 0;
        while col < SPRITE_WIDTH
            invariant
                col <= 8,
                self.pixels.len() == CELLS,
                self.overlay.len() == CELLS,
                old(self).pixels.len() == CELLS,
                old(self).overlay.len() == CELLS,
                forall|cell: int|
                    0 <= cell < CELLS ==> #[trigger] self.pixels[cell] == (old(self).pixels[cell]
                        != row_hits(x as int, y as int, byte, row as int, col as int, cell)),
                forall|cell: int|
                    0 <= cell < CELLS ==> #[trigger] self.overlay[cell] == (if row_hits(
                        x as int,
                        y as int,
                        byte,
                        row as int,
                        col as int,
                        cell,
                    ) {
                        None
                    } else {
                        old(self).overlay[cell]
                    }),
                hit == row_unsets(
                    old(self).pixels@,
                    x as int,
                    y as int,
                    byte,
                    row as int,
                    col as int,
                ),
            decreases 8 - col,
        {
            let target: usize = Self::target_cell(x, y, row, col);
            let lit: bool = Self::bit_of(byte, col);
            proof {
                assert forall|cell: int| 0 <= cell < CELLS implies #[trigger] row_hits(
                    x as int,
                    y as int,
                    byte,
                    row as int,
                    col + 1,
                    cell,
                ) == (row_hits(x as int, y as int, byte, row as int, col as int, cell) || (cell
                    == target && lit)) by {
                    lemma_row_hits_next(x as int, y as int, byte, row as int, col as int, cell);
                }
                lemma_row_hits_next(x as int, y as int, byte, row as int, col as int, target as int);
                if lit {
                    // No earlier bit of the row landed on the target.
                    lemma_target_not_hit_before(x as int, y as int, byte, row as int, col as int);
                }
                lemma_row_unsets_next(
                    old(self).pixels@,
                    x as int,
                    y as int,
                    byte,
                    row as int,
                    col as int,
                );
            }
            if lit {
                if self.pixels[target] {
                    hit = true;
                }
                let flipped: bool = !self.pixels[target];
                self.pixels[target] = flipped;
                self.overlay[target] = None;
            }
            col += 1;
        }
        hit
    }

    /// Draws a sprite at `(x, y)` by XOR, one byte per row and one bit per
    /// cell, the most significant bit leftmost.
    ///
    /// Coordinates wrap around both edges of the screen.  The result tells
    /// whether some cell went from set to unset.  A cell that a set bit lands
    /// on loses its overlay entry, so that the drawing shows.
    pub fn draw(&mut self, x: usize, y: usize, sprite: &[u8]) -> (collided: bool)
        ensures
            final(self)@ == drawn(old(self)@, x as int, y as int, sprite@),
            collided == collides(
                old(self)@.pixels,
                x as int,
                y as int,
                sprite@,
                sprite@.len() as int,
            ),
    {
        proof {
            use_type_invariant(&*self);
        }
        let mut collided: bool = false;
        let mut row: usize = 0;
        while row < sprite.len()
            invariant
                row <= sprite.len(),
                self@.wf(),
                old(self)@.wf(),
                self@.pixels == blit(old(self)@.pixels, x as int, y as int, sprite@, row as int),
                self@.overlay == uncover(
                    old(self)@.overlay,
                    x as int,
                    y as int,
                    sprite@,
                    row as int,
                ),
                collided == collides(old(self)@.pixels, x as int, y as int, sprite@, row as int),
            decreases sprite.len() - row,
        {
            let hit: bool = self.draw_row(x, y, sprite[row], row);
            proof {
                assert(self@.pixels =~= blit(
                    old(self)@.pixels,
                    x as int,
                    y as int,
                    sprite@,
                    row + 1,
                ));
                assert(self@.overlay =~= uncover(
                    old(self)@.overlay,
                    x as int,
                    y as int,
                    sprite@,
                    row + 1,
                ));
                lemma_collides_next(old(self)@.pixels, x as int, y as int, sprite@, row as int);
            }
            if hit {
                collided = true;
            }
            row += 1;
        }
        proof {
            assert(self@.pixels =~= drawn(old(self)@, x as int, y as int, sprite@).pixels);
            assert(self@.overlay =~= drawn(old(self)@, x as int, y as int, sprite@).overlay);
        }
        collided
    }

    /// What a renderer sees at column `x`, row `y`, both taken modulo the
    /// screen size.
    pub fn pixel(&self, x: usize, y: usize) -> (lit: bool)
        ensures
            lit == self@.shown_at(cell_index(x as int, y as int)),
    {
        proof {
            use_type_invariant(self);
        }
        let cell: usize = (y % HEIGHT) * WIDTH + x % WIDTH;
        match self.overlay[cell] {
            Some(lit) => lit,
            None => self.pixels[cell],
        }
    }

    /// The grid as a renderer sees it, row by row: the pixels with the
    /// overlay laid over them.
    pub fn snapshot(&self) -> (grid: Vec<bool>)
        ensures
            grid@ == self@.shown(),
    {
        proof {
            use_type_invariant(self);
        }
        let mut grid: Vec<bool> = Vec::with_capacity(CELLS);
        let mut cell: usize = 0;
        while cell < CELLS
            invariant
                cell <= CELLS,
                self.pixels.len() == CELLS,
                self.overlay.len() == CELLS,
                grid.len() == cell,
                forall|c: int| 0 <= c < cell ==> grid[c] == self@.shown_at(c),
            decreases CELLS - cell,
        {
            let lit: bool = match self.overlay[cell] {
                Some(lit) => lit,
                None => self.pixels[cell],
            };
            grid.push(lit);
            cell += 1;
        }
        assert(grid@ =~= self@.shown());
        grid
    }

    /// Tooling write path: forces what is shown at `(x, y)`, both taken
    /// modulo the screen size, without touching the pixel below.
    ///
    /// The machine never reads the overlay: collisions are decided by the
    /// pixels alone.
    pub fn set_overlay(&mut self, x: usize, y: usize, lit: bool)
        ensures
            final(self)@.pixels == old(self)@.pixels,
            final(self)@.overlay == old(self)@.overlay.update(
                cell_index(x as int, y as int),
                Some(lit),
            ),
    {
        proof {
            use_type_invariant(&*self);
        }
        let cell: usize = (y % HEIGHT) * WIDTH + x % WIDTH;
        self.overlay[cell] = Some(lit);
    }
}

} // verus!
