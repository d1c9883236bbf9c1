use vstd::prelude::*;

verus! {

/// The colour word handed to a renderer for a lit pixel.
pub const LIT: u32 = 0xffff_ffff;

/// The colour word handed to a renderer for a dark pixel.
pub const DARK: u32 = 0xff00_0000;

/// The position of pixel `(x, y)` in the row-major sequence of cells.
pub open spec fn cell(x: int, y: int) -> int {
    y * 64 + x
}

/// A display with every pixel dark.
pub open spec fn blank() -> Seq<bool> {
    Seq::new(2048, |i: int| false)
}

/// The colour word for a pixel.
pub open spec fn colour(lit: bool) -> u32 {
    if lit {
        LIT
    } else {
        DARK
    }
}

/// Whether column `col` of a sprite row is set; column 0 is the highest bit.
pub open spec fn sprite_bit(row: u8, col: usize) -> bool {
    row & (0x80u8 >> col) != 0
}

/// Whether the sprite `rows`, its top left corner at `(x0, y0)`, has a set
/// bit on pixel `(px, py)`. Coordinates wrap around: a sprite that runs over
/// the right or the bottom edge continues at the opposite edge.
#[verifier::opaque]
pub open spec fn sprite_covers(rows: Seq<u8>, x0: u8, y0: u8, px: int, py: int) -> bool {
    let col = (px - x0) % 64;
    let row = (py - y0) % 32;
    col < 8 && row < rows.len() && sprite_bit(rows[row], col as usize)
}

/// The display after the sprite has been XORed onto it.
pub open spec fn drawn(screen: Seq<bool>, rows: Seq<u8>, x0: u8, y0: u8) -> Seq<bool> {
    Seq::new(2048, |i: int| screen[i] != sprite_covers(rows, x0, y0, i % 64, i / 64))
}

/// Whether XORing the sprite onto the display darkens a lit pixel.
pub open spec fn collides(screen: Seq<bool>, rows: Seq<u8>, x0: u8, y0: u8) -> bool {
    exists|i: int|
        0 <= i < 2048 && #[trigger] screen[i] && sprite_covers(rows, x0, y0, i % 64, i / 64)
}

/// The cell on which bit `col` of row `row` of a sprite at `(x0, y0)` falls.
spec fn place(x0: u8, y0: u8, row: int, col: int) -> int {
    cell((x0 + col) % 64, (y0 + row) % 32)
}

/// The turn of cell `i` when the sprite at `(x0, y0)` is drawn bit by bit,
/// row after row: bit `col` of row `row` is number `8 * row + col`.
#[verifier::opaque]
spec fn turn(x0: u8, y0: u8, i: int) -> int {
    ((i / 64 - y0) % 32) * 8 + (i % 64 - x0) % 64
}

/// A lit pixel that the first `k` bits of the sprite darken.
spec fn darkened(
    screen: Seq<bool>,
    rows: Seq<u8>,
    x0: u8,
    y0: u8,
    k: int,
    i: int,
) -> bool {
    0 <= i < 2048 && screen[i] && sprite_covers(rows, x0, y0, i % 64, i / 64) && turn(x0, y0, i)
        < k
}

/// Bit `col` of row `row` falls on a cell of the display, it is that cell's
/// turn when its number comes up, and the sprite covers the cell exactly
/// when the bit is set.
proof fn lemma_place(rows: Seq<u8>, x0: u8, y0: u8, row: int, col: int)
    requires
        0 <= row < rows.len() <= 32,
        0 <= col < 8,
    ensures
        0 <= place(x0, y0, row, col) < 2048,
        turn(x0, y0, place(x0, y0, row, col)) == 8 * row + col,
        sprite_covers(
            rows,
            x0,
            y0,
            place(x0, y0, row, col) % 64,
            place(x0, y0, row, col) / 64,
        ) == sprite_bit(rows[row], col as usize),
{
    reveal(turn);
    reveal(sprite_covers);
    let px = (x0 + col) % 64;
    let py = (y0 + row) % 32;
    let at = place(x0, y0, row, col);
    assert(at / 64 == py && at % 64 == px);
    assert((py - y0) % 32 == row);
    assert((px - x0) % 64 == col);
}

/// A cell that the sprite covers has its turn among the sprite's bits, and
/// no other cell has that turn.
proof fn lemma_turn(rows: Seq<u8>, x0: u8, y0: u8, i: int)
    requires
        0 <= i < 2048,
        rows.len() <= 32,
        sprite_covers(rows, x0, y0, i % 64, i / 64),
    ensures
        0 <= turn(x0, y0, i) < 8 * rows.len(),
        i == place(x0, y0, turn(x0, y0, i) / 8, turn(x0, y0, i) % 8),
{
    reveal(turn);
    reveal(sprite_covers);
    let row = (i / 64 - y0) % 32;
    let col = (i % 64 - x0) % 64;
    assert(0 <= row < rows.len() && 0 <= col < 8);
    assert(turn(x0, y0, i) == row * 8 + col);
    assert(turn(x0, y0, i) / 8 == row && turn(x0, y0, i) % 8 == col);
    assert((y0 + row) % 32 == i / 64);
    assert((x0 + col) % 64 == i % 64);
}

/// A 64x32 grid of pixels, each lit or dark. The view is the row-major
/// sequence of its 2048 cells; pixel `(x, y)` is cell `y * 64 + x`.
#[derive(Clone, Debug, PartialEq, Eq)]
pub struct Framebuffer {
    pub cells: [bool; 2048],
}

impl View for Framebuffer {
    type V = Seq<bool>;

    open spec fn view(&self) -> Seq<bool> {
        self.cells@
    }
}

impl Framebuffer {
    /// A dark display.
    pub fn new() -> (f: Framebuffer)
        ensures
            f@ == blank(),
    {
        let f = Framebuffer { cells: [false; 2048] };
        assert(f@ =~= blank());
        f
    }

    /// Makes every pixel dark.
    pub fn clear(&mut self)
        ensures
            final(self)@ == blank(),
    {
        self.cells = [false; 2048];
        assert(self@ =~= blank());
    }

    /// Whether pixel `(x, y)` is lit.
    pub fn get(&self, x: usize, y: usize) -> (lit: bool)
        requires
            x < 64,
            y < 32,
        ensures
            lit == self@[cell(x as int, y as int)],
    {
        self.cells[y * 64 + x]
    }

    /// Lights or darkens pixel `(x, y)`.
    pub fn set(&mut self, x: usize, y: usize, lit: bool)
        requires
            x < 64,
            y < 32,
        ensures
            final(self)@ == old(self)@.update(cell(x as int, y as int), lit),
    {
        self.cells[y * 64 + x] = lit;
    }

    /// XORs the sprite `rows` onto the display with its top left corner at
    /// `(x0, y0)`, one byte per row, highest bit leftmost. Coordinates wrap
    /// around at the right and the bottom edge. The result says whether a lit
    /// pixel went dark.
    #[verifier::rlimit(50)]
    pub fn draw(&mut self, rows: &[u8], x0: u8, y0: u8) -> (hit: bool)
        requires
            rows@.len() <= 32,
        ensures
            final(self)@ == drawn(old(self)@, rows@, x0, y0),
            hit == collides(old(self)@, rows@, x0, y0),
    {
        let n = rows.len();
        let mut hit = false;
        let mut k: usize = 0;
        proof {
            assert forall|i: int|
                0 <= i < 2048 && sprite_covers(rows@, x0, y0, i % 64, i / 64) implies 0 <= turn(
                    x0,
                    y0,
                    i,
                ) by {
                lemma_turn(rows@, x0, y0, i);
            }
        }
        while k < n * 8
            invariant
                n == rows@.len(),
                n <= 32,
                k <= n * 8,
                forall|i: int|
                    0 <= i < 2048 ==> #[trigger] self@[i] == (old(self)@[i] != (sprite_covers(
                        rows@,
                        x0,
                        y0,
                        i % 64,
                        i / 64,
                    ) && turn(x0, y0, i) < k)),
                hit == exists|i: int| #[trigger] darkened(old(self)@, rows@, x0, y0, k as int, i),
            decreases n * 8 - k,
        {
            let r = k / 8;
            let c = k % 8;
            let px = (x0 as usize + c) % 64;
            let py = (y0 as usize + r) % 32;
            let at = py * 64 + px;
            let bit = rows[r] & (0x80u8 >> c) != 0;
            let ghost was_hit = hit;
            let ghost k0 = k as int;
            proof {
                lemma_place(rows@, x0, y0, r as int, c as int);
                assert(at == place(x0, y0, r as int, c as int));
                assert(self@[at as int] == old(self)@[at as int]);
                assert forall|i: int|
                    0 <= i < 2048 && sprite_covers(rows@, x0, y0, i % 64, i / 64) && turn(
                        x0,
                        y0,
                        i,
                    ) == k0 implies i == at by {
                    lemma_turn(rows@, x0, y0, i);
                }
            }
            if bit {
                if self.cells[at] {
                    hit = true;
                }
                self.cells[at] = !self.cells[at];
            }
            k += 1;
            proof {
                if hit {
                    if was_hit {
                        let w = choose|i: int| #[trigger] darkened(old(self)@, rows@, x0, y0, k0, i);
                        assert(darkened(old(self)@, rows@, x0, y0, k as int, w));
                    } else {
                        assert(darkened(old(self)@, rows@, x0, y0, k as int, at as int));
                    }
                } else {
                    assert forall|i: int| !#[trigger] darkened(
                        old(self)@,
                        rows@,
                        x0,
                        y0,
                        k as int,
                        i,
                    ) by {
                        if darkened(old(self)@, rows@, x0, y0, k as int, i) {
                            if turn(x0, y0, i) < k0 {
                                assert(darkened(old(self)@, rows@, x0, y0, k0, i));
                            } else {
                                assert(i == at);
                            }
                        }
                    }
                }
            }
        }
        proof {
            assert forall|i: int|
                0 <= i < 2048 && sprite_covers(rows@, x0, y0, i % 64, i / 64) implies turn(
                    x0,
                    y0,
                    i,
                ) < k by {
                lemma_turn(rows@, x0, y0, i);
            }
            assert(self@ =~= drawn(old(self)@, rows@, x0, y0));
            if hit {
                let w = choose|i: int| #[trigger] darkened(old(self)@, rows@, x0, y0, k as int, i);
                assert(old(self)@[w] && sprite_covers(rows@, x0, y0, w % 64, w / 64));
            } else {
                assert forall|i: int|
                    0 <= i < 2048 && #[trigger] old(self)@[i] implies !sprite_covers(
                        rows@,
                        x0,
                        y0,
                        i % 64,
                        i / 64,
                    ) by {
                    if sprite_covers(rows@, x0, y0, i % 64, i / 64) {
                        assert(darkened(old(self)@, rows@, x0, y0, k as int, i));
                    }
                }
            }
        }
        hit
    }

    /// The whole display as one colour word per pixel, row by row: `LIT` for
    /// a lit pixel and `DARK` for a dark one.
    pub fn render(&self) -> (words: Vec<u32>)
        ensures
            words@ == Seq::new(2048, |i: int| colour(self@[i])),
    {
        let mut words: Vec<u32> = Vec::with_capacity(2048);
        let mut i: usize = 0;
        while i < 2048
            invariant
                i <= 2048,
                words@ == Seq::new(i as nat, |j: int| colour(self@[j])),
            decreases 2048 - i,
        {
            let word = if self.cells[i] {
                LIT
            } else {
                DARK
            };
            words.push(word);
            i += 1;
        }
        words
    }
}

impl Default for Framebuffer {
    fn default() -> (f: Framebuffer)
        ensures
            f@ == blank(),
    {
        Framebuffer::new()
    }
}

} // verus!
