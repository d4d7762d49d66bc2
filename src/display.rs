use vstd::arithmetic::div_mod::lemma_add_mod_noop;
use vstd::prelude::*;

verus! {

/// Width of the framebuffer in pixels.
pub const WIDTH: usize = 64;

/// Height of the framebuffer in pixels.
pub const HEIGHT: usize = 32;

/// Number of pixels in the framebuffer.
pub const PIXELS: usize = 2048;

/// A 64x32 monochrome pixel grid, stored row by row, and a flag that tells
/// the presentation side that the grid changed since it was last shown.
pub struct Display {
    gfx: [bool; 2048],
    draw_flag: bool,
}

/// The grid with every pixel unlit.
pub open spec fn blank() -> Seq<bool> {
    Seq::new(PIXELS as nat, |_i: int| false)
}

/// Position in the row-major grid of the pixel at column `x`, row `y`.
pub open spec fn pixel_index(x: int, y: int) -> int {
    y * WIDTH + x
}

/// Whether pixel `i` (0 is leftmost, most significant bit first) of a
/// sprite row is set.
pub open spec fn row_bit(row: u8, i: int) -> bool {
    0 <= i < 8 && (row & (0x80u8 >> (i as u8))) != 0
}

/// Grid position touched by cell `k` of a sprite drawn at (`x`, `y`):
/// row `k / 8`, bit `k % 8`, wrapped on both axes.
pub open spec fn cell_index(x: int, y: int, k: int) -> int {
    pixel_index((x + k % 8) % (WIDTH as int), (y + k / 8) % (HEIGHT as int))
}

/// Whether cell `k` of the sprite is set.
pub open spec fn cell_set(sprite: Seq<u8>, k: int) -> bool {
    row_bit(sprite[k / 8], k % 8)
}

/// The grid after XOR-ing the first `k` cells of `sprite` (eight per row)
/// into `g` at (`x`, `y`).
pub open spec fn drawn(g: Seq<bool>, x: int, y: int, sprite: Seq<u8>, k: int) -> Seq<bool>
    decreases k,
{
    if k <= 0 {
        g
    } else {
        let prev = drawn(g, x, y, sprite, k - 1);
        if cell_set(sprite, k - 1) {
            let p = cell_index(x, y, k - 1);
            prev.update(p, !prev[p])
        } else {
            prev
        }
    }
}

/// Whether XOR-ing the first `k` cells of `sprite` into `g` at (`x`, `y`)
/// turned off a lit pixel.
pub open spec fn collided(g: Seq<bool>, x: int, y: int, sprite: Seq<u8>, k: int) -> bool
    decreases k,
{
    if k <= 0 {
        false
    } else {
        collided(g, x, y, sprite, k - 1) || (cell_set(sprite, k - 1) && drawn(
            g,
            x,
            y,
            sprite,
            k - 1,
        )[cell_index(x, y, k - 1)])
    }
}

/// The grid after drawing the whole sprite.
pub open spec fn draw_sprite(g: Seq<bool>, x: int, y: int, sprite: Seq<u8>) -> Seq<bool> {
    drawn(g, x % (WIDTH as int), y % (HEIGHT as int), sprite, 8 * sprite.len() as int)
}

/// Whether drawing the whole sprite turned off a lit pixel.
pub open spec fn draw_collides(g: Seq<bool>, x: int, y: int, sprite: Seq<u8>) -> bool {
    collided(g, x % (WIDTH as int), y % (HEIGHT as int), sprite, 8 * sprite.len() as int)
}

proof fn lemma_cell_index_in_grid(x: int, y: int, k: int)
    requires
        0 <= x < WIDTH,
        0 <= y < HEIGHT,
        0 <= k,
    ensures
        0 <= cell_index(x, y, k) < PIXELS,
{
    let px = (x + k % 8) % (WIDTH as int);
    let py = (y + k / 8) % (HEIGHT as int);
    assert(0 <= px < 64 && 0 <= py < 32);
    assert(py * 64 + px < 2048) by (nonlinear_arith)
        requires
            0 <= px < 64,
            0 <= py < 32,
    ;
}

proof fn lemma_drawn_len(g: Seq<bool>, x: int, y: int, sprite: Seq<u8>, k: int)
    requires
        0 <= x < WIDTH,
        0 <= y < HEIGHT,
        g.len() == PIXELS,
    ensures
        drawn(g, x, y, sprite, k).len() == g.len(),
    decreases k,
{
    if k > 0 {
        lemma_drawn_len(g, x, y, sprite, k - 1);
        lemma_cell_index_in_grid(x, y, k - 1);
    }
}

proof fn lemma_leftmost_pixel(h: Seq<bool>, x: int, y: int, k: int)
    requires
        0 <= x < WIDTH,
        0 <= y < HEIGHT,
        1 <= k <= 8,
        h.len() == PIXELS,
    ensures
        drawn(h, x, y, seq![0x80u8], k) == h.update(pixel_index(x, y), !h[pixel_index(x, y)]),
        collided(h, x, y, seq![0x80u8], k) == h[pixel_index(x, y)],
    decreases k,
{
    let sprite = seq![0x80u8];
    assert(forall|i: u8| 1 <= i < 8 ==> 0x80u8 & (0x80u8 >> i) == 0) by (bit_vector);
    assert(0x80u8 & (0x80u8 >> 0u8) != 0) by (bit_vector);
    lemma_cell_index_in_grid(x, y, 0);
    assert(cell_index(x, y, 0) == pixel_index(x, y));
    if k == 1 {
        assert(cell_set(sprite, 0));
        assert(drawn(h, x, y, sprite, 0) == h);
        assert(!collided(h, x, y, sprite, 0));
    } else {
        lemma_leftmost_pixel(h, x, y, k - 1);
        assert(!cell_set(sprite, k - 1));
    }
}

/// Drawing the one-pixel row `0x80` twice at the same place gives the grid
/// back. When that pixel starts unlit, the first draw lights it with no
/// collision and the second turns it off and reports a collision.
pub proof fn lemma_draw_twice(g: Seq<bool>, x: int, y: int)
    requires
        g.len() == PIXELS,
        0 <= x,
        0 <= y,
    ensures
        ({
            let sprite = seq![0x80u8];
            let p = pixel_index(x % (WIDTH as int), y % (HEIGHT as int));
            let once = draw_sprite(g, x, y, sprite);
            let twice = draw_sprite(once, x, y, sprite);
            &&& twice == g
            &&& !g[p] ==> once[p] && !twice[p]
            &&& !g[p] ==> !draw_collides(g, x, y, sprite) && draw_collides(once, x, y, sprite)
        }),
{
    let sprite = seq![0x80u8];
    let xm = x % (WIDTH as int);
    let ym = y % (HEIGHT as int);
    let p = pixel_index(xm, ym);
    assert(sprite.len() == 1);
    lemma_cell_index_in_grid(xm, ym, 0);
    lemma_leftmost_pixel(g, xm, ym, 8);
    let once = draw_sprite(g, x, y, sprite);
    lemma_leftmost_pixel(once, xm, ym, 8);
    assert(once == g.update(p, !g[p]));
    assert(draw_sprite(once, x, y, sprite) =~= g);
}

impl View for Display {
    type V = Seq<bool>;

    closed spec fn view(&self) -> Seq<bool> {
        self.gfx@
    }
}

impl Display {
    /// Whether the grid changed since the presentation side last showed it.
    pub closed spec fn dirty(&self) -> bool {
        self.draw_flag
    }

    /// A blank framebuffer, marked dirty so that it is shown once.
    pub fn new() -> (r: Display)
        ensures
            r@ == blank(),
            r.dirty(),
    {
        let r = Display { gfx: [false; 2048], draw_flag: true };
        assert(r@ =~= blank());
        r
    }

    /// Unlights every pixel and marks the grid dirty.
    pub fn clear(&mut self)
        ensures
            final(self)@ == blank(),
            final(self).dirty(),
    {
        self.gfx = [false; 2048];
        self.draw_flag = true;
        assert(self@ =~= blank());
    }

    /// XORs `sprite`, one byte per row of eight pixels, most significant bit
    /// leftmost, into the grid at (`x`, `y`), wrapping on both axes. Returns 1
    /// if a lit pixel was turned off, else 0, and marks the grid dirty.
    pub fn draw(&mut self, x: usize, y: usize, sprite: &[u8]) -> (collision: u8)
        ensures
            final(self)@ == draw_sprite(old(self)@, x as int, y as int, sprite@),
            collision == (if draw_collides(old(self)@, x as int, y as int, sprite@) {
                1u8
            } else {
                0u8
            }),
            final(self).dirty(),
    {
        let ghost g0 = self@;
        let xm = x % WIDTH;
        let ym = y % HEIGHT;
        let mut collision: u8 = 0;
        let n = sprite.len();
        let mut j: usize = 0;
        while j < n
            invariant
                0 <= j <= n,
                n == sprite@.len(),
                xm == x as int % (WIDTH as int),
                ym == y as int % (HEIGHT as int),
                self@ == drawn(g0, xm as int, ym as int, sprite@, 8 * j),
                collision == (if collided(g0, xm as int, ym as int, sprite@, 8 * j) {
                    1u8
                } else {
                    0u8
                }),
                g0.len() == PIXELS,
            decreases n - j,
        {
            let row = sprite[j];
            let yj = (ym + j % HEIGHT) % HEIGHT;
            proof {
                lemma_add_mod_noop(ym as int, j as int, HEIGHT as int);
            }
            let mut i: usize = 0;
            while i < 8
                invariant
                    0 <= j < n,
                    0 <= i <= 8,
                    n == sprite@.len(),
                    row == sprite@[j as int],
                    xm == x as int % (WIDTH as int),
                    ym == y as int % (HEIGHT as int),
                    yj == (ym + j) % (HEIGHT as int),
                    self@ == drawn(g0, xm as int, ym as int, sprite@, 8 * j + i),
                    collision == (if collided(g0, xm as int, ym as int, sprite@, 8 * j + i) {
                        1u8
                    } else {
                        0u8
                    }),
                    g0.len() == PIXELS,
                decreases 8 - i,
            {
                let ghost k = 8 * j + i;
                assert(k / 8 == j && k % 8 == i);
                let xi = (xm + i) % WIDTH;
                let p = yj * WIDTH + xi;
                proof {
                    lemma_cell_index_in_grid(xm as int, ym as int, k);
                    lemma_drawn_len(g0, xm as int, ym as int, sprite@, k);
                    assert(p == cell_index(xm as int, ym as int, k));
                }
                if (row & (0x80u8 >> (i as u8))) != 0 {
                    if self.gfx[p] {
                        collision = 1;
                    }
                    self.gfx[p] = !self.gfx[p];
                }
                assert(self@ =~= drawn(g0, xm as int, ym as int, sprite@, k + 1));
                i = i + 1;
            }
            j = j + 1;
        }
        self.draw_flag = true;
        collision
    }

    /// Whether the pixel at column `x`, row `y` is lit.
    pub fn pixel(&self, x: usize, y: usize) -> (r: bool)
        requires
            x < WIDTH,
            y < HEIGHT,
        ensures
            r == self@[pixel_index(x as int, y as int)],
    {
        self.gfx[y * WIDTH + x]
    }

    /// Whether the grid changed since it was last shown.
    pub fn is_dirty(&self) -> (r: bool)
        ensures
            r == self.dirty(),
    {
        self.draw_flag
    }

    /// Records that the grid has been shown.
    pub fn mark_presented(&mut self)
        ensures
            final(self)@ == old(self)@,
            !final(self).dirty(),
    {
        self.draw_flag = false;
    }
}

} // verus!
