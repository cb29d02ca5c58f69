//! The double-buffered framebuffer: two 64x32 grids of pixel intensity bytes
//! (0 = off, 255 = on), stored row-major as flat vectors of 2048 cells. At any
//! instant one grid is "current" (readable by a presentation layer) and the
//! other "inactive" (writable by the interpreter); `swap_buffers` exchanges the
//! roles by flipping a single index. Draw and clear address a grid through a
//! signed index convention: a non-negative index names a physical slot
//! directly, `-1` the current grid, and any smaller index the inactive grid.

use vstd::prelude::*;
use vstd::arithmetic::div_mod::lemma_fundamental_div_mod;

verus! {

/// The abstract state of the double buffer: the two pixel grids and which
/// slot is current.
#[verifier::ext_equal]
pub ghost struct DisplayView {
    pub g0: Seq<u8>,
    pub g1: Seq<u8>,
    pub cur: int,
}

/// The grid stored in a physical slot (0 or 1).
pub open spec fn grid_of(d: DisplayView, slot: int) -> Seq<u8> {
    if slot == 0 {
        d.g0
    } else {
        d.g1
    }
}

/// The physical slot addressed by a signed buffer index: non-negative indices
/// name a slot directly, -1 the current slot, anything smaller the inactive
/// slot.
pub open spec fn slot_of(index: int, cur: int) -> int {
    if index >= 0 {
        index
    } else if index == -1 {
        cur
    } else {
        1 - cur
    }
}

/// A grid with every pixel off.
pub open spec fn blank_grid() -> Seq<u8> {
    Seq::new(2048, |p: int| 0u8)
}

/// The double buffer with the grid in `slot` replaced by `g`.
pub open spec fn with_grid(d: DisplayView, slot: int, g: Seq<u8>) -> DisplayView {
    if slot == 0 {
        DisplayView { g0: g, ..d }
    } else {
        DisplayView { g1: g, ..d }
    }
}

/// The double buffer after a swap: the same grids, the other slot current.
pub open spec fn swapped(d: DisplayView) -> DisplayView {
    DisplayView { cur: 1 - d.cur, ..d }
}

/// Two swaps return to the original state: the "current" designation after a
/// double swap is exactly the one before it, whatever the grids hold.
pub proof fn lemma_swap_twice(d: DisplayView)
    ensures
        swapped(swapped(d)) == d,
{
}

/// Whether bit `j` (0 = most significant) of a sprite row byte is set.
pub open spec fn sprite_bit_set(b: u8, j: int) -> bool {
    (b >> ((7 - j) as u8)) & 1 == 1
}

/// A pixel hit by a sprite bit is toggled: off becomes full intensity, on
/// becomes off.
pub open spec fn px_toggle(v: u8) -> u8 {
    if v == 0 {
        255u8
    } else {
        0u8
    }
}

/// Whether a sprite drawn with origin column `x0` and stored origin row `y0`
/// touches flat grid cell `p`. The cell's row is `y0 - i` for sprite row `i`
/// (rows whose offset exceeds the origin row fall off the grid and are
/// skipped), its column is `x0 + j` for bit `j` (columns past the right edge
/// are skipped, not wrapped), and bit `j` of sprite row `i` must be set.
pub open spec fn draw_hits(x0: int, y0: int, sprite: Seq<u8>, p: int) -> bool {
    let i = y0 - p / 64;
    let j = p % 64 - x0;
    &&& 0 <= i < sprite.len()
    &&& 0 <= j < 8
    &&& sprite_bit_set(sprite[i], j)
}

/// The grid after drawing the sprite: every hit cell is toggled, every other
/// cell keeps its value.
pub open spec fn draw_grid(g: Seq<u8>, x0: int, y0: int, sprite: Seq<u8>) -> Seq<u8> {
    Seq::new(
        2048,
        |p: int|
            if draw_hits(x0, y0, sprite, p) {
                px_toggle(g[p])
            } else {
                g[p]
            },
    )
}

/// Whether the draw erases any pixel: some hit cell was already on.
pub open spec fn draw_erases(g: Seq<u8>, x0: int, y0: int, sprite: Seq<u8>) -> bool {
    exists|p: int| 0 <= p < 2048 && draw_hits(x0, y0, sprite, p) && g[p] != 0
}

/// Sprite cell (i2, j2) comes strictly before (i, j) in row-major drawing
/// order.
spec fn lex_before(i2: int, j2: int, i: int, j: int) -> bool {
    i2 < i || (i2 == i && j2 < j)
}

/// The grid after drawing only the sprite cells strictly before (i, j).
spec fn draw_partial(g: Seq<u8>, x0: int, y0: int, sprite: Seq<u8>, i: int, j: int) -> Seq<u8> {
    Seq::new(
        2048,
        |p: int|
            if draw_hits(x0, y0, sprite, p) && lex_before(y0 - p / 64, p % 64 - x0, i, j) {
                px_toggle(g[p])
            } else {
                g[p]
            },
    )
}

/// Whether any sprite cell strictly before (i, j) erased a pixel.
spec fn erased_partial(g: Seq<u8>, x0: int, y0: int, sprite: Seq<u8>, i: int, j: int) -> bool {
    exists|p: int|
        0 <= p < 2048 && draw_hits(x0, y0, sprite, p) && lex_before(
            y0 - p / 64,
            p % 64 - x0,
            i,
            j,
        ) && g[p] != 0
}

/// A cell whose row and column offsets from the origin are (i, j) is exactly
/// the flat cell (y0 - i) * 64 + (x0 + j).
proof fn lemma_unique_cell(x0: int, y0: int, i: int, j: int, p: int)
    requires
        0 <= p < 2048,
        y0 - p / 64 == i,
        p % 64 - x0 == j,
    ensures
        p == (y0 - i) * 64 + (x0 + j),
{
    lemma_fundamental_div_mod(p, 64);
}

/// Processing a sprite cell that hits nothing (its column falls off the grid,
/// or its bit is clear) leaves the partial draw unchanged.
proof fn lemma_step_no_hit(g: Seq<u8>, x0: int, y0: int, sprite: Seq<u8>, i: int, j: int)
    requires
        0 <= x0 < 64,
        0 <= y0 < 32,
        0 <= i < sprite.len(),
        i <= y0,
        0 <= j < 8,
        x0 + j >= 64 || !sprite_bit_set(sprite[i], j),
    ensures
        draw_partial(g, x0, y0, sprite, i, j + 1) == draw_partial(g, x0, y0, sprite, i, j),
        erased_partial(g, x0, y0, sprite, i, j + 1) == erased_partial(g, x0, y0, sprite, i, j),
{
    let sA = draw_partial(g, x0, y0, sprite, i, j);
    let sB = draw_partial(g, x0, y0, sprite, i, j + 1);
    assert forall|p: int| 0 <= p < 2048 implies sB[p] == sA[p] by {
        if draw_hits(x0, y0, sprite, p) && y0 - p / 64 == i && p % 64 - x0 == j {
            assert(0 <= p % 64 < 64);
            assert(false);
        }
    };
    assert(sB =~= sA);
    if erased_partial(g, x0, y0, sprite, i, j + 1) {
        let p = choose|p: int|
            0 <= p < 2048 && draw_hits(x0, y0, sprite, p) && lex_before(
                y0 - p / 64,
                p % 64 - x0,
                i,
                j + 1,
            ) && g[p] != 0;
        if y0 - p / 64 == i && p % 64 - x0 == j {
            assert(0 <= p % 64 < 64);
            assert(false);
        }
        assert(lex_before(y0 - p / 64, p % 64 - x0, i, j));
        assert(erased_partial(g, x0, y0, sprite, i, j));
    }
    if erased_partial(g, x0, y0, sprite, i, j) {
        let p = choose|p: int|
            0 <= p < 2048 && draw_hits(x0, y0, sprite, p) && lex_before(
                y0 - p / 64,
                p % 64 - x0,
                i,
                j,
            ) && g[p] != 0;
        assert(lex_before(y0 - p / 64, p % 64 - x0, i, j + 1));
        assert(erased_partial(g, x0, y0, sprite, i, j + 1));
    }
}

/// Processing a sprite cell that hits the grid toggles exactly the cell
/// (y0 - i) * 64 + (x0 + j) and extends the erasure condition by that cell.
proof fn lemma_step_hit(g: Seq<u8>, x0: int, y0: int, sprite: Seq<u8>, i: int, j: int)
    requires
        0 <= x0 < 64,
        0 <= y0 < 32,
        0 <= i < sprite.len(),
        i <= y0,
        0 <= j < 8,
        x0 + j < 64,
        sprite_bit_set(sprite[i], j),
    ensures
        ({
            let p0 = (y0 - i) * 64 + (x0 + j);
            &&& 0 <= p0 < 2048
            &&& y0 - p0 / 64 == i
            &&& p0 % 64 - x0 == j
            &&& draw_hits(x0, y0, sprite, p0)
            &&& draw_partial(g, x0, y0, sprite, i, j)[p0] == g[p0]
            &&& draw_partial(g, x0, y0, sprite, i, j + 1) == draw_partial(
                g,
                x0,
                y0,
                sprite,
                i,
                j,
            ).update(p0, px_toggle(g[p0]))
            &&& erased_partial(g, x0, y0, sprite, i, j + 1) == (erased_partial(
                g,
                x0,
                y0,
                sprite,
                i,
                j,
            ) || g[p0] != 0)
        }),
{
    let p0 = (y0 - i) * 64 + (x0 + j);
    assert(0 <= p0 < 2048);
    assert(p0 / 64 == y0 - i && p0 % 64 == x0 + j) by (nonlinear_arith)
        requires
            0 <= y0 - i < 32,
            0 <= x0 + j < 64,
            p0 == (y0 - i) * 64 + (x0 + j),
    ;
    let sA = draw_partial(g, x0, y0, sprite, i, j);
    let sB = draw_partial(g, x0, y0, sprite, i, j + 1);
    let sU = sA.update(p0, px_toggle(g[p0]));
    assert forall|p: int| 0 <= p < 2048 implies sB[p] == sU[p] by {
        if p != p0 && y0 - p / 64 == i && p % 64 - x0 == j {
            lemma_unique_cell(x0, y0, i, j, p);
            assert(false);
        }
    };
    assert(sB =~= sU);
    if erased_partial(g, x0, y0, sprite, i, j + 1) {
        let p = choose|p: int|
            0 <= p < 2048 && draw_hits(x0, y0, sprite, p) && lex_before(
                y0 - p / 64,
                p % 64 - x0,
                i,
                j + 1,
            ) && g[p] != 0;
        if lex_before(y0 - p / 64, p % 64 - x0, i, j) {
            assert(erased_partial(g, x0, y0, sprite, i, j));
        } else {
            lemma_unique_cell(x0, y0, i, j, p);
            assert(p == p0);
        }
    }
    if erased_partial(g, x0, y0, sprite, i, j) {
        let p = choose|p: int|
            0 <= p < 2048 && draw_hits(x0, y0, sprite, p) && lex_before(
                y0 - p / 64,
                p % 64 - x0,
                i,
                j,
            ) && g[p] != 0;
        assert(lex_before(y0 - p / 64, p % 64 - x0, i, j + 1));
        assert(erased_partial(g, x0, y0, sprite, i, j + 1));
    }
    if g[p0] != 0 {
        assert(erased_partial(g, x0, y0, sprite, i, j + 1));
    }
}

/// Finishing sprite row i (all eight bits processed) is the same as standing
/// at the start of row i + 1.
proof fn lemma_row_done(g: Seq<u8>, x0: int, y0: int, sprite: Seq<u8>, i: int)
    requires
        0 <= i,
    ensures
        draw_partial(g, x0, y0, sprite, i + 1, 0) == draw_partial(g, x0, y0, sprite, i, 8),
        erased_partial(g, x0, y0, sprite, i + 1, 0) == erased_partial(g, x0, y0, sprite, i, 8),
{
    assert(draw_partial(g, x0, y0, sprite, i + 1, 0) =~= draw_partial(g, x0, y0, sprite, i, 8));
    if erased_partial(g, x0, y0, sprite, i + 1, 0) {
        let p = choose|p: int|
            0 <= p < 2048 && draw_hits(x0, y0, sprite, p) && lex_before(
                y0 - p / 64,
                p % 64 - x0,
                i + 1,
                0,
            ) && g[p] != 0;
        assert(lex_before(y0 - p / 64, p % 64 - x0, i, 8));
        assert(erased_partial(g, x0, y0, sprite, i, 8));
    }
    if erased_partial(g, x0, y0, sprite, i, 8) {
        let p = choose|p: int|
            0 <= p < 2048 && draw_hits(x0, y0, sprite, p) && lex_before(
                y0 - p / 64,
                p % 64 - x0,
                i,
                8,
            ) && g[p] != 0;
        assert(lex_before(y0 - p / 64, p % 64 - x0, i + 1, 0));
        assert(erased_partial(g, x0, y0, sprite, i + 1, 0));
    }
}

/// A sprite row whose offset exceeds the origin row falls below the grid:
/// skipping it leaves the partial draw unchanged.
proof fn lemma_row_skipped(g: Seq<u8>, x0: int, y0: int, sprite: Seq<u8>, i: int)
    requires
        0 <= y0 < i,
    ensures
        draw_partial(g, x0, y0, sprite, i + 1, 0) == draw_partial(g, x0, y0, sprite, i, 0),
        erased_partial(g, x0, y0, sprite, i + 1, 0) == erased_partial(g, x0, y0, sprite, i, 0),
{
    let sA = draw_partial(g, x0, y0, sprite, i, 0);
    let sB = draw_partial(g, x0, y0, sprite, i + 1, 0);
    assert forall|p: int| 0 <= p < 2048 implies sB[p] == sA[p] by {
        assert(p / 64 >= 0) by (nonlinear_arith)
            requires
                p >= 0,
        ;
    };
    assert(sB =~= sA);
    if erased_partial(g, x0, y0, sprite, i + 1, 0) {
        let p = choose|p: int|
            0 <= p < 2048 && draw_hits(x0, y0, sprite, p) && lex_before(
                y0 - p / 64,
                p % 64 - x0,
                i + 1,
                0,
            ) && g[p] != 0;
        assert(p / 64 >= 0) by (nonlinear_arith)
            requires
                p >= 0,
        ;
        assert(lex_before(y0 - p / 64, p % 64 - x0, i, 0));
        assert(erased_partial(g, x0, y0, sprite, i, 0));
    }
    if erased_partial(g, x0, y0, sprite, i, 0) {
        let p = choose|p: int|
            0 <= p < 2048 && draw_hits(x0, y0, sprite, p) && lex_before(
                y0 - p / 64,
                p % 64 - x0,
                i,
                0,
            ) && g[p] != 0;
        assert(lex_before(y0 - p / 64, p % 64 - x0, i + 1, 0));
        assert(erased_partial(g, x0, y0, sprite, i + 1, 0));
    }
}

/// Having processed every sprite row yields exactly the full draw.
proof fn lemma_draw_complete(g: Seq<u8>, x0: int, y0: int, sprite: Seq<u8>)
    ensures
        draw_partial(g, x0, y0, sprite, sprite.len() as int, 0) == draw_grid(g, x0, y0, sprite),
        erased_partial(g, x0, y0, sprite, sprite.len() as int, 0) == draw_erases(g, x0, y0, sprite),
{
    let n = sprite.len() as int;
    assert(draw_partial(g, x0, y0, sprite, n, 0) =~= draw_grid(g, x0, y0, sprite));
    if erased_partial(g, x0, y0, sprite, n, 0) {
        let p = choose|p: int|
            0 <= p < 2048 && draw_hits(x0, y0, sprite, p) && lex_before(
                y0 - p / 64,
                p % 64 - x0,
                n,
                0,
            ) && g[p] != 0;
        assert(draw_erases(g, x0, y0, sprite));
    }
    if draw_erases(g, x0, y0, sprite) {
        let p = choose|p: int| 0 <= p < 2048 && draw_hits(x0, y0, sprite, p) && g[p] != 0;
        assert(lex_before(y0 - p / 64, p % 64 - x0, n, 0));
        assert(erased_partial(g, x0, y0, sprite, n, 0));
    }
}

/// Draw a sprite onto one flat grid: row-major over the sprite rows and the
/// eight bits of each row, toggling hit pixels and reporting whether any
/// pixel was erased.
fn draw_on(g: &mut Vec<u8>, x0: u8, y0: u8, sprite: &Vec<u8>) -> (erased: bool)
    requires
        old(g)@.len() == 2048,
        x0 < 64,
        y0 < 32,
        sprite@.len() <= 15,
    ensures
        final(g)@ == draw_grid(old(g)@, x0 as int, y0 as int, sprite@),
        erased == draw_erases(old(g)@, x0 as int, y0 as int, sprite@),
{
    let ghost g0 = g@;
    let ghost sx0 = x0 as int;
    let ghost sy0 = y0 as int;
    let mut erased = false;
    let n = sprite.len();
    let mut i: usize = 0;
    while i < n
        invariant
            n == sprite@.len(),
            sprite@.len() <= 15,
            x0 < 64,
            y0 < 32,
            i <= n,
            g@.len() == 2048,
            g0.len() == 2048,
            sx0 == x0 as int,
            sy0 == y0 as int,
            g@ == draw_partial(g0, sx0, sy0, sprite@, i as int, 0),
            erased == erased_partial(g0, sx0, sy0, sprite@, i as int, 0),
        decreases n - i,
    {
        if i <= y0 as usize {
            let row: usize = y0 as usize - i;
            let byte: u8 = sprite[i];
            let mut j: usize = 0;
            while j < 8
                invariant
                    n == sprite@.len(),
                    sprite@.len() <= 15,
                    x0 < 64,
                    y0 < 32,
                    i < n,
                    i <= y0 as usize,
                    row == y0 as usize - i,
                    byte == sprite@[i as int],
                    j <= 8,
                    g@.len() == 2048,
                    g0.len() == 2048,
                    sx0 == x0 as int,
                    sy0 == y0 as int,
                    g@ == draw_partial(g0, sx0, sy0, sprite@, i as int, j as int),
                    erased == erased_partial(g0, sx0, sy0, sprite@, i as int, j as int),
                decreases 8 - j,
            {
                let col: usize = x0 as usize + j;
                if col < 64 {
                    let shift: u8 = (7 - j) as u8;
                    let bit: u8 = (byte >> shift) & 1;
                    if bit == 1 {
                        proof {
                            assert(sprite_bit_set(sprite@[i as int], j as int));
                            lemma_step_hit(g0, sx0, sy0, sprite@, i as int, j as int);
                        }
                        let p: usize = row * 64 + col;
                        let old_px = g[p];
                        if old_px != 0 {
                            erased = true;
                            g.set(p, 0);
                        } else {
                            g.set(p, 255);
                        }
                    } else {
                        proof {
                            assert(!sprite_bit_set(sprite@[i as int], j as int));
                            lemma_step_no_hit(g0, sx0, sy0, sprite@, i as int, j as int);
                        }
                    }
                } else {
                    proof {
                        lemma_step_no_hit(g0, sx0, sy0, sprite@, i as int, j as int);
                    }
                }
                j = j + 1;
            }
            proof {
                lemma_row_done(g0, sx0, sy0, sprite@, i as int);
            }
        } else {
            proof {
                lemma_row_skipped(g0, sx0, sy0, sprite@, i as int);
            }
        }
        i = i + 1;
    }
    proof {
        lemma_draw_complete(g0, sx0, sy0, sprite@);
    }
    erased
}

pub struct DisplayBuffer {
    grid0: Vec<u8>,
    grid1: Vec<u8>,
    current: usize,
}

impl View for DisplayBuffer {
    type V = DisplayView;

    closed spec fn view(&self) -> DisplayView {
        DisplayView { g0: self.grid0@, g1: self.grid1@, cur: self.current as int }
    }
}

/// A fresh all-zero grid.
fn make_blank_grid() -> (g: Vec<u8>)
    ensures
        g@ == blank_grid(),
{
    let mut g: Vec<u8> = Vec::new();
    let mut p: usize = 0;
    while p < 2048
        invariant
            p <= 2048,
            g@.len() == p,
            forall|q: int| 0 <= q < p ==> g@[q] == 0u8,
        decreases 2048 - p,
    {
        g.push(0);
        p = p + 1;
    }
    assert(g@ =~= blank_grid());
    g
}

impl DisplayBuffer {
    /// Both grids hold 2048 cells and the current slot is 0 or 1.
    pub open spec fn wf(self) -> bool {
        &&& self@.g0.len() == 2048
        &&& self@.g1.len() == 2048
        &&& (self@.cur == 0 || self@.cur == 1)
    }

    /// A double buffer with both grids cleared and slot 0 current.
    pub fn new() -> (d: DisplayBuffer)
        ensures
            d.wf(),
            d@.g0 == blank_grid(),
            d@.g1 == blank_grid(),
            d@.cur == 0,
    {
        DisplayBuffer { grid0: make_blank_grid(), grid1: make_blank_grid(), current: 0 }
    }

    /// Exchange the roles of the two grids by flipping the current index.
    pub fn swap_buffers(&mut self)
        requires
            old(self).wf(),
        ensures
            final(self).wf(),
            final(self)@ == swapped(old(self)@),
    {
        self.current = 1 - self.current;
    }

    /// The physical slot currently exposed to the presentation layer.
    pub fn current_buffer_index(&self) -> (i: usize)
        ensures
            i as int == self@.cur,
    {
        self.current
    }

    /// Read access to the current grid.
    pub fn current_buffer(&self) -> (g: &Vec<u8>)
        requires
            self.wf(),
        ensures
            g@ == grid_of(self@, self@.cur),
    {
        if self.current == 0 {
            &self.grid0
        } else {
            &self.grid1
        }
    }

    /// Read access to the inactive grid.
    pub fn inactive_buffer(&self) -> (g: &Vec<u8>)
        requires
            self.wf(),
        ensures
            g@ == grid_of(self@, 1 - self@.cur),
    {
        if self.current == 0 {
            &self.grid1
        } else {
            &self.grid0
        }
    }

    /// Replace the grid addressed by `index` (non-negative: that physical
    /// slot; -1: the current grid; below -1: the inactive grid).
    pub fn set_buffer(&mut self, index: isize, buffer: Vec<u8>)
        requires
            old(self).wf(),
            index <= 1,
            buffer@.len() == 2048,
        ensures
            final(self).wf(),
            final(self)@ == with_grid(
                old(self)@,
                slot_of(index as int, old(self)@.cur),
                buffer@,
            ),
    {
        let slot: usize = if index >= 0 {
            index as usize
        } else if index == -1 {
            self.current
        } else {
            1 - self.current
        };
        if slot == 0 {
            self.grid0 = buffer;
        } else {
            self.grid1 = buffer;
        }
    }

    /// Reset the grid in the given physical slot to all-zero pixels.
    pub fn clear(&mut self, index: usize)
        requires
            old(self).wf(),
            index <= 1,
        ensures
            final(self).wf(),
            final(self)@ == with_grid(old(self)@, index as int, blank_grid()),
    {
        if index == 0 {
            self.grid0 = make_blank_grid();
        } else {
            self.grid1 = make_blank_grid();
        }
    }

    /// Draw a sprite of up to 15 rows by 8 columns onto the grid addressed by
    /// `index` (same signed convention as `set_buffer`). The origin column
    /// wraps modulo 64; the origin row wraps modulo 32 and is flipped, so
    /// device row 0 lands on stored row 31. Each set sprite bit toggles its
    /// pixel; the result reports whether any pixel was erased (the collision
    /// signal).
    pub fn draw(&mut self, index: isize, x: u8, y: u8, sprite: &Vec<u8>) -> (erased: bool)
        requires
            old(self).wf(),
            index <= 1,
            sprite@.len() <= 15,
        ensures
            final(self).wf(),
            ({
                let slot = slot_of(index as int, old(self)@.cur);
                let x0 = (x % 64) as int;
                let y0 = 31 - (y % 32) as int;
                &&& final(self)@ == with_grid(
                    old(self)@,
                    slot,
                    draw_grid(grid_of(old(self)@, slot), x0, y0, sprite@),
                )
                &&& erased == draw_erases(grid_of(old(self)@, slot), x0, y0, sprite@)
            }),
    {
        let x0: u8 = x % 64;
        let y0: u8 = 31 - (y % 32);
        let slot: usize = if index >= 0 {
            index as usize
        } else if index == -1 {
            self.current
        } else {
            1 - self.current
        };
        if slot == 0 {
            draw_on(&mut self.grid0, x0, y0, sprite)
        } else {
            draw_on(&mut self.grid1, x0, y0, sprite)
        }
    }
}

} // verus!
