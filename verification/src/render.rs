//! Pixel rendering of the game into a caller-owned frame buffer.
//!
//! The window is the grid scaled by `GRID_SIZE` pixels per cell, stored
//! row-major: the pixel at column `px`, row `py` is buffer index
//! `py * window_width + px`. Every function here states the colour of
//! every pixel it leaves behind.

use vstd::prelude::*;

use vstd::arithmetic::div_mod::{lemma_fundamental_div_mod, lemma_fundamental_div_mod_converse};
use vstd::arithmetic::mul::lemma_mul_inequality;

use crate::game::Game;
use crate::geometry::{in_grid, Position};
use crate::snake::Snake;

verus! {

/// Edge length of one grid cell, in pixels.
pub const GRID_SIZE: usize = 20;

/// Background colour.
pub const BLACK: u32 = 0x000000;

/// Snake colour.
pub const GREEN: u32 = 0x00FF00;

/// Food colour.
pub const RED: u32 = 0xFF0000;

/// Wall and score colour.
pub const WHITE: u32 = 0xFFFFFF;

/// Width of the rendered window in pixels.
pub open spec fn window_width(g: Game) -> int {
    g.snake_view().width() * GRID_SIZE
}

/// Height of the rendered window in pixels.
pub open spec fn window_height(g: Game) -> int {
    g.snake_view().height() * GRID_SIZE
}

/// The pixel lies in the one-cell-wide border band of the window.
pub open spec fn border_pixel(px: int, py: int, ww: int, wh: int) -> bool {
    px < GRID_SIZE || px >= ww - GRID_SIZE || py < GRID_SIZE || py >= wh - GRID_SIZE
}

/// The pixel lies in the square that grid cell `cell` scales to.
pub open spec fn covers_cell(cell: Position, px: int, py: int) -> bool {
    &&& cell.x * GRID_SIZE <= px < cell.x * GRID_SIZE + GRID_SIZE
    &&& cell.y * GRID_SIZE <= py < cell.y * GRID_SIZE + GRID_SIZE
}

/// The pixel lies in the square of some body cell of `s`.
pub open spec fn snake_covers(s: Snake, px: int, py: int) -> bool {
    exists|i: int| 0 <= i < s.body_view().len() && covers_cell(s.body_view()[i], px, py)
}

/// The colour `render` leaves at pixel (`px`, `py`): the wall band is
/// white and covers everything, the food square red and covers the snake,
/// the snake squares green, the rest black.
pub open spec fn frame_pixel(g: Game, px: int, py: int) -> u32 {
    if border_pixel(px, py, window_width(g), window_height(g)) {
        WHITE
    } else if covers_cell(g.food_pos(), px, py) {
        RED
    } else if snake_covers(g.snake_view(), px, py) {
        GREEN
    } else {
        BLACK
    }
}

/// Paint the axis-aligned pixel rectangle `[x0, x1) x [y0, y1)` of a
/// row-major buffer with row stride `ww` in colour `color`, leaving every
/// other pixel untouched.
pub(crate) fn fill_rect(
    buffer: &mut Vec<u32>,
    ww: usize,
    x0: usize,
    y0: usize,
    x1: usize,
    y1: usize,
    color: u32,
)
    requires
        x0 <= x1 <= ww,
        y0 <= y1,
        y1 * ww <= old(buffer)@.len(),
    ensures
        final(buffer)@.len() == old(buffer)@.len(),
        forall|k: int|
            0 <= k < final(buffer)@.len() ==> final(buffer)@[k] == (if x0 <= k % (ww as int) < x1
                && y0 <= k / (ww as int) < y1 {
                color
            } else {
                old(buffer)@[k]
            }),
{
    let ghost orig = old(buffer)@;
    let total = buffer.len();
    let mut y: usize = y0;
    while y < y1
        invariant
            x0 <= x1 <= ww,
            y0 <= y <= y1,
            y1 * ww <= orig.len(),
            total == orig.len(),
            buffer@.len() == orig.len(),
            forall|k: int|
                0 <= k < buffer@.len() ==> buffer@[k] == (if x0 <= k % (ww as int) < x1 && y0 <= k
                    / (ww as int) < y {
                    color
                } else {
                    orig[k]
                }),
        decreases y1 - y,
    {
        let mut x: usize = x0;
        proof {
            lemma_mul_inequality(y as int + 1, y1 as int, ww as int);
        }
        while x < x1
            invariant
                x0 <= x <= x1 <= ww,
                y0 <= y < y1,
                y1 * ww <= orig.len(),
                (y + 1) * ww <= orig.len(),
                total == orig.len(),
                buffer@.len() == orig.len(),
                forall|k: int|
                    0 <= k < buffer@.len() ==> buffer@[k] == (if x0 <= k % (ww as int) < x1 && y0
                        <= k / (ww as int) && (k / (ww as int) < y || (k / (ww as int) == y && k % (
                    ww as int) < x)) {
                        color
                    } else {
                        orig[k]
                    }),
            decreases x1 - x,
        {
            proof {
                assert(y * ww + ww == (y + 1) * ww) by (nonlinear_arith);
            }
            let idx = y * ww + x;
            buffer.set(idx, color);
            proof {
                lemma_fundamental_div_mod_converse(idx as int, ww as int, y as int, x as int);
                assert forall|k: int| 0 <= k < buffer@.len() implies buffer@[k] == (if x0 <= k % (
                ww as int) < x1 && y0 <= k / (ww as int) && (k / (ww as int) < y || (k / (
                ww as int) == y && k % (ww as int) < x + 1)) {
                    color
                } else {
                    orig[k]
                }) by {
                    lemma_fundamental_div_mod(k, ww as int);
                    if k / (ww as int) == y && k % (ww as int) == x {
                        assert((ww as int) * (y as int) == (y as int) * (ww as int))
                            by (nonlinear_arith);
                        assert(k == idx);
                    } else {
                        assert(k != idx);
                        assert(buffer@[k] == orig[k] || buffer@[k] == color);
                    }
                }
            }
            x = x + 1;
        }
        y = y + 1;
    }
}

impl Game {
    /// Draw the whole frame: clear to black, paint each snake cell green,
    /// the food cell red, and the one-cell wall band white on top, so that
    /// every pixel ends up exactly at `frame_pixel`.
    pub fn render(&self, buffer: &mut Vec<u32>)
        requires
            self.wf(),
            self.snake_view().width() * GRID_SIZE <= usize::MAX,
            self.snake_view().width() * GRID_SIZE * self.snake_view().height() * GRID_SIZE
                <= usize::MAX,
            old(buffer)@.len() == self.snake_view().width() * GRID_SIZE
                * self.snake_view().height() * GRID_SIZE,
        ensures
            final(buffer)@.len() == old(buffer)@.len(),
            forall|k: int|
                0 <= k < final(buffer)@.len() ==> final(buffer)@[k] == frame_pixel(
                    *self,
                    k % window_width(*self),
                    k / window_width(*self),
                ),
    {
        let w = self.snake_ref().grid_width();
        let h = self.snake_ref().grid_height();
        proof {
            assert(w * GRID_SIZE >= GRID_SIZE && h * GRID_SIZE >= GRID_SIZE && h * GRID_SIZE <= w
                * GRID_SIZE * h * GRID_SIZE && w * GRID_SIZE * h * GRID_SIZE == (h * GRID_SIZE) * (
            w * GRID_SIZE)) by (nonlinear_arith)
                requires
                    w >= 3,
                    h >= 3,
            ;
        }
        let ww = w * GRID_SIZE;
        let wh = h * GRID_SIZE;

        // Background.
        fill_rect(buffer, ww, 0, 0, ww, wh, BLACK);
        proof {
            assert forall|k: int| 0 <= k < buffer@.len() implies buffer@[k] == BLACK by {
                lemma_fundamental_div_mod(k, ww as int);
                if k / (ww as int) >= wh {
                    lemma_mul_inequality(wh as int, k / (ww as int), ww as int);
                }
            }
        }

        // Snake cells.
        let n = self.snake_ref().len();
        let mut i: usize = 0;
        while i < n
            invariant
                self.wf(),
                i <= n,
                n == self.snake_view().body_view().len(),
                w == self.snake_view().width(),
                h == self.snake_view().height(),
                ww == w * GRID_SIZE,
                wh == h * GRID_SIZE,
                ww >= GRID_SIZE,
                wh >= GRID_SIZE,
                buffer@.len() == old(buffer)@.len(),
                buffer@.len() == wh * ww,
                forall|k: int|
                    0 <= k < buffer@.len() ==> buffer@[k] == (if exists|j: int|
                        0 <= j < i && covers_cell(
                            self.snake_view().body_view()[j],
                            k % (ww as int),
                            k / (ww as int),
                        ) {
                        GREEN
                    } else {
                        BLACK
                    }),
            decreases n - i,
        {
            let c = self.snake_ref().cell(i);
            proof {
                assert(in_grid(
                    self.snake_view().body_view()[i as int],
                    self.snake_view().width(),
                    self.snake_view().height(),
                ));
                assert(c.x * GRID_SIZE + GRID_SIZE <= ww && (c.y * GRID_SIZE + GRID_SIZE) * ww
                    <= wh * ww) by (nonlinear_arith)
                    requires
                        c.x < w,
                        c.y < h,
                        ww == w * GRID_SIZE,
                        wh == h * GRID_SIZE,
                        0 <= c.x,
                        0 <= c.y,
                        0 <= ww,
                ;
            }
            let cx = c.x * GRID_SIZE;
            let cy = c.y * GRID_SIZE;
            fill_rect(buffer, ww, cx, cy, cx + GRID_SIZE, cy + GRID_SIZE, GREEN);
            proof {
                assert forall|k: int| 0 <= k < buffer@.len() implies buffer@[k] == (if exists|
                    j: int,
                |
                    0 <= j < i + 1 && covers_cell(
                        self.snake_view().body_view()[j],
                        k % (ww as int),
                        k / (ww as int),
                    ) {
                    GREEN
                } else {
                    BLACK
                }) by {
                    let px = k % (ww as int);
                    let py = k / (ww as int);
                    if covers_cell(self.snake_view().body_view()[i as int], px, py) {
                        assert(0 <= (i as int) < i + 1 && covers_cell(
                            self.snake_view().body_view()[i as int],
                            px,
                            py,
                        ));
                    }
                }
            }
            i = i + 1;
        }

        // Food cell.
        let f = self.food_position();
        proof {
            assert((f.x * GRID_SIZE + GRID_SIZE) <= ww && (f.y * GRID_SIZE + GRID_SIZE) * ww <= wh
                * ww) by (nonlinear_arith)
                requires
                    f.x < w,
                    f.y < h,
                    ww == w * GRID_SIZE,
                    wh == h * GRID_SIZE,
                    0 <= f.x,
                    0 <= f.y,
                    0 <= ww,
            ;
        }
        let px0 = f.x * GRID_SIZE;
        let py0 = f.y * GRID_SIZE;
        fill_rect(buffer, ww, px0, py0, px0 + GRID_SIZE, py0 + GRID_SIZE, RED);

        // Wall band, painted over everything else.
        proof {
            lemma_mul_inequality(GRID_SIZE as int, wh as int, ww as int);
        }
        fill_rect(buffer, ww, 0, 0, ww, GRID_SIZE, WHITE);
        fill_rect(buffer, ww, 0, wh - GRID_SIZE, ww, wh, WHITE);
        fill_rect(buffer, ww, 0, 0, GRID_SIZE, wh, WHITE);
        fill_rect(buffer, ww, ww - GRID_SIZE, 0, ww, wh, WHITE);

        proof {
            assert forall|k: int| 0 <= k < buffer@.len() implies buffer@[k] == frame_pixel(
                *self,
                k % (ww as int),
                k / (ww as int),
            ) by {
                let px = k % (ww as int);
                let py = k / (ww as int);
                assert(0 <= px < ww);
                assert(0 <= py < wh) by {
                    lemma_fundamental_div_mod(k, ww as int);
                    if k / (ww as int) >= wh {
                        lemma_mul_inequality(wh as int, k / (ww as int), ww as int);
                    }
                }
                assert(window_width(*self) == ww as int);
                assert(window_height(*self) == wh as int);
                if border_pixel(px, py, ww as int, wh as int) {
                    assert(buffer@[k] == WHITE);
                } else if covers_cell(self.food_pos(), px, py) {
                    assert(buffer@[k] == RED);
                } else if snake_covers(self.snake_view(), px, py) {
                    assert(buffer@[k] == GREEN);
                } else {
                    assert(buffer@[k] == BLACK);
                }
            }
        }
    }
}

} // verus!
