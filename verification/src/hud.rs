//! The score read-out: a pixel-font rendering of the score and a
//! "SCORE:" label, drawn in white over the top-left of the frame.
//!
//! Digits use a 4x5 dot matrix scaled to 2x2 pixel blocks; the label
//! letters use a 4x5 single-pixel matrix. Every function states the colour
//! of every pixel it leaves behind.

use vstd::prelude::*;

use vstd::arithmetic::mul::lemma_mul_inequality;

use crate::game::Game;
use crate::render::{fill_rect, GRID_SIZE, WHITE};

verus! {

/// The 4-bit dot pattern of row `row` of decimal digit `digit`, most
/// significant bit leftmost; 0 outside the 10 x 5 table.
pub open spec fn glyph_row(digit: int, row: int) -> int {
    if digit == 0 {
        if row == 0 { 15 } else if row == 1 { 9 } else if row == 2 { 9 } else if row == 3 { 9 } else if row == 4 { 15 } else { 0 }
    } else if digit == 1 {
        if row == 0 { 6 } else if row == 1 { 10 } else if row == 2 { 4 } else if row == 3 { 4 } else if row == 4 { 15 } else { 0 }
    } else if digit == 2 {
        if row == 0 { 15 } else if row == 1 { 3 } else if row == 2 { 15 } else if row == 3 { 12 } else if row == 4 { 15 } else { 0 }
    } else if digit == 3 {
        if row == 0 { 15 } else if row == 1 { 3 } else if row == 2 { 15 } else if row == 3 { 3 } else if row == 4 { 15 } else { 0 }
    } else if digit == 4 {
        if row == 0 { 9 } else if row == 1 { 9 } else if row == 2 { 15 } else if row == 3 { 1 } else if row == 4 { 1 } else { 0 }
    } else if digit == 5 {
        if row == 0 { 15 } else if row == 1 { 12 } else if row == 2 { 15 } else if row == 3 { 3 } else if row == 4 { 15 } else { 0 }
    } else if digit == 6 {
        if row == 0 { 15 } else if row == 1 { 12 } else if row == 2 { 15 } else if row == 3 { 11 } else if row == 4 { 15 } else { 0 }
    } else if digit == 7 {
        if row == 0 { 15 } else if row == 1 { 1 } else if row == 2 { 2 } else if row == 3 { 4 } else if row == 4 { 8 } else { 0 }
    } else if digit == 8 {
        if row == 0 { 15 } else if row == 1 { 11 } else if row == 2 { 15 } else if row == 3 { 11 } else if row == 4 { 15 } else { 0 }
    } else if digit == 9 {
        if row == 0 { 15 } else if row == 1 { 11 } else if row == 2 { 15 } else if row == 3 { 3 } else if row == 4 { 15 } else { 0 }
    } else {
        0
    }
}

/// The place value of column `col` within a 4-bit glyph row.
pub open spec fn col_weight(col: int) -> int {
    if col == 0 { 8 } else if col == 1 { 4 } else if col == 2 { 2 } else { 1 }
}

/// Dot (`row`, `col`) of decimal digit `digit` is set.
pub open spec fn glyph_on(digit: int, row: int, col: int) -> bool {
    &&& 0 <= row < 5
    &&& 0 <= col < 4
    &&& (glyph_row(digit, row) / col_weight(col)) % 2 == 1
}

/// The pixel lies in a set 2x2 block of digit `digit` drawn with its
/// top-left corner at (`sx`, `sy`).
pub open spec fn glyph_covers(digit: int, sx: int, sy: int, px: int, py: int) -> bool {
    &&& sx <= px < sx + 8
    &&& sy <= py < sy + 10
    &&& glyph_on(digit, (py - sy) / 2, (px - sx) / 2)
}

/// The dot pattern row, as executable data.
fn glyph_row_exec(digit: u8, row: usize) -> (r: u8)
    ensures
        r as int == glyph_row(digit as int, row as int),
{
    if row >= 5 {
        return 0;
    }
    match digit {
        0 => [15u8, 9, 9, 9, 15][row],
        1 => [6u8, 10, 4, 4, 15][row],
        2 => [15u8, 3, 15, 12, 15][row],
        3 => [15u8, 3, 15, 3, 15][row],
        4 => [9u8, 9, 15, 1, 1][row],
        5 => [15u8, 12, 15, 3, 15][row],
        6 => [15u8, 12, 15, 11, 15][row],
        7 => [15u8, 1, 2, 4, 8][row],
        8 => [15u8, 11, 15, 11, 15][row],
        9 => [15u8, 11, 15, 3, 15][row],
        _ => 0,
    }
}

/// Whether dot (`row`, `col`) of digit `digit` is set, as executable code.
fn glyph_on_exec(digit: u8, row: usize, col: usize) -> (r: bool)
    requires
        row < 5,
        col < 4,
    ensures
        r == glyph_on(digit as int, row as int, col as int),
{
    let v = glyph_row_exec(digit, row);
    let weight: u8 = if col == 0 {
        8
    } else if col == 1 {
        4
    } else if col == 2 {
        2
    } else {
        1
    };
    (v / weight) % 2 == 1
}

/// The pixel, in glyph-local coordinates, that letter `which` of the
/// "SCORE:" label sets. Letters are indexed in label order: S, C, O, R, E
/// and the colon.
pub open spec fn letter_on(which: int, row: int, col: int) -> bool {
    &&& 0 <= row < 5
    &&& 0 <= col < 4
    &&& if which == 0 {
        ((row == 0 || row == 2 || row == 4) && col < 4) || (row == 1 && col == 0) || (row == 3
            && col == 3)
    } else if which == 1 {
        ((row == 0 || row == 4) && col > 0) || (col == 0 && 0 < row < 4)
    } else if which == 2 {
        ((row == 0 || row == 4) && 0 < col < 3) || ((col == 0 || col == 3) && 0 < row < 4)
    } else if which == 3 {
        col == 0 || ((row == 0 || row == 2) && col < 3) || (row == 1 && col == 3) || (row == 3
            && col == 2) || (row == 4 && col == 3)
    } else if which == 4 {
        col == 0 || row == 0 || row == 2 || row == 4
    } else if which == 5 {
        col == 1 && (row == 2 || row == 4)
    } else {
        false
    }
}

/// The pixel lies on a set dot of label letter `which` drawn at column
/// `lx`, rows 10 to 14.
pub open spec fn letter_covers(which: int, lx: int, px: int, py: int) -> bool {
    &&& lx <= px < lx + 4
    &&& 10 <= py < 15
    &&& letter_on(which, py - 10, px - lx)
}

/// Whether letter `which` sets the dot at (`row`, `col`), as executable
/// code.
fn letter_on_exec(which: u8, row: usize, col: usize) -> (r: bool)
    requires
        row < 5,
        col < 4,
    ensures
        r == letter_on(which as int, row as int, col as int),
{
    match which {
        0 => ((row == 0 || row == 2 || row == 4) && col < 4) || (row == 1 && col == 0) || (row == 3
            && col == 3),
        1 => ((row == 0 || row == 4) && col > 0) || (col == 0 && 0 < row && row < 4),
        2 => ((row == 0 || row == 4) && 0 < col && col < 3) || ((col == 0 || col == 3) && 0 < row
            && row < 4),
        3 => col == 0 || ((row == 0 || row == 2) && col < 3) || (row == 1 && col == 3) || (row == 3
            && col == 2) || (row == 4 && col == 3),
        4 => col == 0 || row == 0 || row == 2 || row == 4,
        5 => col == 1 && (row == 2 || row == 4),
        _ => false,
    }
}

/// Draw one label letter in white at column `lx`, rows 10 to 14, leaving
/// every other pixel untouched.
fn draw_letter(buffer: &mut Vec<u32>, ww: usize, which: u8, lx: usize)
    requires
        lx + 4 <= ww,
        15 * ww <= old(buffer)@.len(),
    ensures
        final(buffer)@.len() == old(buffer)@.len(),
        forall|k: int|
            0 <= k < final(buffer)@.len() ==> final(buffer)@[k] == (if letter_covers(
                which as int,
                lx as int,
                k % (ww as int),
                k / (ww as int),
            ) {
                WHITE
            } else {
                old(buffer)@[k]
            }),
{
    let ghost orig = old(buffer)@;
    let mut row: usize = 0;
    while row < 5
        invariant
            row <= 5,
            lx + 4 <= ww,
            15 * ww <= orig.len(),
            buffer@.len() == orig.len(),
            forall|k: int|
                0 <= k < buffer@.len() ==> buffer@[k] == (if letter_covers(
                    which as int,
                    lx as int,
                    k % (ww as int),
                    k / (ww as int),
                ) && k / (ww as int) - 10 < row {
                    WHITE
                } else {
                    orig[k]
                }),
        decreases 5 - row,
    {
        let mut col: usize = 0;
        while col < 4
            invariant
                row < 5,
                col <= 4,
                lx + 4 <= ww,
                15 * ww <= orig.len(),
                buffer@.len() == orig.len(),
                forall|k: int|
                    0 <= k < buffer@.len() ==> buffer@[k] == (if letter_covers(
                        which as int,
                        lx as int,
                        k % (ww as int),
                        k / (ww as int),
                    ) && (k / (ww as int) - 10 < row || (k / (ww as int) - 10 == row && k % (
                    ww as int) - lx < col)) {
                        WHITE
                    } else {
                        orig[k]
                    }),
            decreases 4 - col,
        {
            if letter_on_exec(which, row, col) {
                proof {
                    lemma_mul_inequality(10 + row as int + 1, 15, ww as int);
                }
                fill_rect(buffer, ww, lx + col, 10 + row, lx + col + 1, 10 + row + 1, WHITE);
            }
            col = col + 1;
        }
        row = row + 1;
    }
}

/// The pixel lies on a set dot of some digit of `score`, laid out from
/// column 10 with a 12-pixel pitch at row 10.
pub open spec fn score_digits_cover(score: int, px: int, py: int) -> bool {
    exists|k: int|
        0 <= k < dec_digits(score).len() && glyph_covers(
            dec_digits(score)[k],
            10 + 12 * k,
            10,
            px,
            py,
        )
}

/// The pixel lies on a set dot of the "SCORE:" label, laid out from
/// column 10 with a 5-pixel pitch at row 10.
pub open spec fn label_covers(px: int, py: int) -> bool {
    exists|j: int| 0 <= j < 6 && #[trigger] letter_covers(j, 10 + 5 * j, px, py)
}

/// The pixel belongs to the score read-out of a game whose score is
/// `score`: a digit dot or a label dot.
pub open spec fn hud_covers(score: int, px: int, py: int) -> bool {
    score_digits_cover(score, px, py) || label_covers(px, py)
}

/// The decimal digits of `n`, most significant first.
pub open spec fn dec_digits(n: int) -> Seq<int>
    decreases n,
{
    if n < 10 {
        seq![n]
    } else {
        dec_digits(n / 10).push(n % 10)
    }
}

/// `10^k`.
pub open spec fn pow10(k: nat) -> int
    decreases k,
{
    if k == 0 {
        1
    } else {
        10 * pow10((k - 1) as nat)
    }
}

/// A number below `10^k` has at most `k` decimal digits.
proof fn lemma_dec_digits_len(n: int, k: nat)
    requires
        1 <= k,
        0 <= n < pow10(k),
    ensures
        dec_digits(n).len() <= k,
    decreases k,
{
    if n >= 10 {
        if k == 1 {
            reveal_with_fuel(pow10, 2);
            assert(pow10(1) == 10);
        } else {
            lemma_dec_digits_len(n / 10, (k - 1) as nat);
        }
    }
}

/// The decimal digits of `n`, most significant first, as executable data;
/// each is below ten.
fn decimal_digits(n: u32) -> (r: Vec<u8>)
    ensures
        r@.len() == dec_digits(n as int).len(),
        forall|k: int| 0 <= k < r@.len() ==> r@[k] as int == dec_digits(n as int)[k],
        forall|k: int| 0 <= k < r@.len() ==> r@[k] < 10,
    decreases n,
{
    if n < 10 {
        let mut v: Vec<u8> = Vec::new();
        v.push(n as u8);
        v
    } else {
        let mut v = decimal_digits(n / 10);
        v.push((n % 10) as u8);
        v
    }
}

impl Game {
    /// Draw decimal digit `digit` in `color` as 2x2 pixel blocks of its
    /// 4x5 dot matrix, with its top-left corner at (`start_x`, `start_y`);
    /// a value of ten or more draws nothing.
    pub fn draw_digit(
        &self,
        buffer: &mut Vec<u32>,
        digit: u8,
        start_x: usize,
        start_y: usize,
        color: u32,
    )
        requires
            self.wf(),
            self.snake_view().width() * GRID_SIZE <= usize::MAX,
            start_x + 8 <= self.snake_view().width() * GRID_SIZE,
            (start_y + 10) * (self.snake_view().width() * GRID_SIZE) <= old(buffer)@.len(),
        ensures
            final(buffer)@.len() == old(buffer)@.len(),
            digit < 10 ==> forall|k: int|
                0 <= k < final(buffer)@.len() ==> final(buffer)@[k] == (if glyph_covers(
                    digit as int,
                    start_x as int,
                    start_y as int,
                    k % crate::render::window_width(*self),
                    k / crate::render::window_width(*self),
                ) {
                    color
                } else {
                    old(buffer)@[k]
                }),
            digit >= 10 ==> final(buffer)@ == old(buffer)@,
    {
        let ghost orig = old(buffer)@;
        let ww = self.snake_ref().grid_width() * GRID_SIZE;
        if digit >= 10 {
            return ;
        }
        let total = buffer.len();
        proof {
            assert(ww >= 1 && start_y + 10 <= (start_y + 10) * ww) by (nonlinear_arith)
                requires
                    ww == self.snake_view().width() * GRID_SIZE,
                    self.snake_view().width() >= 3,
                    GRID_SIZE >= 1,
                    start_y >= 0,
            ;
        }
        let mut row: usize = 0;
        while row < 5
            invariant
                row <= 5,
                digit < 10,
                start_x + 8 <= ww,
                (start_y + 10) * ww <= orig.len(),
                start_y + 10 <= total,
                total == orig.len(),
                buffer@.len() == orig.len(),
                forall|k: int|
                    0 <= k < buffer@.len() ==> buffer@[k] == (if glyph_covers(
                        digit as int,
                        start_x as int,
                        start_y as int,
                        k % (ww as int),
                        k / (ww as int),
                    ) && (k / (ww as int) - start_y) / 2 < row {
                        color
                    } else {
                        orig[k]
                    }),
            decreases 5 - row,
        {
            let mut col: usize = 0;
            while col < 4
                invariant
                    row < 5,
                    col <= 4,
                    digit < 10,
                    start_x + 8 <= ww,
                    (start_y + 10) * ww <= orig.len(),
                    start_y + 10 <= total,
                    total == orig.len(),
                    buffer@.len() == orig.len(),
                    forall|k: int|
                        0 <= k < buffer@.len() ==> buffer@[k] == (if glyph_covers(
                            digit as int,
                            start_x as int,
                            start_y as int,
                            k % (ww as int),
                            k / (ww as int),
                        ) && ((k / (ww as int) - start_y) / 2 < row || ((k / (ww as int) - start_y)
                            / 2 == row && (k % (ww as int) - start_x) / 2 < col)) {
                            color
                        } else {
                            orig[k]
                        }),
                decreases 4 - col,
            {
                if glyph_on_exec(digit, row, col) {
                    proof {
                        lemma_mul_inequality(
                            start_y as int + 2 * row + 2,
                            start_y as int + 10,
                            ww as int,
                        );
                    }
                    let bx = start_x + 2 * col;
                    let by = start_y + 2 * row;
                    fill_rect(buffer, ww, bx, by, bx + 2, by + 2, color);
                }
                col = col + 1;
            }
            row = row + 1;
        }
    }

    /// Draw the score read-out in white: the decimal digits of the score
    /// from column 10 at a 12-pixel pitch, then the "SCORE:" label over
    /// the same corner, all at row 10. Every other pixel is untouched.
    pub fn draw_score(&self, buffer: &mut Vec<u32>)
        requires
            self.wf(),
            self.snake_view().width() * GRID_SIZE <= usize::MAX,
            self.snake_view().width() * GRID_SIZE >= 140,
            20 * (self.snake_view().width() * GRID_SIZE) <= old(buffer)@.len(),
        ensures
            final(buffer)@.len() == old(buffer)@.len(),
            forall|k: int|
                0 <= k < final(buffer)@.len() ==> final(buffer)@[k] == (if hud_covers(
                    self.score_view() as int,
                    k % crate::render::window_width(*self),
                    k / crate::render::window_width(*self),
                ) {
                    WHITE
                } else {
                    old(buffer)@[k]
                }),
    {
        let ghost orig = old(buffer)@;
        let ghost score = self.score_view() as int;
        let ww = self.snake_ref().grid_width() * GRID_SIZE;
        let digits = decimal_digits(self.score());
        proof {
            reveal_with_fuel(pow10, 11);
            lemma_dec_digits_len(score, 10);
        }
        let mut i: usize = 0;
        while i < digits.len()
            invariant
                self.wf(),
                i <= digits@.len(),
                digits@.len() == dec_digits(score).len() <= 10,
                forall|k: int| 0 <= k < digits@.len() ==> digits@[k] as int == dec_digits(score)[k],
                forall|k: int| 0 <= k < digits@.len() ==> digits@[k] < 10,
                score == self.score_view() as int,
                ww == self.snake_view().width() * GRID_SIZE,
                ww >= 140,
                ww <= usize::MAX,
                20 * ww <= orig.len(),
                buffer@.len() == orig.len(),
                forall|k: int|
                    0 <= k < buffer@.len() ==> buffer@[k] == (if exists|j: int|
                        0 <= j < i && glyph_covers(
                            dec_digits(score)[j],
                            10 + 12 * j,
                            10,
                            k % (ww as int),
                            k / (ww as int),
                        ) {
                        WHITE
                    } else {
                        orig[k]
                    }),
            decreases digits@.len() - i,
        {
            let d = digits[i];
            self.draw_digit(buffer, d, 10 + 12 * i, 10, WHITE);
            proof {
                assert forall|k: int| 0 <= k < buffer@.len() implies buffer@[k] == (if exists|
                    j: int,
                |
                    0 <= j < i + 1 && glyph_covers(
                        dec_digits(score)[j],
                        10 + 12 * j,
                        10,
                        k % (ww as int),
                        k / (ww as int),
                    ) {
                    WHITE
                } else {
                    orig[k]
                }) by {
                    let px = k % (ww as int);
                    let py = k / (ww as int);
                    if glyph_covers(dec_digits(score)[i as int], 10 + 12 * (i as int), 10, px, py) {
                        assert(0 <= (i as int) < i + 1 && glyph_covers(
                            dec_digits(score)[i as int],
                            10 + 12 * (i as int),
                            10,
                            px,
                            py,
                        ));
                    }
                }
            }
            i = i + 1;
        }
        proof {
            assert forall|k: int| 0 <= k < buffer@.len() implies buffer@[k] == (if
            score_digits_cover(score, k % (ww as int), k / (ww as int)) {
                WHITE
            } else {
                orig[k]
            }) by {}
        }

        let ghost after_digits = buffer@;
        let mut j: u8 = 0;
        while j < 6
            invariant
                j <= 6,
                ww >= 140,
                20 * ww <= orig.len(),
                buffer@.len() == orig.len(),
                after_digits.len() == orig.len(),
                forall|k: int|
                    0 <= k < after_digits.len() ==> after_digits[k] == (if score_digits_cover(
                        score,
                        k % (ww as int),
                        k / (ww as int),
                    ) {
                        WHITE
                    } else {
                        orig[k]
                    }),
                forall|k: int|
                    0 <= k < buffer@.len() ==> buffer@[k] == (if exists|jj: int|
                        0 <= jj < j && #[trigger] letter_covers(
                            jj,
                            10 + 5 * jj,
                            k % (ww as int),
                            k / (ww as int),
                        ) {
                        WHITE
                    } else {
                        after_digits[k]
                    }),
            decreases 6 - j,
        {
            draw_letter(buffer, ww, j, 10 + 5 * (j as usize));
            proof {
                assert forall|k: int| 0 <= k < buffer@.len() implies buffer@[k] == (if exists|
                    jj: int,
                |
                    0 <= jj < j + 1 && #[trigger] letter_covers(
                        jj,
                        10 + 5 * jj,
                        k % (ww as int),
                        k / (ww as int),
                    ) {
                    WHITE
                } else {
                    after_digits[k]
                }) by {
                    let px = k % (ww as int);
                    let py = k / (ww as int);
                    if letter_covers(j as int, 10 + 5 * (j as int), px, py) {
                        assert(0 <= (j as int) < j + 1 && letter_covers(
                            j as int,
                            10 + 5 * (j as int),
                            px,
                            py,
                        ));
                    }
                }
            }
            j = j + 1;
        }
    }
}

} // verus!
