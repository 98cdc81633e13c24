//! The food: a single active cell, re-sampled uniformly among the interior
//! cells that the snake does not occupy.

use vstd::prelude::*;

use rand::seq::IndexedRandom;

use crate::geometry::{interior, lex_less, Position};
use crate::snake::Snake;

verus! {

pub struct Food {
    position: Position,
}

/// Relies on rand's `IndexedRandom::choose`: `Some` of a uniformly sampled
/// element of the slice when it is non-empty, `None` when it is empty.
/// Which element comes back is random, so nothing more is stated.
#[verifier::external_body]
fn choose_position(candidates: &Vec<Position>) -> (r: Option<Position>)
    ensures
        r is Some <==> candidates@.len() > 0,
        r matches Some(p) ==> candidates@.contains(p),
{
    candidates.as_slice().choose(&mut rand::rng()).copied()
}

/// `p` is a cell food may occupy: interior to the grid and not covered by
/// the snake's body.
pub open spec fn free_cell(p: Position, snake: Snake) -> bool {
    interior(p, snake.width(), snake.height()) && !snake.body_view().contains(p)
}

/// Some cell is still free for food to occupy.
pub open spec fn free_cell_exists(snake: Snake) -> bool {
    exists|p: Position| free_cell(p, snake)
}

impl Food {
    /// The active food cell.
    pub closed spec fn pos(&self) -> Position {
        self.position
    }

    /// A food holder at an out-of-play placeholder cell; a spawn must
    /// assign a real cell before play.
    pub fn new() -> (f: Food)
        ensures
            f.pos() == (Position { x: 0, y: 0 }),
    {
        Food { position: Position { x: 0, y: 0 } }
    }

    /// The active food cell.
    pub fn position(&self) -> (r: Position)
        ensures
            r == self.pos(),
    {
        self.position
    }

    /// Every cell food may occupy, given this snake: the interior cells not
    /// covered by the snake's body, in strictly increasing column-major
    /// order.
    pub fn get_valid_spawn_positions(&self, snake: &Snake) -> (r: Vec<Position>)
        requires
            snake.wf(),
        ensures
            forall|p: Position| r@.contains(p) <==> free_cell(p, *snake),
            forall|i: int, j: int| 0 <= i < j < r@.len() ==> lex_less(r@[i], r@[j]),
    {
        let w = snake.grid_width();
        let h = snake.grid_height();
        let mut r: Vec<Position> = Vec::new();
        let mut x: usize = 1;
        while x < w - 1
            invariant
                snake.wf(),
                w == snake.width(),
                h == snake.height(),
                1 <= x <= w - 1,
                forall|p: Position| r@.contains(p) <==> free_cell(p, *snake) && p.x < x,
                forall|i: int, j: int| 0 <= i < j < r@.len() ==> lex_less(r@[i], r@[j]),
                forall|i: int| 0 <= i < r@.len() ==> r@[i].x < x,
            decreases w - 1 - x,
        {
            let mut y: usize = 1;
            while y < h - 1
                invariant
                    snake.wf(),
                    w == snake.width(),
                    h == snake.height(),
                    1 <= x < w - 1,
                    1 <= y <= h - 1,
                    forall|p: Position|
                        r@.contains(p) <==> free_cell(p, *snake) && lex_less(
                            p,
                            Position { x, y },
                        ),
                    forall|i: int, j: int| 0 <= i < j < r@.len() ==> lex_less(r@[i], r@[j]),
                    forall|i: int| 0 <= i < r@.len() ==> lex_less(r@[i], Position { x, y }),
                decreases h - 1 - y,
            {
                let p = Position { x, y };
                let ghost r_before = r@;
                let occupied = body_contains(snake, p);
                if !occupied {
                    r.push(p);
                }
                proof {
                    let bound = Position { x, y: (y + 1) as usize };
                    assert forall|q: Position|
                        free_cell(q, *snake) && lex_less(q, bound) implies #[trigger] r@.contains(
                        q,
                    ) by {
                        if lex_less(q, Position { x, y }) {
                            assert(r_before.contains(q));
                            if !occupied {
                                assert(r@ == r_before.push(p));
                                let k = choose|k: int|
                                    0 <= k < r_before.len() && r_before[k] == q;
                                assert(r@[k] == q);
                            }
                        } else {
                            assert(q == p);
                            assert(!occupied);
                            assert(r@[r@.len() - 1] == q);
                        }
                    }
                    assert forall|q: Position| #[trigger]
                        r@.contains(q) implies free_cell(q, *snake) && lex_less(q, bound) by {
                        if !occupied && !r_before.contains(q) {
                            assert(q == p);
                        }
                    }
                }
                y = y + 1;
            }
            proof {
                assert(forall|q: Position|
                    r@.contains(q) <==> free_cell(q, *snake) && q.x < x + 1) by {
                    assert forall|q: Position| #[trigger] r@.contains(q) implies free_cell(
                        q,
                        *snake,
                    ) && q.x < x + 1 by {}
                    assert forall|q: Position|
                        free_cell(q, *snake) && q.x < x + 1 implies #[trigger] r@.contains(q) by {
                        assert(lex_less(q, Position { x, y: (h - 1) as usize }));
                    }
                }
            }
            x = x + 1;
        }
        proof {
            assert(forall|q: Position| r@.contains(q) <==> free_cell(q, *snake)) by {
                assert forall|q: Position| free_cell(q, *snake) implies #[trigger] r@.contains(
                    q,
                ) by {
                    assert(q.x < w - 1);
                }
            }
        }
        r
    }

    /// Re-sample the food cell uniformly among the cells free of the snake.
    ///
    /// Returns true and assigns a free cell when one exists; returns false
    /// and leaves the previous cell untouched when the snake has filled the
    /// whole interior, which callers read as a game-won outcome.
    pub fn spawn(&mut self, snake: &Snake) -> (r: bool)
        requires
            snake.wf(),
        ensures
            r == free_cell_exists(*snake),
            r ==> free_cell(final(self).pos(), *snake),
            !r ==> *final(self) == *old(self),
    {
        let candidates = self.get_valid_spawn_positions(snake);
        proof {
            lemma_candidates_match_free_cells(candidates@, *snake);
        }
        match choose_position(&candidates) {
            Some(p) => {
                self.position = p;
                true
            },
            None => false,
        }
    }

    /// Re-sample the food cell uniformly among the cells free of the snake.
    ///
    /// Same outcome as `spawn`: true and a free cell when one exists, false
    /// with the previous cell untouched when the interior is full.
    pub fn spawn_hash(&mut self, snake: &Snake) -> (r: bool)
        requires
            snake.wf(),
        ensures
            r == free_cell_exists(*snake),
            r ==> free_cell(final(self).pos(), *snake),
            !r ==> *final(self) == *old(self),
    {
        self.spawn(snake)
    }
}

/// A vector that holds exactly the free cells is non-empty exactly when a
/// free cell exists.
proof fn lemma_candidates_match_free_cells(candidates: Seq<Position>, snake: Snake)
    requires
        forall|p: Position| candidates.contains(p) <==> free_cell(p, snake),
    ensures
        candidates.len() > 0 <==> free_cell_exists(snake),
{
    if candidates.len() > 0 {
        assert(candidates.contains(candidates[0]));
    }
    if free_cell_exists(snake) {
        let p = choose|p: Position| free_cell(p, snake);
        assert(candidates.contains(p));
    }
}

/// Whether `p` is one of the snake's body cells.
fn body_contains(snake: &Snake, p: Position) -> (r: bool)
    ensures
        r == snake.body_view().contains(p),
{
    let n = snake.len();
    let mut i: usize = 0;
    while i < n
        invariant
            n == snake.body_view().len(),
            i <= n,
            forall|k: int| 0 <= k < i ==> snake.body_view()[k] != p,
        decreases n - i,
    {
        let c = snake.cell(i);
        if c.x == p.x && c.y == p.y {
            proof {
                assert(snake.body_view()[i as int] == p);
            }
            return true;
        }
        i = i + 1;
    }
    false
}

} // verus!
