//! The snake: an ordered body of grid cells, a facing direction and a
//! pending-growth flag.
//!
//! The body is kept head first, tail last, and is never empty. Each
//! simulation step prepends the next head cell and, unless growth is
//! pending, drops the tail, which realises the classic follow-the-leader
//! movement of the whole body by one cell.

use vstd::prelude::*;

use crate::geometry::{in_grid, opposite, step, Direction, Position};

verus! {

pub struct Snake {
    body: Vec<Position>,
    direction: Direction,
    growing: bool,
    grid_width: usize,
    grid_height: usize,
}

impl Snake {
    /// The body cells, head first.
    pub closed spec fn body_view(&self) -> Seq<Position> {
        self.body@
    }

    /// The current facing direction.
    pub closed spec fn facing(&self) -> Direction {
        self.direction
    }

    /// Whether the next step keeps the tail instead of dropping it.
    pub closed spec fn is_growing(&self) -> bool {
        self.growing
    }

    /// Number of columns of the grid this snake moves on.
    pub closed spec fn width(&self) -> usize {
        self.grid_width
    }

    /// Number of rows of the grid this snake moves on.
    pub closed spec fn height(&self) -> usize {
        self.grid_height
    }

    /// The head cell: the first body cell.
    pub open spec fn head(&self) -> Position
        recommends
            self.body_view().len() > 0,
    {
        self.body_view()[0]
    }

    /// Well-formedness: the grid is large enough to have an interior, the
    /// body is never empty, and every body cell lies inside the grid.
    pub open spec fn wf(&self) -> bool {
        &&& 3 <= self.width()
        &&& 3 <= self.height()
        &&& self.body_view().len() >= 1
        &&& forall|i: int|
            0 <= i < self.body_view().len() ==> in_grid(
                self.body_view()[i],
                self.width(),
                self.height(),
            )
    }

    /// The body cell the head moves to on the next step.
    pub open spec fn next_head(&self) -> Position
        recommends
            self.body_view().len() > 0,
    {
        step(self.head(), self.facing(), self.width(), self.height())
    }

    /// The body after one step: the next head cell prepended, and the tail
    /// dropped unless growth was pending.
    pub open spec fn stepped_body(&self) -> Seq<Position>
        recommends
            self.body_view().len() > 0,
    {
        if self.is_growing() {
            seq![self.next_head()] + self.body_view()
        } else {
            seq![self.next_head()] + self.body_view().drop_last()
        }
    }

    /// The head lies on the one-cell wall ring, or coincides with a
    /// non-head body cell.
    pub open spec fn collided(&self) -> bool
        recommends
            self.wf(),
    {
        ||| self.head().x == 0
        ||| self.head().x == self.width() - 1
        ||| self.head().y == 0
        ||| self.head().y == self.height() - 1
        ||| exists|i: int| 1 <= i < self.body_view().len() && self.body_view()[i] == self.head()
    }

    /// A single-cell snake at the centre of the grid, facing right.
    pub fn new(grid_width: usize, grid_height: usize) -> (s: Snake)
        requires
            3 <= grid_width,
            3 <= grid_height,
        ensures
            s.wf(),
            s.width() == grid_width,
            s.height() == grid_height,
            s.body_view() == seq![Position { x: grid_width / 2, y: grid_height / 2 }],
            s.facing() == Direction::Right,
            !s.is_growing(),
    {
        let mut body: Vec<Position> = Vec::new();
        body.push(Position { x: grid_width / 2, y: grid_height / 2 });
        proof {
            assert(body@ =~= seq![Position { x: grid_width / 2, y: grid_height / 2 }]);
        }
        Snake { body, direction: Direction::Right, growing: false, grid_width, grid_height }
    }

    /// A snake with a caller-supplied body, facing right, with no growth
    /// pending.
    pub fn init(body: Vec<Position>, grid_width: usize, grid_height: usize) -> (s: Snake)
        requires
            3 <= grid_width,
            3 <= grid_height,
            body@.len() >= 1,
            forall|i: int| 0 <= i < body@.len() ==> in_grid(body@[i], grid_width, grid_height),
        ensures
            s.wf(),
            s.width() == grid_width,
            s.height() == grid_height,
            s.body_view() == body@,
            s.facing() == Direction::Right,
            !s.is_growing(),
    {
        Snake { body, direction: Direction::Right, growing: false, grid_width, grid_height }
    }

    /// Advance the whole body one cell in the facing direction.
    ///
    /// The new head is the old head moved one cell, with each coordinate
    /// clamped to the grid bounds; the tail is dropped unless growth was
    /// pending, so the length stays the same, or grows by exactly one when
    /// growth was pending, and the growth flag is consumed either way.
    pub fn update(&mut self)
        requires
            old(self).wf(),
        ensures
            final(self).wf(),
            final(self).width() == old(self).width(),
            final(self).height() == old(self).height(),
            final(self).facing() == old(self).facing(),
            !final(self).is_growing(),
            final(self).body_view() == old(self).stepped_body(),
            final(self).body_view().len() == old(self).body_view().len() + if old(self).is_growing() {
                1int
            } else {
                0int
            },
    {
        let head = self.body[0];
        let new_head = match self.direction {
            Direction::Up => Position { x: head.x, y: if head.y == 0 { 0 } else { head.y - 1 } },
            Direction::Down => Position {
                x: head.x,
                y: if head.y + 1 < self.grid_height { head.y + 1 } else { self.grid_height - 1 },
            },
            Direction::Left => Position { x: if head.x == 0 { 0 } else { head.x - 1 }, y: head.y },
            Direction::Right => Position {
                x: if head.x + 1 < self.grid_width { head.x + 1 } else { self.grid_width - 1 },
                y: head.y,
            },
        };
        assert(new_head == old(self).next_head());

        self.body.insert(0, new_head);

        if !self.growing {
            self.body.pop();
            proof {
                assert(self.body@ =~= seq![new_head] + old(self).body_view().drop_last());
            }
        } else {
            self.growing = false;
            proof {
                assert(self.body@ =~= seq![new_head] + old(self).body_view());
            }
        }
    }

    /// Set the facing direction to `new_direction`, unless that is the
    /// exact reverse of the current one, in which case the request is
    /// silently ignored: the snake cannot reverse into itself.
    ///
    /// The facing direction ends up equal to `new_direction` exactly when
    /// `new_direction` is not the opposite of the old facing direction.
    pub fn change_direction(&mut self, new_direction: Direction)
        requires
            old(self).wf(),
        ensures
            final(self).wf(),
            final(self).width() == old(self).width(),
            final(self).height() == old(self).height(),
            final(self).body_view() == old(self).body_view(),
            final(self).is_growing() == old(self).is_growing(),
            final(self).facing() == if new_direction == opposite(old(self).facing()) {
                old(self).facing()
            } else {
                new_direction
            },
            final(self).facing() == new_direction <==> new_direction != opposite(old(self).facing()),
    {
        match (self.direction, new_direction) {
            (Direction::Up, Direction::Down)
            | (Direction::Down, Direction::Up)
            | (Direction::Left, Direction::Right)
            | (Direction::Right, Direction::Left) => {},
            _ => {
                self.direction = new_direction;
            },
        }
    }

    /// Request growth: the next `update` keeps the tail.
    pub fn grow(&mut self)
        requires
            old(self).wf(),
        ensures
            final(self).wf(),
            final(self).width() == old(self).width(),
            final(self).height() == old(self).height(),
            final(self).body_view() == old(self).body_view(),
            final(self).facing() == old(self).facing(),
            final(self).is_growing(),
    {
        self.growing = true;
    }

    /// True exactly when the head lies on the wall ring, or equals some
    /// non-head body cell.
    pub fn check_collision(&self) -> (r: bool)
        requires
            self.wf(),
        ensures
            r == self.collided(),
    {
        let head = self.body[0];

        if head.x == 0 || head.x >= self.grid_width - 1 || head.y == 0 || head.y
            >= self.grid_height - 1 {
            return true;
        }

        let mut i: usize = 1;
        while i < self.body.len()
            invariant
                1 <= i <= self.body@.len(),
                head == self.head(),
                forall|k: int| 1 <= k < i ==> self.body_view()[k] != head,
            decreases self.body@.len() - i,
        {
            if self.body[i].x == head.x && self.body[i].y == head.y {
                return true;
            }
            i = i + 1;
        }
        false
    }

    /// The head cell.
    pub fn head_pos(&self) -> (r: Position)
        requires
            self.wf(),
        ensures
            r == self.head(),
    {
        self.body[0]
    }

    /// The number of body cells.
    pub fn len(&self) -> (r: usize)
        ensures
            r == self.body_view().len(),
    {
        self.body.len()
    }

    /// The body cell at index `i`, head first.
    pub fn cell(&self, i: usize) -> (r: Position)
        requires
            i < self.body_view().len(),
        ensures
            r == self.body_view()[i as int],
    {
        self.body[i]
    }

    /// A copy of the body cells, head first.
    pub fn body(&self) -> (r: Vec<Position>)
        ensures
            r@ == self.body_view(),
    {
        let mut out: Vec<Position> = Vec::new();
        let mut i: usize = 0;
        while i < self.body.len()
            invariant
                i <= self.body@.len(),
                out@ == self.body@.subrange(0, i as int),
            decreases self.body@.len() - i,
        {
            out.push(self.body[i]);
            i = i + 1;
        }
        proof {
            assert(out@ =~= self.body_view());
        }
        out
    }

    /// The current facing direction.
    pub fn current_direction(&self) -> (r: Direction)
        ensures
            r == self.facing(),
    {
        self.direction
    }

    /// Whether growth is pending.
    pub fn growing_pending(&self) -> (r: bool)
        ensures
            r == self.is_growing(),
    {
        self.growing
    }

    /// Number of columns of the grid this snake moves on.
    pub fn grid_width(&self) -> (r: usize)
        ensures
            r == self.width(),
    {
        self.grid_width
    }

    /// Number of rows of the grid this snake moves on.
    pub fn grid_height(&self) -> (r: usize)
        ensures
            r == self.height(),
    {
        self.grid_height
    }
}

} // verus!
