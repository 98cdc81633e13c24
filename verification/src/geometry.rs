//! Grid coordinates and movement directions.
//!
//! The playing field is a `grid_width` x `grid_height` grid of cells whose
//! outermost ring of cells forms the wall; every cell strictly inside that
//! ring is an interior (playable) cell.

use vstd::prelude::*;

verus! {

/// A grid cell, identified by its column `x` and row `y`.
#[derive(Clone, Copy, PartialEq, Eq, Structural, Debug, Hash)]
pub struct Position {
    pub x: usize,
    pub y: usize,
}

/// One of the four facing directions of the snake.
#[derive(Clone, Copy, PartialEq, Eq, Structural, Debug)]
pub enum Direction {
    Up,
    Down,
    Left,
    Right,
}

/// The direction exactly opposite to `d`.
pub open spec fn opposite(d: Direction) -> Direction {
    match d {
        Direction::Up => Direction::Down,
        Direction::Down => Direction::Up,
        Direction::Left => Direction::Right,
        Direction::Right => Direction::Left,
    }
}

/// `p` lies inside the grid bounds.
pub open spec fn in_grid(p: Position, grid_width: usize, grid_height: usize) -> bool {
    p.x < grid_width && p.y < grid_height
}

/// `p` is an interior cell: not on the one-cell-wide wall ring.
pub open spec fn interior(p: Position, grid_width: usize, grid_height: usize) -> bool {
    1 <= p.x < grid_width - 1 && 1 <= p.y < grid_height - 1
}

/// Column-major lexicographic order on cells: `a` comes strictly before
/// `b` when its column is smaller, or the columns agree and its row is
/// smaller.
pub open spec fn lex_less(a: Position, b: Position) -> bool {
    a.x < b.x || (a.x == b.x && a.y < b.y)
}

/// The cell reached by moving one step from `p` in direction `d`, with each
/// coordinate clamped to the grid bounds: moving against an outer numeric
/// bound leaves the coordinate saturated at that bound instead of leaving
/// the grid.
pub open spec fn step(p: Position, d: Direction, grid_width: usize, grid_height: usize) -> Position
    recommends
        in_grid(p, grid_width, grid_height),
{
    match d {
        Direction::Up => Position { x: p.x, y: if p.y == 0 { 0 } else { (p.y - 1) as usize } },
        Direction::Down => Position {
            x: p.x,
            y: if p.y + 1 < grid_height { (p.y + 1) as usize } else { (grid_height - 1) as usize },
        },
        Direction::Left => Position { x: if p.x == 0 { 0 } else { (p.x - 1) as usize }, y: p.y },
        Direction::Right => Position {
            x: if p.x + 1 < grid_width { (p.x + 1) as usize } else { (grid_width - 1) as usize },
            y: p.y,
        },
    }
}

} // verus!
