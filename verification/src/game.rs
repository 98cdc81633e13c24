//! The game: one snake, one food cell, the score, the outcome, and the
//! fixed-cadence gating that decouples how often the caller polls from how
//! often the simulation steps.
//!
//! Time is handed in by the caller as a monotonic millisecond reading, so
//! the gating decision itself is verified; the caller owns the clock.

use vstd::prelude::*;

use crate::food::{free_cell, free_cell_exists, Food};
use crate::geometry::{in_grid, opposite, Direction, Position};
use crate::snake::Snake;

verus! {

/// The outcome the game is in: still playing, lost on a collision, or won
/// by filling the whole interior.
#[derive(Clone, Copy, PartialEq, Eq, Structural, Debug)]
pub enum GameState {
    Running,
    GameOver,
    Won,
}

/// A misconfiguration rejected at construction time.
#[derive(Clone, Copy, PartialEq, Eq, Structural, Debug)]
pub enum ConfigError {
    /// A zero refresh interval would make the fixed-cadence gating
    /// meaningless, so construction rejects it.
    ZeroRefreshInterval,
}

pub struct Game {
    snake: Snake,
    food: Food,
    score: u32,
    state: GameState,
    last_step_ms: u64,
    refresh_rate_ms: u64,
}

/// A read-only copy of everything a presentation layer needs after a tick.
pub struct Snapshot {
    pub body: Vec<Position>,
    pub food: Position,
    pub score: u32,
    pub state: GameState,
}

/// `g` is in the state every game starts in and returns to on restart:
/// a single-cell snake at the grid centre facing right, score zero, a
/// freshly spawned food cell, and the simulation clock set to `now_ms`.
/// The game runs unless the fresh snake already fills the interior, in
/// which case it is immediately won and the food cell stays at its
/// placeholder.
pub open spec fn fresh_game(
    g: Game,
    grid_width: usize,
    grid_height: usize,
    refresh_rate_ms: u64,
    now_ms: u64,
) -> bool {
    &&& g.wf()
    &&& g.snake_view().width() == grid_width
    &&& g.snake_view().height() == grid_height
    &&& g.refresh_view() == refresh_rate_ms
    &&& g.snake_view().body_view() == seq![
        Position { x: grid_width / 2, y: grid_height / 2 },
    ]
    &&& g.snake_view().facing() == Direction::Right
    &&& !g.snake_view().is_growing()
    &&& g.score_view() == 0
    &&& g.last_step_view() == now_ms
    &&& g.state_view() == (if free_cell_exists(g.snake_view()) {
        GameState::Running
    } else {
        GameState::Won
    })
    &&& free_cell_exists(g.snake_view()) ==> free_cell(g.food_pos(), g.snake_view())
    &&& !free_cell_exists(g.snake_view()) ==> g.food_pos() == (Position { x: 0, y: 0 })
}

impl Game {
    /// The owned snake.
    pub closed spec fn snake_view(&self) -> Snake {
        self.snake
    }

    /// The owned food holder.
    pub closed spec fn food_view(&self) -> Food {
        self.food
    }

    /// The current score.
    pub closed spec fn score_view(&self) -> u32 {
        self.score
    }

    /// The current outcome.
    pub closed spec fn state_view(&self) -> GameState {
        self.state
    }

    /// The millisecond reading at the last simulation step.
    pub closed spec fn last_step_view(&self) -> u64 {
        self.last_step_ms
    }

    /// The configured refresh interval in milliseconds.
    pub closed spec fn refresh_view(&self) -> u64 {
        self.refresh_rate_ms
    }

    /// The active food cell.
    pub open spec fn food_pos(&self) -> Position {
        self.food_view().pos()
    }

    /// Well-formedness: the snake is well formed, the refresh interval is
    /// positive, the food cell lies on the grid, and while the game runs
    /// the food cell is interior and never under the snake.
    pub open spec fn wf(&self) -> bool {
        &&& self.snake_view().wf()
        &&& self.refresh_view() >= 1
        &&& in_grid(self.food_pos(), self.snake_view().width(), self.snake_view().height())
        &&& self.state_view() == GameState::Running ==> free_cell(
            self.food_pos(),
            self.snake_view(),
        )
    }

    /// Enough time has elapsed since the last step for another one.
    pub open spec fn due(&self, now_ms: u64) -> bool {
        now_ms >= self.last_step_view() + self.refresh_view()
    }

    /// A new game on a `grid_width` x `grid_height` grid that steps every
    /// `refresh_rate_ms` milliseconds, with `now_ms` the caller's current
    /// monotonic millisecond reading.
    ///
    /// A zero refresh interval is rejected; any positive one is accepted
    /// and yields a fresh game.
    pub fn new(
        grid_width: usize,
        grid_height: usize,
        refresh_rate_ms: u64,
        now_ms: u64,
    ) -> (r: Result<Game, ConfigError>)
        requires
            3 <= grid_width,
            3 <= grid_height,
        ensures
            r is Ok <==> refresh_rate_ms >= 1,
            r matches Ok(g) ==> fresh_game(g, grid_width, grid_height, refresh_rate_ms, now_ms),
            r matches Err(e) ==> e == ConfigError::ZeroRefreshInterval,
    {
        if refresh_rate_ms == 0 {
            return Err(ConfigError::ZeroRefreshInterval);
        }
        let snake = Snake::new(grid_width, grid_height);
        let mut food = Food::new();
        let spawned = food.spawn(&snake);
        let state = if spawned {
            GameState::Running
        } else {
            GameState::Won
        };
        Ok(Game { snake, food, score: 0, state, last_step_ms: now_ms, refresh_rate_ms })
    }

    /// Throw the game back to its starting state on the same grid with the
    /// same refresh interval: fresh snake, fresh food, zero score, running.
    pub fn restart(&mut self, now_ms: u64)
        requires
            old(self).wf(),
        ensures
            fresh_game(
                *final(self),
                old(self).snake_view().width(),
                old(self).snake_view().height(),
                old(self).refresh_view(),
                now_ms,
            ),
    {
        let w = self.snake.grid_width();
        let h = self.snake.grid_height();
        self.snake = Snake::new(w, h);
        self.food = Food::new();
        let spawned = self.food.spawn(&self.snake);
        self.score = 0;
        self.state = if spawned {
            GameState::Running
        } else {
            GameState::Won
        };
        self.last_step_ms = now_ms;
    }

    /// One tick: when the game runs and the refresh interval has elapsed
    /// since the last step, advance the snake one cell, consume food under
    /// the new head (growing the snake, adding the fixed reward and
    /// re-spawning the food), and settle the outcome: a collision loses,
    /// an exhausted spawn wins, anything else keeps running. Before the
    /// interval has elapsed, or once the game is over or won, the tick
    /// changes nothing.
    pub fn update(&mut self, now_ms: u64)
        requires
            old(self).wf(),
            old(self).last_step_view() <= now_ms,
            old(self).score_view() <= u32::MAX - 10,
        ensures
            final(self).wf(),
            final(self).refresh_view() == old(self).refresh_view(),
            final(self).snake_view().width() == old(self).snake_view().width(),
            final(self).snake_view().height() == old(self).snake_view().height(),
            old(self).state_view() != GameState::Running ==> *final(self) == *old(self),
            old(self).state_view() == GameState::Running && !old(self).due(now_ms)
                ==> *final(self) == *old(self),
            old(self).state_view() == GameState::Running && old(self).due(now_ms) ==> ({
                let ate = old(self).snake_view().next_head() == old(self).food_pos();
                let exhausted = ate && !free_cell_exists(final(self).snake_view());
                &&& final(self).last_step_view() == now_ms
                &&& final(self).snake_view().body_view() == old(self).snake_view().stepped_body()
                &&& final(self).snake_view().facing() == old(self).snake_view().facing()
                &&& final(self).snake_view().is_growing() == ate
                &&& final(self).score_view() == old(self).score_view() + if ate {
                    10int
                } else {
                    0int
                }
                &&& !ate ==> final(self).food_view() == old(self).food_view()
                &&& ate && !exhausted ==> free_cell(final(self).food_pos(), final(self).snake_view())
                &&& exhausted ==> final(self).food_view() == old(self).food_view()
                &&& final(self).state_view() == (if final(self).snake_view().collided() {
                    GameState::GameOver
                } else if exhausted {
                    GameState::Won
                } else {
                    GameState::Running
                })
            }),
    {
        match self.state {
            GameState::Running => {},
            _ => {
                return ;
            },
        }

        if now_ms - self.last_step_ms >= self.refresh_rate_ms {
            self.snake.update();
            self.last_step_ms = now_ms;

            let head = self.snake.head_pos();
            let food_pos = self.food.position();
            let ate = head.x == food_pos.x && head.y == food_pos.y;
            if ate {
                self.snake.grow();
                self.score = self.score + 10;
                let spawned = self.food.spawn(&self.snake);
                if !spawned {
                    self.state = GameState::Won;
                }
            }

            proof {
                if !ate {
                    assert forall|i: int|
                        0 <= i < self.snake.body_view().len() implies self.snake.body_view()[i]
                        != self.food.pos() by {
                        if i == 0 {
                            assert(self.snake.body_view()[0]
                                == old(self).snake_view().next_head());
                        } else {
                            assert(self.snake.body_view()[i]
                                == old(self).snake_view().body_view()[i - 1]);
                            assert(!old(self).snake_view().body_view().contains(
                                self.food.pos(),
                            ));
                        }
                    }
                    assert(!self.snake.body_view().contains(self.food.pos()));
                }
            }

            if self.snake.check_collision() {
                self.state = GameState::GameOver;
            }
        }
    }

    /// Apply the tick's buffered input: while the game runs, forward at
    /// most one direction change to the snake and ignore restart requests;
    /// once the game is over or won, ignore directions and restart on
    /// request, leaving everything untouched otherwise.
    pub fn handle_input(
        &mut self,
        input: Option<Direction>,
        restart_requested: bool,
        now_ms: u64,
    )
        requires
            old(self).wf(),
        ensures
            final(self).wf(),
            old(self).state_view() == GameState::Running ==> ({
                &&& final(self).state_view() == old(self).state_view()
                &&& final(self).food_view() == old(self).food_view()
                &&& final(self).score_view() == old(self).score_view()
                &&& final(self).last_step_view() == old(self).last_step_view()
                &&& final(self).refresh_view() == old(self).refresh_view()
                &&& final(self).snake_view().body_view() == old(self).snake_view().body_view()
                &&& final(self).snake_view().is_growing() == old(self).snake_view().is_growing()
                &&& final(self).snake_view().width() == old(self).snake_view().width()
                &&& final(self).snake_view().height() == old(self).snake_view().height()
                &&& final(self).snake_view().facing() == (match input {
                    Some(d) => if d == opposite(old(self).snake_view().facing()) {
                        old(self).snake_view().facing()
                    } else {
                        d
                    },
                    None => old(self).snake_view().facing(),
                })
            }),
            old(self).state_view() != GameState::Running && restart_requested ==> fresh_game(
                *final(self),
                old(self).snake_view().width(),
                old(self).snake_view().height(),
                old(self).refresh_view(),
                now_ms,
            ),
            old(self).state_view() != GameState::Running && !restart_requested ==> *final(self)
                == *old(self),
    {
        match self.state {
            GameState::Running => {
                match input {
                    Some(d) => {
                        self.snake.change_direction(d);
                    },
                    None => {},
                }
            },
            _ => {
                if restart_requested {
                    self.restart(now_ms);
                }
            },
        }
    }

    /// A read-only snapshot of the authoritative state for presentation.
    pub fn snapshot(&self) -> (r: Snapshot)
        ensures
            r.body@ == self.snake_view().body_view(),
            r.food == self.food_pos(),
            r.score == self.score_view(),
            r.state == self.state_view(),
    {
        Snapshot {
            body: self.snake.body(),
            food: self.food.position(),
            score: self.score,
            state: self.state,
        }
    }

    /// The owned snake, for callers that only read it.
    pub fn snake_ref(&self) -> (r: &Snake)
        ensures
            *r == self.snake_view(),
    {
        &self.snake
    }

    /// The active food cell.
    pub fn food_position(&self) -> (r: Position)
        ensures
            r == self.food_pos(),
    {
        self.food.position()
    }

    /// The current score.
    pub fn score(&self) -> (r: u32)
        ensures
            r == self.score_view(),
    {
        self.score
    }

    /// The current outcome.
    pub fn state(&self) -> (r: GameState)
        ensures
            r == self.state_view(),
    {
        self.state
    }

    /// The millisecond reading recorded at the last simulation step.
    pub fn last_step_time(&self) -> (r: u64)
        ensures
            r == self.last_step_view(),
    {
        self.last_step_ms
    }

    /// The configured refresh interval in milliseconds.
    pub fn refresh_rate(&self) -> (r: u64)
        ensures
            r == self.refresh_view(),
    {
        self.refresh_rate_ms
    }
}

} // verus!
