//! The simulation controller: a thin state machine over the board, the
//! actor and the item manager.  It sequences them per tick, translates
//! actor events into score and speed changes, and reports game events in
//! a queue its embedder drains after each tick.

use vstd::prelude::*;
use crate::board::{Board, filled, spec_idx, lemma_idx_bounds, spec_stripped};
use crate::food::{Food, FoodManager, spec_not_at};
use crate::snake::{
    Snake, spec_multi_step, CELL_MILLI, INITIAL_SPEED_MILLI, MILLIS_PER_SECOND,
};
use crate::{Direction, GameEvent, GameObject, GameState, Key, LevelError, spec_key_of_name};

verus! {

/// The logical board dimensions the controller always plays on.
pub const GRID_WIDTH: usize = 100;

/// The logical board dimensions the controller always plays on.
pub const GRID_HEIGHT: usize = 100;

/// The body length a fresh game starts with.
pub const INITIAL_SNAKE_LENGTH: usize = 5;

/// The growth debt handed out on a reset after a game over.
pub const SNAKE_GROWTH_RATE: usize = 8;

/// The pace gain per item eaten, in thousandths of a cell per second.
pub const SPEED_INC_MILLI: u32 = 50;

/// The segments gained per item eaten.
pub const FOOD_GROWTH: usize = 2;

/// The score gained per item eaten.
pub const FOOD_POINTS: u32 = 10;

/// What item placement after a consumption may leave behind: either one
/// new item on a cell that is free of walls, actor segments and the
/// remaining items, or the remaining items alone because no cell is free.
pub open spec fn spec_food_outcome(
    cleaned: Seq<Food>,
    foods_after: Seq<Food>,
    board: Board,
    body: Seq<(usize, usize)>,
) -> bool {
    ||| (foods_after.len() == cleaned.len() + 1 && foods_after == cleaned.push(
        foods_after.last(),
    ) && ({
        let f = foods_after.last();
        &&& f.x < board.width
        &&& f.y < board.height
        &&& !board.spec_is_wall(f.x as int, f.y as int)
        &&& !body.contains((f.x, f.y))
        &&& !cleaned.contains(f)
    }))
    ||| (foods_after == cleaned && forall|sx: usize, sy: usize|
        sx < board.width && sy < board.height ==> (board.spec_is_wall(sx as int, sy as int)
            || body.contains((sx, sy)) || cleaned.contains(Food { x: sx, y: sy })))
}

/// The whole game: score, pixel buffer, run state, and the three parts
/// of the world, with the event queue the embedder drains.
pub struct Game {
    pub score: u32,
    pub screen_buffer: Vec<u8>,
    pub game_state: GameState,
    pub snake: Snake,
    pub board: Board,
    pub food_manager: FoodManager,
    pub events: Vec<GameEvent>,
}

impl Game {
    /// The parts fit together: the fixed grid, an actor on it, and a
    /// pixel buffer of exactly the projection's size.
    pub open spec fn wf(&self) -> bool {
        &&& self.board.wf()
        &&& self.board.width == GRID_WIDTH
        &&& self.board.height == GRID_HEIGHT
        &&& self.snake.wf()
        &&& self.snake.in_bounds(self.board.width as int, self.board.height as int)
        &&& self.screen_buffer@.len() == self.board.spec_buffer_len()
    }

    /// A paused fresh game: the level loaded onto the fixed grid, a
    /// five-segment-to-be actor at the centre, and one item placed if the
    /// level leaves a free cell.  Fails exactly when the stripped level
    /// does not cover the grid.
    pub fn new(width: usize, height: usize, level_data: &[u8]) -> (r: Result<Game, LevelError>)
        requires
            width * height * 4 <= usize::MAX,
        ensures
            r is Ok <==> spec_stripped(level_data@).len() == GRID_WIDTH * GRID_HEIGHT,
            r matches Ok(g) ==> {
                &&& g.wf()
                &&& g.score == 0
                &&& g.game_state == GameState::Paused
                &&& g.board.level_data@ == spec_stripped(level_data@)
                &&& g.board.cell_width == width / GRID_WIDTH
                &&& g.board.cell_height == height / GRID_HEIGHT
                &&& g.snake.body@ == seq![((GRID_WIDTH / 2) as usize, (GRID_HEIGHT / 2) as usize)]
                &&& g.snake.direction == Direction::Right
                &&& g.snake.speed == INITIAL_SPEED_MILLI
                &&& g.snake.movement_accumulator == 0
                &&& g.snake.grow_pending == INITIAL_SNAKE_LENGTH - 1
                &&& g.events@ == Seq::<GameEvent>::empty()
                &&& g.food_manager.foods@.len() <= 1
                &&& (g.food_manager.foods@.len() == 1 ==> {
                    let f = g.food_manager.foods@.last();
                    &&& f.x < GRID_WIDTH
                    &&& f.y < GRID_HEIGHT
                    &&& !g.board.spec_is_wall(f.x as int, f.y as int)
                    &&& !g.snake.body@.contains((f.x, f.y))
                })
                &&& (g.food_manager.foods@.len() == 0 ==> forall|x: usize, y: usize|
                    x < GRID_WIDTH && y < GRID_HEIGHT ==> (g.board.spec_is_wall(x as int, y as int)
                        || g.snake.body@.contains((x, y))))
            },
    {
        let cell_width = width / GRID_WIDTH;
        let cell_height = height / GRID_HEIGHT;
        let mut board = Board::new(GRID_WIDTH, GRID_HEIGHT, cell_width, cell_height);
        match board.set_level_data(level_data) {
            Ok(()) => {},
            Err(e) => {
                return Err(e);
            },
        }
        let mut snake = Snake::new(GRID_WIDTH / 2, GRID_HEIGHT / 2);
        snake.grow(INITIAL_SNAKE_LENGTH - 1);

        let mut food_manager = FoodManager::new();
        let spawned = food_manager.spawn_food(&board, &snake);
        proof {
            if !spawned {
                assert forall|x: usize, y: usize| x < GRID_WIDTH && y < GRID_HEIGHT
                    implies (board.spec_is_wall(x as int, y as int) || snake.body@.contains(
                    (x, y),
                )) by {
                    assert(!food_manager.spec_cell_free(board, snake, x, y));
                }
            }
        }

        let pixel_cols = GRID_WIDTH * cell_width;
        let pixel_rows = GRID_HEIGHT * cell_height;
        proof {
            assert(GRID_WIDTH * cell_width <= width && GRID_HEIGHT * cell_height <= height)
                by (nonlinear_arith)
                requires
                    cell_width == width / GRID_WIDTH,
                    cell_height == height / GRID_HEIGHT,
                    GRID_WIDTH >= 1,
                    GRID_HEIGHT >= 1,
            ;
            assert(pixel_cols * pixel_rows * 4 <= width * height * 4) by (nonlinear_arith)
                requires
                    0 <= pixel_cols <= width,
                    0 <= pixel_rows <= height,
            ;
        }
        let size = pixel_cols * pixel_rows * 4;
        let screen_buffer = filled(size, 0u8);

        Ok(Game {
            score: 0,
            screen_buffer,
            game_state: GameState::Paused,
            snake,
            board,
            food_manager,
            events: Vec::new(),
        })
    }

    /// The accumulated score.
    pub fn get_score(&self) -> (r: u32)
        ensures
            r == self.score,
    {
        self.score
    }

    /// The pixel buffer the last `render` produced.
    pub fn get_screen_buffer(&self) -> (r: &Vec<u8>)
        ensures
            r == self.screen_buffer,
    {
        &self.screen_buffer
    }

    /// The logical board width.
    pub fn get_board_width(&self) -> (r: usize)
        ensures
            r == self.board.width,
    {
        self.board.get_width()
    }

    /// The logical board height.
    pub fn get_board_height(&self) -> (r: usize)
        ensures
            r == self.board.height,
    {
        self.board.get_height()
    }

    /// The current run state.
    pub fn get_game_state(&self) -> (r: GameState)
        ensures
            r == self.game_state,
    {
        self.game_state
    }

    /// Adds `points` to the score, stopping at the top of the range.
    fn update_score(&mut self, points: u32)
        ensures
            final(self).score == (if old(self).score + points <= u32::MAX {
                old(self).score + points
            } else {
                old(self).score as int
            }),
            final(self).screen_buffer == old(self).screen_buffer,
            final(self).game_state == old(self).game_state,
            final(self).snake == old(self).snake,
            final(self).board == old(self).board,
            final(self).food_manager == old(self).food_manager,
            final(self).events == old(self).events,
    {
        if self.score <= u32::MAX - points {
            self.score = self.score + points;
        }
    }

    /// One item eaten at `(x, y)`: report it, grow the actor, quicken the
    /// pace, remove the item, add the points, and place the next item.
    fn snake_eats_food(&mut self, x: usize, y: usize)
        requires
            old(self).wf(),
        ensures
            final(self).wf(),
            final(self).board == old(self).board,
            final(self).screen_buffer == old(self).screen_buffer,
            final(self).game_state == old(self).game_state,
            final(self).events@ == old(self).events@.push(GameEvent::EatFood),
            final(self).snake.body == old(self).snake.body,
            final(self).snake.direction == old(self).snake.direction,
            final(self).snake.movement_accumulator == old(self).snake.movement_accumulator,
            final(self).snake.grow_pending == (if old(self).snake.grow_pending + FOOD_GROWTH
                <= usize::MAX {
                old(self).snake.grow_pending + FOOD_GROWTH
            } else {
                old(self).snake.grow_pending as int
            }),
            final(self).snake.speed == (if old(self).snake.speed + SPEED_INC_MILLI <= u32::MAX {
                old(self).snake.speed + SPEED_INC_MILLI
            } else {
                old(self).snake.speed as int
            }),
            final(self).score == (if old(self).score + FOOD_POINTS <= u32::MAX {
                old(self).score + FOOD_POINTS
            } else {
                old(self).score as int
            }),
            spec_food_outcome(
                old(self).food_manager.foods@.filter(spec_not_at(x, y)),
                final(self).food_manager.foods@,
                old(self).board,
                old(self).snake.body@,
            ),
    {
        self.events.push(GameEvent::EatFood);
        if self.snake.grow_pending <= usize::MAX - FOOD_GROWTH {
            self.snake.grow(FOOD_GROWTH);
        }
        if self.snake.speed <= u32::MAX - SPEED_INC_MILLI {
            self.snake.increase_speed(SPEED_INC_MILLI);
        }
        self.food_manager.take_food(x, y);
        self.update_score(FOOD_POINTS);
        let ghost fm_before = self.food_manager;
        let spawned = self.food_manager.spawn_food(&self.board, &self.snake);
        proof {
            let cleaned = old(self).food_manager.foods@.filter(spec_not_at(x, y));
            assert(fm_before.foods@ == cleaned);
            if !spawned {
                assert forall|sx: usize, sy: usize|
                    sx < old(self).board.width && sy < old(self).board.height
                    implies (old(self).board.spec_is_wall(sx as int, sy as int) || old(
                    self,
                ).snake.body@.contains((sx, sy)) || cleaned.contains(
                    Food { x: sx, y: sy },
                )) by {
                    assert(!fm_before.spec_cell_free(self.board, self.snake, sx, sy));
                    if fm_before.spec_food_at(sx, sy) {
                        let i = choose|i: int|
                            0 <= i < fm_before.foods@.len() && fm_before.foods@[i] == (Food {
                                x: sx,
                                y: sy,
                            });
                        assert(cleaned[i] == (Food { x: sx, y: sy }));
                        assert(cleaned.contains(Food { x: sx, y: sy }));
                    }
                }
            } else {
                let f = self.food_manager.foods@.last();
                assert(!fm_before.spec_food_at(f.x, f.y));
                if cleaned.contains(f) {
                    let i = choose|i: int| 0 <= i < cleaned.len() && cleaned[i] == f;
                    assert(fm_before.foods@[i] == (Food { x: f.x, y: f.y }));
                    assert(false);
                }
            }
            assert(spec_food_outcome(
                cleaned,
                self.food_manager.foods@,
                old(self).board,
                old(self).snake.body@,
            ));
        }
    }

    /// Advances the simulation by `delta_milliseconds` of wall-clock time:
    /// nothing happens unless the game is running; the actor executes its
    /// due steps; a rejected step ends the game; otherwise an item under
    /// the new head is eaten.
    pub fn update(&mut self, delta_milliseconds: u32)
        requires
            old(self).wf(),
        ensures
            final(self).wf(),
            old(self).game_state != GameState::Running ==> *final(self) == *old(self),
            old(self).game_state == GameState::Running ==> ({
                let total = old(self).snake.movement_accumulator + (old(self).snake.speed
                    * delta_milliseconds) / (MILLIS_PER_SECOND as int);
                let out = spec_multi_step(
                    old(self).board,
                    old(self).snake.body@,
                    old(self).snake.grow_pending as nat,
                    old(self).snake.direction,
                    (total / (CELL_MILLI as int)) as nat,
                );
                let head = out.0[0];
                let ate = out.2 && old(self).food_manager.spec_food_at(head.0, head.1);
                &&& final(self).board == old(self).board
                &&& final(self).screen_buffer == old(self).screen_buffer
                &&& final(self).snake.body@ == out.0
                &&& final(self).snake.direction == old(self).snake.direction
                &&& final(self).snake.movement_accumulator == total % (CELL_MILLI as int)
                &&& (!out.2 ==> {
                    &&& final(self).game_state == GameState::GameOver
                    &&& final(self).events@ == old(self).events@.push(GameEvent::GameOver)
                    &&& final(self).score == old(self).score
                    &&& final(self).snake.grow_pending == out.1
                    &&& final(self).snake.speed == old(self).snake.speed
                    &&& final(self).food_manager == old(self).food_manager
                })
                &&& (out.2 ==> final(self).game_state == GameState::Running)
                &&& (out.2 && !ate ==> {
                    &&& final(self).events == old(self).events
                    &&& final(self).score == old(self).score
                    &&& final(self).snake.grow_pending == out.1
                    &&& final(self).snake.speed == old(self).snake.speed
                    &&& final(self).food_manager == old(self).food_manager
                })
                &&& (ate ==> {
                    &&& final(self).events@ == old(self).events@.push(GameEvent::EatFood)
                    &&& final(self).score == (if old(self).score + FOOD_POINTS <= u32::MAX {
                        old(self).score + FOOD_POINTS
                    } else {
                        old(self).score as int
                    })
                    &&& final(self).snake.grow_pending == (if out.1 + FOOD_GROWTH <= usize::MAX {
                        out.1 + FOOD_GROWTH
                    } else {
                        out.1 as int
                    })
                    &&& final(self).snake.speed == (if old(self).snake.speed + SPEED_INC_MILLI
                        <= u32::MAX {
                        old(self).snake.speed + SPEED_INC_MILLI
                    } else {
                        old(self).snake.speed as int
                    })
                    &&& spec_food_outcome(
                        old(self).food_manager.foods@.filter(spec_not_at(head.0, head.1)),
                        final(self).food_manager.foods@,
                        old(self).board,
                        out.0,
                    )
                })
            }),
    {
        if self.game_state != GameState::Running {
            return ;
        }
        let moved = self.snake.move_forward(&self.board, delta_milliseconds);
        if !moved {
            self.events.push(GameEvent::GameOver);
            self.game_state = GameState::GameOver;
            return ;
        }
        let head = self.snake.get_head_pos();
        if self.food_manager.is_food_at(head.0, head.1) {
            self.snake_eats_food(head.0, head.1);
        }
    }

    /// A fresh running round on the same board: score cleared, a new
    /// actor at the centre with the reset growth debt; items and queued
    /// events are kept.
    fn reset(&mut self)
        requires
            old(self).wf(),
        ensures
            final(self).wf(),
            final(self).score == 0,
            final(self).game_state == GameState::Running,
            final(self).snake.body@ == seq![
                ((GRID_WIDTH / 2) as usize, (GRID_HEIGHT / 2) as usize),
            ],
            final(self).snake.direction == Direction::Right,
            final(self).snake.speed == INITIAL_SPEED_MILLI,
            final(self).snake.movement_accumulator == 0,
            final(self).snake.grow_pending == SNAKE_GROWTH_RATE,
            final(self).board == old(self).board,
            final(self).screen_buffer == old(self).screen_buffer,
            final(self).food_manager == old(self).food_manager,
            final(self).events == old(self).events,
    {
        self.score = 0;
        self.game_state = GameState::Running;
        self.snake = Snake::new(GRID_WIDTH / 2, GRID_HEIGHT / 2);
        self.snake.grow(SNAKE_GROWTH_RATE);
    }

    /// Reacts to a decoded key name: space toggles pause and run, or
    /// restarts after a game over; a direction key steers the actor while
    /// the game runs; anything else is ignored.
    pub fn key_down(&mut self, key: &str)
        requires
            old(self).wf(),
        ensures
            final(self).wf(),
            final(self).board == old(self).board,
            final(self).screen_buffer == old(self).screen_buffer,
            final(self).food_manager == old(self).food_manager,
            ({
                let k = spec_key_of_name(key);
                &&& (k == Key::Space && old(self).game_state == GameState::Running ==> {
                    &&& final(self).game_state == GameState::Paused
                    &&& final(self).events@ == old(self).events@.push(GameEvent::GamePause)
                    &&& final(self).snake == old(self).snake
                    &&& final(self).score == old(self).score
                })
                &&& (k == Key::Space && old(self).game_state == GameState::Paused ==> {
                    &&& final(self).game_state == GameState::Running
                    &&& final(self).events@ == old(self).events@.push(GameEvent::GameStart)
                    &&& final(self).snake == old(self).snake
                    &&& final(self).score == old(self).score
                })
                &&& (k == Key::Space && old(self).game_state == GameState::GameOver ==> {
                    &&& final(self).game_state == GameState::Running
                    &&& final(self).events@ == old(self).events@.push(GameEvent::GameStart)
                    &&& final(self).score == 0
                    &&& final(self).snake.body@ == seq![
                        ((GRID_WIDTH / 2) as usize, (GRID_HEIGHT / 2) as usize),
                    ]
                    &&& final(self).snake.direction == Direction::Right
                    &&& final(self).snake.speed == INITIAL_SPEED_MILLI
                    &&& final(self).snake.movement_accumulator == 0
                    &&& final(self).snake.grow_pending == SNAKE_GROWTH_RATE
                })
                &&& (k != Key::Space && old(self).game_state == GameState::Running ==> {
                    &&& final(self).game_state == old(self).game_state
                    &&& final(self).events == old(self).events
                    &&& final(self).score == old(self).score
                    &&& final(self).snake.direction == Snake::spec_new_direction(
                        old(self).snake.direction,
                        k,
                    )
                    &&& final(self).snake.body == old(self).snake.body
                    &&& final(self).snake.speed == old(self).snake.speed
                    &&& final(self).snake.movement_accumulator
                        == old(self).snake.movement_accumulator
                    &&& final(self).snake.grow_pending == old(self).snake.grow_pending
                })
                &&& (k != Key::Space && old(self).game_state != GameState::Running ==> *final(self)
                    == *old(self))
            }),
    {
        let key: Key = Key::from(key);
        if key == Key::Space && self.game_state == GameState::Running {
            self.events.push(GameEvent::GamePause);
            self.game_state = GameState::Paused;
            return ;
        } else if key == Key::Space && self.game_state == GameState::Paused {
            self.events.push(GameEvent::GameStart);
            self.game_state = GameState::Running;
            return ;
        } else if key == Key::Space && self.game_state == GameState::GameOver {
            self.events.push(GameEvent::GameStart);
            self.reset();
            return ;
        }
        if self.game_state != GameState::Running {
            return ;
        }
        self.snake.change_direction(key);
    }

    /// What a rendered cell shows, actor over items over the level.
    pub open spec fn spec_layer(&self, x: usize, y: usize) -> GameObject {
        if self.snake.body@.contains((x, y)) {
            GameObject::Snake
        } else if self.food_manager.spec_food_at(x, y) {
            GameObject::Food
        } else if self.board.spec_is_wall(x as int, y as int) {
            GameObject::Wall
        } else {
            GameObject::Empty
        }
    }

    /// Recomposes the board from the level, the items and the actor, and
    /// projects it into the pixel buffer; the simulation state is
    /// untouched.
    pub fn render(&mut self)
        requires
            old(self).wf(),
        ensures
            final(self).wf(),
            final(self).score == old(self).score,
            final(self).game_state == old(self).game_state,
            final(self).snake == old(self).snake,
            final(self).food_manager == old(self).food_manager,
            final(self).events == old(self).events,
            final(self).board.width == old(self).board.width,
            final(self).board.height == old(self).board.height,
            final(self).board.cell_width == old(self).board.cell_width,
            final(self).board.cell_height == old(self).board.cell_height,
            final(self).board.level_data == old(self).board.level_data,
            forall|x: usize, y: usize|
                x < GRID_WIDTH && y < GRID_HEIGHT ==> final(self).board.cells@[spec_idx(
                    GRID_WIDTH as int,
                    x as int,
                    y as int,
                )] == old(self).spec_layer(x, y),
            final(self).screen_buffer@.len() == old(self).screen_buffer@.len(),
            forall|bx: int, by: int|
                0 <= bx < final(self).board.spec_pixel_cols() && 0 <= by
                    < final(self).board.spec_pixel_rows() ==> final(self).board.spec_pixel_done(
                    final(self).screen_buffer@,
                    bx,
                    by,
                ),
    {
        let ghost w = GRID_WIDTH as int;
        let ghost h = GRID_HEIGHT as int;
        self.board.draw_level();
        let ghost cells1 = self.board.cells@;
        self.food_manager.render_foods_to_board(&mut self.board);
        let ghost cells2 = self.board.cells@;
        self.snake.render_to_board(&mut self.board);
        proof {
            assert forall|x: usize, y: usize| x < GRID_WIDTH && y < GRID_HEIGHT
                implies self.board.cells@[spec_idx(w, x as int, y as int)] == old(
                self,
            ).spec_layer(x, y) by {
                let xi = x as int;
                let yi = y as int;
                lemma_idx_bounds(w, h, xi, yi);
                assert(cells1[spec_idx(w, xi, yi)] == (if old(self).board.level_data@[spec_idx(
                    w,
                    xi,
                    yi,
                )] == crate::board::WALL_MARKER {
                    GameObject::Wall
                } else {
                    GameObject::Empty
                }));
                assert(cells2[spec_idx(w, xi, yi)] == (if old(self).food_manager.spec_food_at(
                    x,
                    y,
                ) {
                    GameObject::Food
                } else {
                    cells1[spec_idx(w, xi, yi)]
                }));
                assert(self.board.cells@[spec_idx(w, xi, yi)] == (if old(
                    self,
                ).snake.body@.contains((x, y)) {
                    GameObject::Snake
                } else {
                    cells2[spec_idx(w, xi, yi)]
                }));
            }
        }
        self.board.render_to_buffer(&mut self.screen_buffer);
    }

    /// Hands over the events gathered since the last drain, oldest first,
    /// leaving the queue empty.
    pub fn take_events(&mut self) -> (r: Vec<GameEvent>)
        ensures
            r@ == old(self).events@,
            final(self).events@ == Seq::<GameEvent>::empty(),
            final(self).score == old(self).score,
            final(self).screen_buffer == old(self).screen_buffer,
            final(self).game_state == old(self).game_state,
            final(self).snake == old(self).snake,
            final(self).board == old(self).board,
            final(self).food_manager == old(self).food_manager,
    {
        let n = self.events.len();
        let mut out: Vec<GameEvent> = Vec::new();
        let mut i: usize = 0;
        while i < n
            invariant
                i <= n,
                n == self.events@.len(),
                out@ == self.events@.take(i as int),
            decreases n - i,
        {
            out.push(self.events[i]);
            proof {
                assert(self.events@.take(i + 1) =~= self.events@.take(i as int).push(
                    self.events@[i as int],
                ));
            }
            i = i + 1;
        }
        proof {
            assert(self.events@.take(n as int) =~= self.events@);
        }
        self.events = Vec::new();
        out
    }
}

} // verus!
