//! The item manager: a set of collectible positions, placed by rejection
//! sampling under the board's obstacle mask and the actor's occupancy,
//! with a deterministic fallback so that placement fails only on a board
//! with no free cell.

use vstd::prelude::*;
use crate::board::{Board, spec_idx, lemma_idx_bounds, lemma_idx_injective};
use crate::snake::{Snake, spec_pos_in_bounds};
use crate::GameObject;

verus! {

/// How many random draws are tried before the deterministic scan.
pub const SPAWN_ATTEMPTS: usize = 1000;

/// A collectible item at one cell.
#[derive(Debug, Clone, Copy, PartialEq, Eq, Structural)]
pub struct Food {
    pub x: usize,
    pub y: usize,
}

impl Food {
    /// An item at `(x, y)`.
    pub fn new(x: usize, y: usize) -> (r: Food)
        ensures
            r.x == x,
            r.y == y,
    {
        Food { x, y }
    }
}

/// Keeps every item that is not at `(x, y)`.
pub open spec fn spec_not_at(x: usize, y: usize) -> spec_fn(Food) -> bool {
    |f: Food| !(f.x == x && f.y == y)
}

/// The manager of the standing items.
pub struct FoodManager {
    pub foods: Vec<Food>,
}

impl FoodManager {
    /// Whether any item sits at `(x, y)`.
    pub open spec fn spec_food_at(&self, x: usize, y: usize) -> bool {
        exists|i: int|
            0 <= i < self.foods@.len() && (#[trigger] self.foods@[i]) == (Food { x, y })
    }

    /// `(x, y)` can take a new item: no wall, no actor segment, no item.
    pub open spec fn spec_cell_free(&self, board: Board, snake: Snake, x: usize, y: usize) -> bool {
        &&& !board.spec_is_wall(x as int, y as int)
        &&& !snake.body@.contains((x, y))
        &&& !self.spec_food_at(x, y)
    }

    /// An empty manager.
    pub fn new() -> (r: FoodManager)
        ensures
            r.foods@.len() == 0,
    {
        FoodManager { foods: Vec::new() }
    }

    /// Adds an item at `(x, y)`.
    pub fn add_food(&mut self, x: usize, y: usize)
        ensures
            final(self).foods@ == old(self).foods@.push(Food { x, y }),
    {
        self.foods.push(Food::new(x, y));
    }

    /// Removes any item at exactly `(x, y)`; a no-op when none is there.
    pub fn take_food(&mut self, x: usize, y: usize)
        ensures
            final(self).foods@ == old(self).foods@.filter(spec_not_at(x, y)),
    {
        let n = self.foods.len();
        let mut kept: Vec<Food> = Vec::new();
        let mut i: usize = 0;
        proof {
            reveal(Seq::filter);
            assert(self.foods@.take(0) =~= Seq::<Food>::empty());
        }
        while i < n
            invariant
                i <= n,
                n == self.foods@.len(),
                kept@ == self.foods@.take(i as int).filter(spec_not_at(x, y)),
            decreases n - i,
        {
            let f = self.foods[i];
            proof {
                reveal(Seq::filter);
                assert(self.foods@.take(i + 1).drop_last() =~= self.foods@.take(i as int));
                assert(self.foods@.take(i + 1).last() == self.foods@[i as int]);
            }
            if !(f.x == x && f.y == y) {
                kept.push(f);
            }
            i = i + 1;
        }
        proof {
            assert(self.foods@.take(n as int) =~= self.foods@);
        }
        self.foods = kept;
    }

    /// Whether any item sits at `(x, y)`.
    pub fn is_food_at(&self, x: usize, y: usize) -> (r: bool)
        ensures
            r == self.spec_food_at(x, y),
    {
        let n = self.foods.len();
        let mut i: usize = 0;
        while i < n
            invariant
                i <= n,
                n == self.foods@.len(),
                forall|j: int| 0 <= j < i ==> (#[trigger] self.foods@[j]) != (Food { x, y }),
            decreases n - i,
        {
            let f = self.foods[i];
            if f.x == x && f.y == y {
                proof {
                    assert(self.foods@[i as int] == (Food { x, y }));
                }
                return true;
            }
            i = i + 1;
        }
        false
    }

    /// Paints every item onto the board as `Food`; the rest of the board
    /// is left as it was.
    pub fn render_foods_to_board(&self, board: &mut Board)
        requires
            old(board).wf(),
        ensures
            final(board).wf(),
            final(board).width == old(board).width,
            final(board).height == old(board).height,
            final(board).cell_width == old(board).cell_width,
            final(board).cell_height == old(board).cell_height,
            final(board).level_data == old(board).level_data,
            final(board).cells@.len() == old(board).cells@.len(),
            forall|x: usize, y: usize|
                x < final(board).width && y < final(board).height
                    ==> final(board).cells@[spec_idx(
                    final(board).width as int,
                    x as int,
                    y as int,
                )] == (if self.spec_food_at(x, y) {
                    GameObject::Food
                } else {
                    old(board).cells@[spec_idx(final(board).width as int, x as int, y as int)]
                }),
    {
        let ghost w = old(board).width as int;
        let ghost h = old(board).height as int;
        let n = self.foods.len();
        let mut i: usize = 0;
        while i < n
            invariant
                i <= n,
                n == self.foods@.len(),
                board.wf(),
                board.width == old(board).width,
                board.height == old(board).height,
                board.cell_width == old(board).cell_width,
                board.cell_height == old(board).cell_height,
                board.level_data == old(board).level_data,
                board.cells@.len() == old(board).cells@.len(),
                w == board.width as int,
                h == board.height as int,
                forall|x: usize, y: usize|
                    x < board.width && y < board.height ==> board.cells@[spec_idx(
                        w,
                        x as int,
                        y as int,
                    )] == (if (exists|j: int|
                        0 <= j < i && (#[trigger] self.foods@[j]) == (Food { x, y })) {
                        GameObject::Food
                    } else {
                        old(board).cells@[spec_idx(w, x as int, y as int)]
                    }),
            decreases n - i,
        {
            let f = self.foods[i];
            let ghost cells0 = board.cells@;
            board.set_cell(f.x, f.y, GameObject::Food);
            proof {
                assert forall|x: usize, y: usize| x < board.width && y < board.height
                    implies board.cells@[spec_idx(w, x as int, y as int)] == (if (exists|j: int|
                    0 <= j < i + 1 && (#[trigger] self.foods@[j]) == (Food { x, y })) {
                    GameObject::Food
                } else {
                    old(board).cells@[spec_idx(w, x as int, y as int)]
                }) by {
                    let xi = x as int;
                    let yi = y as int;
                    lemma_idx_bounds(w, h, xi, yi);
                    assert(cells0[spec_idx(w, xi, yi)] == (if (exists|j: int|
                        0 <= j < i && (#[trigger] self.foods@[j]) == (Food { x, y })) {
                        GameObject::Food
                    } else {
                        old(board).cells@[spec_idx(w, xi, yi)]
                    }));
                    if f.x == x && f.y == y {
                        assert(spec_pos_in_bounds((f.x, f.y), w, h));
                        assert(self.foods@[i as int] == (Food { x, y }));
                        lemma_idx_bounds(w, h, f.x as int, f.y as int);
                        assert(board.cells@[spec_idx(w, xi, yi)] == GameObject::Food);
                    } else {
                        if spec_pos_in_bounds((f.x, f.y), w, h) {
                            lemma_idx_bounds(w, h, f.x as int, f.y as int);
                            if spec_idx(w, xi, yi) == spec_idx(w, f.x as int, f.y as int) {
                                lemma_idx_injective(w, h, xi, yi, f.x as int, f.y as int);
                            }
                        }
                        assert(board.cells@[spec_idx(w, xi, yi)] == cells0[spec_idx(w, xi, yi)]);
                        assert forall|j: int|
                            0 <= j < i + 1 && (#[trigger] self.foods@[j]) == (Food { x, y })
                            implies 0 <= j < i && self.foods@[j] == (Food { x, y }) by {
                            if j == i {
                                assert(self.foods@[j] == (Food { x: f.x, y: f.y }));
                            }
                        }
                    }
                }
            }
            i = i + 1;
        }
    }

    /// Places one item on a uniformly drawn free cell: not a wall, not on
    /// the actor, not on an item.  After a bounded number of random draws
    /// it falls back to scanning the whole board, so it returns `false`
    /// exactly when no free cell exists, and then changes nothing.
    pub fn spawn_food(&mut self, board: &Board, snake: &Snake) -> (r: bool)
        requires
            board.wf(),
            board.width >= 1,
            board.height >= 1,
        ensures
            r ==> ({
                let f = final(self).foods@.last();
                &&& final(self).foods@ == old(self).foods@.push(f)
                &&& f.x < board.width
                &&& f.y < board.height
                &&& old(self).spec_cell_free(*board, *snake, f.x, f.y)
            }),
            !r ==> *final(self) == *old(self),
            !r ==> forall|x: usize, y: usize|
                x < board.width && y < board.height ==> !old(self).spec_cell_free(
                    *board,
                    *snake,
                    x,
                    y,
                ),
    {
        let mut attempts: usize = 0;
        while attempts < SPAWN_ATTEMPTS
            invariant
                board.wf(),
                board.width >= 1,
                board.height >= 1,
                *self == *old(self),
            decreases SPAWN_ATTEMPTS - attempts,
        {
            let x = random_below(board.get_width());
            let y = random_below(board.get_height());
            if !board.is_wall(x, y) && !snake.is_snake_at(x, y) && !self.is_food_at(x, y) {
                self.foods.push(Food::new(x, y));
                return true;
            }
            attempts = attempts + 1;
        }
        let mut y: usize = 0;
        while y < board.get_height()
            invariant
                board.wf(),
                board.width >= 1,
                board.height >= 1,
                y <= board.height,
                *self == *old(self),
                forall|sx: usize, sy: usize|
                    sx < board.width && sy < y ==> !self.spec_cell_free(*board, *snake, sx, sy),
            decreases board.height - y,
        {
            let mut x: usize = 0;
            while x < board.get_width()
                invariant
                    board.wf(),
                    board.width >= 1,
                    board.height >= 1,
                    y < board.height,
                    x <= board.width,
                    *self == *old(self),
                    forall|sx: usize, sy: usize|
                        sx < board.width && sy < y ==> !self.spec_cell_free(*board, *snake, sx, sy),
                    forall|sx: usize|
                        sx < x ==> !self.spec_cell_free(*board, *snake, sx, y),
                decreases board.width - x,
            {
                if !board.is_wall(x, y) && !snake.is_snake_at(x, y) && !self.is_food_at(x, y) {
                    self.foods.push(Food::new(x, y));
                    return true;
                }
                x = x + 1;
            }
            y = y + 1;
        }
        false
    }
}

/// Relies on fastrand::usize: a uniform draw from the given range, which
/// panics only when the range is empty.
#[verifier::external_body]
fn random_below(bound: usize) -> (r: usize)
    requires
        bound >= 1,
    ensures
        r < bound,
{
    fastrand::usize(0..bound)
}

} // verus!
