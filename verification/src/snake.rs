//! The segmented actor: a double-ended body on the toroidal grid, a facing
//! direction, and accumulator-based variable-speed stepping with gradual
//! growth and wall/self collision checks.

use vstd::prelude::*;
use std::collections::VecDeque;
use crate::board::{Board, spec_idx, lemma_idx_injective};
use crate::{Direction, GameObject, Key, spec_direction_of_key};

verus! {

/// The starting pace of a fresh actor, in thousandths of a cell per second.
pub const INITIAL_SPEED_MILLI: u32 = 3000;

/// One second, in the milliseconds the tick deltas are measured in.
pub const MILLIS_PER_SECOND: u32 = 1000;

/// One whole cell of progress, in the thousandths the accumulator holds.
pub const CELL_MILLI: u32 = 1000;

/// A position lies on a `width x height` board.
pub open spec fn spec_pos_in_bounds(p: (usize, usize), width: int, height: int) -> bool {
    p.0 < width && p.1 < height
}

/// One step of toroidal movement: walking off an edge re-enters on the
/// opposite edge of the same row or column.
pub open spec fn spec_next_head(
    head: (usize, usize),
    dir: Direction,
    width: int,
    height: int,
) -> (usize, usize)
    recommends
        1 <= width <= usize::MAX,
        1 <= height <= usize::MAX,
{
    match dir {
        Direction::Up => (
            head.0,
            if head.1 == 0 {
                (height - 1) as usize
            } else {
                (head.1 - 1) as usize
            },
        ),
        Direction::Down => (
            head.0,
            if head.1 == height - 1 {
                0 as usize
            } else {
                (head.1 + 1) as usize
            },
        ),
        Direction::Left => (
            if head.0 == 0 {
                (width - 1) as usize
            } else {
                (head.0 - 1) as usize
            },
            head.1,
        ),
        Direction::Right => (
            if head.0 == width - 1 {
                0 as usize
            } else {
                (head.0 + 1) as usize
            },
            head.1,
        ),
        _ => head,
    }
}

/// A candidate step is rejected when it hits a wall or the actor's own
/// pre-step body, the soon-to-vacate tail included.
pub open spec fn spec_step_blocked(
    board: Board,
    body: Seq<(usize, usize)>,
    dir: Direction,
) -> bool
    recommends
        body.len() >= 1,
{
    let nh = spec_next_head(body[0], dir, board.width as int, board.height as int);
    board.spec_is_wall(nh.0 as int, nh.1 as int) || body.contains(nh)
}

/// The body after one accepted step: the new head is pushed to the front;
/// a pending growth unit keeps the tail, otherwise the tail is popped.
pub open spec fn spec_step_body(
    body: Seq<(usize, usize)>,
    grow: nat,
    dir: Direction,
    width: int,
    height: int,
) -> Seq<(usize, usize)>
    recommends
        body.len() >= 1,
{
    let nh = spec_next_head(body[0], dir, width, height);
    if grow > 0 {
        seq![nh] + body
    } else {
        seq![nh] + body.drop_last()
    }
}

/// The outcome of up to `n` discrete steps: the final body, the remaining
/// growth debt, and whether every step was accepted.  A rejected step stops
/// stepping at once and keeps the steps already committed.
pub open spec fn spec_multi_step(
    board: Board,
    body: Seq<(usize, usize)>,
    grow: nat,
    dir: Direction,
    n: nat,
) -> (Seq<(usize, usize)>, nat, bool)
    recommends
        body.len() >= 1,
    decreases n,
{
    if n == 0 {
        (body, grow, true)
    } else if spec_step_blocked(board, body, dir) {
        (body, grow, false)
    } else {
        let body2 = spec_step_body(body, grow, dir, board.width as int, board.height as int);
        let grow2 = if grow > 0 {
            (grow - 1) as nat
        } else {
            0
        };
        spec_multi_step(board, body2, grow2, dir, (n - 1) as nat)
    }
}

/// Membership in a prefix one element longer: the old prefix, or the new
/// element.
pub proof fn lemma_take_succ_contains<T>(s: Seq<T>, i: int, p: T)
    requires
        0 <= i < s.len(),
    ensures
        s.take(i + 1).contains(p) <==> (s.take(i).contains(p) || p == s[i]),
{
    assert(s.take(i + 1) =~= s.take(i).push(s[i]));
    if s.take(i).contains(p) {
        let j = choose|j: int| 0 <= j < s.take(i).len() && s.take(i)[j] == p;
        assert(s.take(i + 1)[j] == p);
    }
    if p == s[i] {
        assert(s.take(i + 1)[i] == p);
    }
    if s.take(i + 1).contains(p) {
        let t = s.take(i + 1);
        let j = choose|j: int| 0 <= j < t.len() && t[j] == p;
        if j < i {
            assert(s.take(i)[j] == p);
        }
    }
}

/// Toroidal wraparound at each of the four edges: stepping right from the
/// last column lands in column 0 of the same row, and symmetrically for
/// the other three directions and the other axis.
pub proof fn lemma_wraparound(x: usize, y: usize, width: int, height: int)
    requires
        1 <= width <= usize::MAX,
        1 <= height <= usize::MAX,
        x < width,
        y < height,
    ensures
        spec_next_head(((width - 1) as usize, y), Direction::Right, width, height) == (0usize, y),
        spec_next_head((0usize, y), Direction::Left, width, height) == (
            (width - 1) as usize,
            y,
        ),
        spec_next_head((x, (height - 1) as usize), Direction::Down, width, height) == (x, 0usize),
        spec_next_head((x, 0usize), Direction::Up, width, height) == (
            x,
            (height - 1) as usize,
        ),
{
}

/// Moving into the actor's own second segment is rejected whether or not
/// growth is pending: the collision check runs against the whole pre-step
/// body, the soon-to-vacate tail included.
pub proof fn lemma_self_collision(
    board: Board,
    body: Seq<(usize, usize)>,
    grow: nat,
    dir: Direction,
    n: nat,
)
    requires
        body.len() >= 2,
        n >= 1,
        spec_next_head(body[0], dir, board.width as int, board.height as int) == body[1],
    ensures
        spec_multi_step(board, body, grow, dir, n) == (body, grow, false),
{
    assert(body.contains(body[1]));
    assert(spec_step_blocked(board, body, dir));
}

/// A prefix of an all-accepted run is itself all-accepted.
pub proof fn lemma_multi_step_prefix(
    board: Board,
    body: Seq<(usize, usize)>,
    grow: nat,
    dir: Direction,
    n: nat,
    i: nat,
)
    requires
        body.len() >= 1,
        i <= n,
        spec_multi_step(board, body, grow, dir, n).2 == true,
    ensures
        spec_multi_step(board, body, grow, dir, i).2 == true,
    decreases i,
{
    if i > 0 {
        assert(!spec_step_blocked(board, body, dir));
        let body2 = spec_step_body(body, grow, dir, board.width as int, board.height as int);
        let grow2 = if grow > 0 {
            (grow - 1) as nat
        } else {
            0
        };
        lemma_multi_step_prefix(board, body2, grow2, dir, (n - 1) as nat, (i - 1) as nat);
    }
}

/// Growth is monotonic and gradual: with a growth debt of at least `n`,
/// a run of `n` accepted steps lengthens the body by exactly `n`, one
/// segment per step, and pays off exactly `n` units of the debt.
pub proof fn lemma_gradual_growth(
    board: Board,
    body: Seq<(usize, usize)>,
    grow: nat,
    dir: Direction,
    n: nat,
)
    requires
        body.len() >= 1,
        grow >= n,
        spec_multi_step(board, body, grow, dir, n).2 == true,
    ensures
        spec_multi_step(board, body, grow, dir, n).0.len() == body.len() + n,
        spec_multi_step(board, body, grow, dir, n).1 == grow - n,
    decreases n,
{
    if n > 0 {
        assert(!spec_step_blocked(board, body, dir));
        let body2 = spec_step_body(body, grow, dir, board.width as int, board.height as int);
        assert(body2.len() == body.len() + 1);
        lemma_gradual_growth(board, body2, (grow - 1) as nat, dir, (n - 1) as nat);
    }
}

/// The actor: its occupied cells with the head at the front, its facing,
/// its pace and movement residue in thousandths of a cell, and how many
/// segments it still owes itself.
pub struct Snake {
    pub body: VecDeque<(usize, usize)>,
    pub direction: Direction,
    pub movement_accumulator: u32,
    pub speed: u32,
    pub grow_pending: usize,
}

impl Snake {
    /// The body is never empty and the residue is less than one cell.
    pub open spec fn wf(&self) -> bool {
        &&& self.body@.len() >= 1
        &&& self.movement_accumulator < CELL_MILLI
    }

    /// Every body cell lies on a `width x height` board.
    pub open spec fn in_bounds(&self, width: int, height: int) -> bool {
        forall|i: int|
            0 <= i < self.body@.len() ==> spec_pos_in_bounds(#[trigger] self.body@[i], width, height)
    }

    /// A one-segment actor at the spawn point, facing right, at the
    /// initial pace with no residue and no growth debt.
    pub fn new(x: usize, y: usize) -> (r: Snake)
        ensures
            r.wf(),
            r.body@ == seq![(x, y)],
            r.direction == Direction::Right,
            r.movement_accumulator == 0,
            r.speed == INITIAL_SPEED_MILLI,
            r.grow_pending == 0,
    {
        let mut body: VecDeque<(usize, usize)> = VecDeque::new();
        body.push_back((x, y));
        proof {
            assert(body@ =~= seq![(x, y)]);
        }
        Snake {
            body,
            direction: Direction::Right,
            movement_accumulator: 0,
            speed: INITIAL_SPEED_MILLI,
            grow_pending: 0,
        }
    }

    /// Quickens the pace by `increment` thousandths of a cell per second.
    pub fn increase_speed(&mut self, increment: u32)
        requires
            old(self).speed + increment <= u32::MAX,
        ensures
            final(self).speed == old(self).speed + increment,
            final(self).body == old(self).body,
            final(self).direction == old(self).direction,
            final(self).movement_accumulator == old(self).movement_accumulator,
            final(self).grow_pending == old(self).grow_pending,
    {
        self.speed = self.speed + increment;
    }

    /// The facing after a key: the requested direction, unless the key is
    /// no direction at all or the exact reverse of the current facing.
    pub open spec fn spec_new_direction(cur: Direction, key: Key) -> Direction {
        let nd = spec_direction_of_key(key);
        if nd == Direction::Invalid || (cur == Direction::Up && nd == Direction::Down) || (cur
            == Direction::Down && nd == Direction::Up) || (cur == Direction::Left && nd
            == Direction::Right) || (cur == Direction::Right && nd == Direction::Left) {
            cur
        } else {
            nd
        }
    }

    /// Accepts a direction change unless it would reverse the actor onto
    /// itself; unknown keys are ignored.
    pub fn change_direction(&mut self, key: Key)
        ensures
            final(self).direction == Snake::spec_new_direction(old(self).direction, key),
            final(self).body == old(self).body,
            final(self).speed == old(self).speed,
            final(self).movement_accumulator == old(self).movement_accumulator,
            final(self).grow_pending == old(self).grow_pending,
    {
        let new_direction = Direction::from(key);
        if new_direction == Direction::Invalid || (self.direction == Direction::Up
            && new_direction == Direction::Down) || (self.direction == Direction::Down
            && new_direction == Direction::Up) || (self.direction == Direction::Left
            && new_direction == Direction::Right) || (self.direction == Direction::Right
            && new_direction == Direction::Left) {
            return ;
        }
        self.direction = new_direction;
    }

    /// The candidate head cell one toroidal step ahead of `(head_x, head_y)`.
    fn new_head_position(&self, board: &Board, head_x: usize, head_y: usize) -> (r: (
        usize,
        usize,
    ))
        requires
            board.width >= 1,
            board.height >= 1,
            head_x < board.width,
            head_y < board.height,
        ensures
            r == spec_next_head(
                (head_x, head_y),
                self.direction,
                board.width as int,
                board.height as int,
            ),
            r.0 < board.width,
            r.1 < board.height,
    {
        match self.direction {
            Direction::Up => {
                if head_y == 0 {
                    (head_x, board.get_height() - 1)
                } else {
                    (head_x, head_y - 1)
                }
            },
            Direction::Down => {
                if head_y == board.get_height() - 1 {
                    (head_x, 0)
                } else {
                    (head_x, head_y + 1)
                }
            },
            Direction::Left => {
                if head_x == 0 {
                    (board.get_width() - 1, head_y)
                } else {
                    (head_x - 1, head_y)
                }
            },
            Direction::Right => {
                if head_x == board.get_width() - 1 {
                    (0, head_y)
                } else {
                    (head_x + 1, head_y)
                }
            },
            _ => (head_x, head_y),
        }
    }

    /// Adds `speed * delta` to the residue and executes the whole cells it
    /// now covers as discrete steps, stopping at the first rejected step.
    /// Returns `false` exactly when a step was rejected; the steps already
    /// committed remain.
    pub fn move_forward(&mut self, board: &Board, delta_milliseconds: u32) -> (r: bool)
        requires
            old(self).wf(),
            board.wf(),
            board.width >= 1,
            board.height >= 1,
            old(self).in_bounds(board.width as int, board.height as int),
        ensures
            final(self).wf(),
            final(self).in_bounds(board.width as int, board.height as int),
            final(self).direction == old(self).direction,
            final(self).speed == old(self).speed,
            ({
                let total = old(self).movement_accumulator + (old(self).speed
                    * delta_milliseconds) / (MILLIS_PER_SECOND as int);
                let outcome = spec_multi_step(
                    *board,
                    old(self).body@,
                    old(self).grow_pending as nat,
                    old(self).direction,
                    (total / (CELL_MILLI as int)) as nat,
                );
                &&& r == outcome.2
                &&& final(self).body@ == outcome.0
                &&& final(self).grow_pending == outcome.1
                &&& final(self).movement_accumulator == total % (CELL_MILLI as int)
            }),
    {
        let ghost w = board.width as int;
        let ghost h = board.height as int;
        let dir = self.direction;
        proof {
            let sp = self.speed as u64;
            let dm = delta_milliseconds as u64;
            assert(sp * dm <= u64::MAX) by (nonlinear_arith)
                requires
                    sp <= u32::MAX,
                    dm <= u32::MAX,
            ;
        }
        let gain: u64 = (self.speed as u64) * (delta_milliseconds as u64) / (
        MILLIS_PER_SECOND as u64);
        let total: u64 = (self.movement_accumulator as u64) + gain;
        let distance: u64 = total / (CELL_MILLI as u64);
        let ghost total_g = old(self).movement_accumulator + (old(self).speed
            * delta_milliseconds) / (MILLIS_PER_SECOND as int);
        proof {
            assert(total == total_g);
            assert(distance == total_g / (CELL_MILLI as int));
        }
        self.movement_accumulator = (total % (CELL_MILLI as u64)) as u32;
        let ghost goal = spec_multi_step(
            *board,
            self.body@,
            self.grow_pending as nat,
            dir,
            distance as nat,
        );
        let mut i: u64 = 0;
        while i < distance
            invariant
                i <= distance,
                board.wf(),
                board.width >= 1,
                board.height >= 1,
                w == board.width as int,
                h == board.height as int,
                self.body@.len() >= 1,
                self.in_bounds(w, h),
                self.direction == dir,
                dir == old(self).direction,
                self.speed == old(self).speed,
                self.movement_accumulator == total_g % (CELL_MILLI as int),
                distance == total_g / (CELL_MILLI as int),
                total_g == old(self).movement_accumulator + (old(self).speed
                    * delta_milliseconds) / (MILLIS_PER_SECOND as int),
                goal == spec_multi_step(
                    *board,
                    old(self).body@,
                    old(self).grow_pending as nat,
                    old(self).direction,
                    (total_g / (CELL_MILLI as int)) as nat,
                ),
                goal == spec_multi_step(
                    *board,
                    self.body@,
                    self.grow_pending as nat,
                    dir,
                    (distance - i) as nat,
                ),
            decreases distance - i,
        {
            let head = self.body[0];
            assert(spec_pos_in_bounds(self.body@[0], w, h));
            let new_head = self.new_head_position(board, head.0, head.1);
            let hit_wall = board.is_wall(new_head.0, new_head.1);
            let hit_self = self.is_snake_at(new_head.0, new_head.1);
            if hit_wall || hit_self {
                proof {
                    assert(spec_step_blocked(*board, self.body@, dir));
                    assert(goal == (self.body@, self.grow_pending as nat, false));
                }
                return false;
            }
            let ghost body0 = self.body@;
            let ghost grow0 = self.grow_pending as nat;
            self.body.push_front(new_head);
            if self.grow_pending > 0 {
                self.grow_pending = self.grow_pending - 1;
            } else {
                self.body.pop_back();
                proof {
                    assert(self.body@ =~= seq![new_head] + body0.drop_last());
                }
            }
            proof {
                assert(self.body@ == spec_step_body(body0, grow0, dir, w, h));
                assert(!spec_step_blocked(*board, body0, dir));
                assert(spec_multi_step(*board, body0, grow0, dir, (distance - i) as nat)
                    == spec_multi_step(
                    *board,
                    self.body@,
                    self.grow_pending as nat,
                    dir,
                    (distance - i - 1) as nat,
                ));
                assert forall|j: int| 0 <= j < self.body@.len() implies spec_pos_in_bounds(
                    #[trigger] self.body@[j],
                    w,
                    h,
                ) by {
                    if j > 0 {
                        assert(self.body@[j] == body0[j - 1]);
                        assert(spec_pos_in_bounds(body0[j - 1], w, h));
                    }
                }
            }
            i = i + 1;
        }
        true
    }

    /// Adds `num_blocks` segments to the growth debt, paid one per step.
    pub fn grow(&mut self, num_blocks: usize)
        requires
            old(self).grow_pending + num_blocks <= usize::MAX,
        ensures
            final(self).grow_pending == old(self).grow_pending + num_blocks,
            final(self).body == old(self).body,
            final(self).direction == old(self).direction,
            final(self).speed == old(self).speed,
            final(self).movement_accumulator == old(self).movement_accumulator,
    {
        self.grow_pending = self.grow_pending + num_blocks;
    }

    /// The cell the head occupies.
    pub fn get_head_pos(&self) -> (r: (usize, usize))
        requires
            self.body@.len() >= 1,
        ensures
            r == self.body@[0],
    {
        self.body[0]
    }

    /// Whether any body segment occupies `(x, y)`.
    pub fn is_snake_at(&self, x: usize, y: usize) -> (r: bool)
        ensures
            r == self.body@.contains((x, y)),
    {
        let n = self.body.len();
        let mut i: usize = 0;
        while i < n
            invariant
                i <= n,
                n == self.body@.len(),
                forall|j: int| 0 <= j < i ==> #[trigger] self.body@[j] != (x, y),
            decreases n - i,
        {
            let p = self.body[i];
            if p.0 == x && p.1 == y {
                proof {
                    assert(self.body@[i as int] == (x, y));
                }
                return true;
            }
            i = i + 1;
        }
        proof {
            if self.body@.contains((x, y)) {
                let j = choose|j: int| 0 <= j < self.body@.len() && self.body@[j] == (x, y);
                assert(self.body@[j] != (x, y));
            }
        }
        false
    }

    /// Paints every body cell onto the board as `Snake`; the rest of the
    /// board is left as it was.
    pub fn render_to_board(&self, board: &mut Board)
        requires
            old(board).wf(),
        ensures
            final(board).wf(),
            final(board).width == old(board).width,
            final(board).height == old(board).height,
            final(board).cell_width == old(board).cell_width,
            final(board).cell_height == old(board).cell_height,
            final(board).level_data == old(board).level_data,
            final(board).cells@.len() == old(board).cells@.len(),
            forall|x: usize, y: usize|
                x < final(board).width && y < final(board).height
                    ==> final(board).cells@[spec_idx(
                    final(board).width as int,
                    x as int,
                    y as int,
                )] == (if self.body@.contains((x, y)) {
                    GameObject::Snake
                } else {
                    old(board).cells@[spec_idx(final(board).width as int, x as int, y as int)]
                }),
    {
        paint_positions(board, &self.body, GameObject::Snake);
    }
}

/// Paints `kind` onto the board at every position in `positions`; every
/// other cell keeps its previous state.
pub(crate) fn paint_positions(
    board: &mut Board,
    positions: &VecDeque<(usize, usize)>,
    kind: GameObject,
)
    requires
        old(board).wf(),
    ensures
        final(board).wf(),
        final(board).width == old(board).width,
        final(board).height == old(board).height,
        final(board).cell_width == old(board).cell_width,
        final(board).cell_height == old(board).cell_height,
        final(board).level_data == old(board).level_data,
        final(board).cells@.len() == old(board).cells@.len(),
        forall|x: usize, y: usize|
            x < final(board).width && y < final(board).height
                ==> final(board).cells@[spec_idx(final(board).width as int, x as int, y as int)]
                == (if positions@.contains((x, y)) {
                kind
            } else {
                old(board).cells@[spec_idx(final(board).width as int, x as int, y as int)]
            }),
{
    let ghost w = old(board).width as int;
    let ghost h = old(board).height as int;
    let n = positions.len();
    let mut i: usize = 0;
    while i < n
        invariant
            i <= n,
            n == positions@.len(),
            board.wf(),
            board.width == old(board).width,
            board.height == old(board).height,
            board.cell_width == old(board).cell_width,
            board.cell_height == old(board).cell_height,
            board.level_data == old(board).level_data,
            board.cells@.len() == old(board).cells@.len(),
            w == board.width as int,
            h == board.height as int,
            forall|x: usize, y: usize|
                x < board.width && y < board.height ==> board.cells@[spec_idx(
                    w,
                    x as int,
                    y as int,
                )] == (if positions@.take(i as int).contains((x, y)) {
                    kind
                } else {
                    old(board).cells@[spec_idx(w, x as int, y as int)]
                }),
        decreases n - i,
    {
        let p = positions[i];
        let ghost cells0 = board.cells@;
        board.set_cell(p.0, p.1, kind);
        proof {
            assert forall|x: usize, y: usize| x < board.width && y < board.height
                implies board.cells@[spec_idx(w, x as int, y as int)] == (if positions@.take(
                i + 1,
            ).contains((x, y)) {
                kind
            } else {
                old(board).cells@[spec_idx(w, x as int, y as int)]
            }) by {
                let xi = x as int;
                let yi = y as int;
                lemma_take_succ_contains(positions@, i as int, (x, y));
                crate::board::lemma_idx_bounds(w, h, xi, yi);
                assert(cells0[spec_idx(w, xi, yi)] == (if positions@.take(i as int).contains(
                    (x, y),
                ) {
                    kind
                } else {
                    old(board).cells@[spec_idx(w, xi, yi)]
                }));
                if spec_pos_in_bounds(p, w, h) {
                    crate::board::lemma_idx_bounds(w, h, p.0 as int, p.1 as int);
                    assert(board.cells@ == cells0.update(
                        spec_idx(w, p.0 as int, p.1 as int),
                        kind,
                    ));
                    if (x, y) == p {
                        assert(board.cells@[spec_idx(w, xi, yi)] == kind);
                    } else {
                        if spec_idx(w, xi, yi) == spec_idx(w, p.0 as int, p.1 as int) {
                            lemma_idx_injective(w, h, xi, yi, p.0 as int, p.1 as int);
                        }
                        assert(board.cells@[spec_idx(w, xi, yi)] == cells0[spec_idx(w, xi, yi)]);
                    }
                } else {
                    assert(board.cells@ == cells0);
                    assert((x, y) != p);
                }
            }
        }
        i = i + 1;
    }
    proof {
        assert(positions@.take(n as int) =~= positions@);
    }
}

} // verus!
