//! The toroidal game board: a dynamic cell layer, a static obstacle mask
//! loaded from level source text, and the projection into an RGBA buffer.

use vstd::prelude::*;
use crate::{Color, GameObject, LevelError, spec_color_of};

verus! {

/// The wall marker byte in level source text (`#`).
pub const WALL_MARKER: u8 = 35;

/// True of the bytes a level source treats as line terminators (`\n`, `\r`).
pub open spec fn is_terminator(b: u8) -> bool {
    b == 10 || b == 13
}

/// The level source with its line-terminator bytes removed, order kept.
pub open spec fn spec_stripped(s: Seq<u8>) -> Seq<u8> {
    s.filter(|b: u8| !is_terminator(b))
}

/// The sole coordinate-to-offset contract: row-major, `x + y * width`.
pub open spec fn spec_idx(width: int, x: int, y: int) -> int {
    x + y * width
}

/// A row-major offset stays inside a `width * height` array.
pub proof fn lemma_idx_bounds(width: int, height: int, x: int, y: int)
    requires
        0 <= x < width,
        0 <= y < height,
    ensures
        0 <= spec_idx(width, x, y) < width * height,
{
    assert(0 <= x + y * width < width * height) by (nonlinear_arith)
        requires
            0 <= x < width,
            0 <= y < height,
    ;
}

/// Distinct in-range coordinates have distinct row-major offsets.
pub proof fn lemma_idx_injective(width: int, height: int, x1: int, y1: int, x2: int, y2: int)
    requires
        0 <= x1 < width,
        0 <= y1 < height,
        0 <= x2 < width,
        0 <= y2 < height,
        spec_idx(width, x1, y1) == spec_idx(width, x2, y2),
    ensures
        x1 == x2 && y1 == y2,
{
    assert(x1 == x2 && y1 == y2) by (nonlinear_arith)
        requires
            0 <= x1 < width,
            0 <= y1 < height,
            0 <= x2 < width,
            0 <= y2 < height,
            x1 + y1 * width == x2 + y2 * width,
    ;
}

/// The cell layer after writing `kind` at `(x, y)`: updated when the
/// coordinates are in range, untouched otherwise.
pub open spec fn spec_cells_after_set(
    cells: Seq<GameObject>,
    width: int,
    height: int,
    x: int,
    y: int,
    kind: GameObject,
) -> Seq<GameObject> {
    if 0 <= x < width && 0 <= y < height {
        cells.update(spec_idx(width, x, y), kind)
    } else {
        cells
    }
}

/// The cell read at `(x, y)`: its kind when in range, the explicit "no
/// cell" result otherwise.
pub open spec fn spec_cell_at(
    cells: Seq<GameObject>,
    width: int,
    height: int,
    x: int,
    y: int,
) -> Option<GameObject> {
    if 0 <= x < width && 0 <= y < height {
        Some(cells[spec_idx(width, x, y)])
    } else {
        None
    }
}

/// Writing a cell and reading it back returns what was written; out of
/// range the write is a no-op and the read reports no cell.
pub proof fn lemma_set_then_get(
    cells: Seq<GameObject>,
    width: int,
    height: int,
    x: int,
    y: int,
    kind: GameObject,
)
    requires
        cells.len() == width * height,
    ensures
        spec_cell_at(spec_cells_after_set(cells, width, height, x, y, kind), width, height, x, y)
            == (if 0 <= x < width && 0 <= y < height {
                Some(kind)
            } else {
                None::<GameObject>
            }),
{
    if 0 <= x < width && 0 <= y < height {
        lemma_idx_bounds(width, height, x, y);
    }
}

/// A write leaves every other in-range cell as it was.
pub proof fn lemma_set_preserves_others(
    cells: Seq<GameObject>,
    width: int,
    height: int,
    x: int,
    y: int,
    kind: GameObject,
    ox: int,
    oy: int,
)
    requires
        cells.len() == width * height,
        0 <= ox < width,
        0 <= oy < height,
        !(ox == x && oy == y),
    ensures
        spec_cell_at(spec_cells_after_set(cells, width, height, x, y, kind), width, height, ox, oy)
            == spec_cell_at(cells, width, height, ox, oy),
{
    lemma_idx_bounds(width, height, ox, oy);
    if 0 <= x < width && 0 <= y < height {
        lemma_idx_bounds(width, height, x, y);
        if spec_idx(width, x, y) == spec_idx(width, ox, oy) {
            lemma_idx_injective(width, height, x, y, ox, oy);
        }
    }
}

/// The byte channel `c` of a colour, in RGBA order.
pub open spec fn spec_channel(col: Color, c: int) -> u8 {
    if c == 0 {
        col.r
    } else if c == 1 {
        col.g
    } else if c == 2 {
        col.b
    } else {
        col.a
    }
}

/// A `Vec` holding `n` copies of `value`.
pub(crate) fn filled<T: Copy>(n: usize, value: T) -> (r: Vec<T>)
    ensures
        r@ == Seq::new(n as nat, |i: int| value),
{
    let mut r: Vec<T> = Vec::new();
    let mut i: usize = 0;
    while i < n
        invariant
            i <= n,
            r@ =~= Seq::new(i as nat, |j: int| value),
        decreases n - i,
    {
        r.push(value);
        i = i + 1;
    }
    assert(r@ =~= Seq::new(n as nat, |i: int| value));
    r
}

/// Writing the four bytes of one pixel leaves every other finished pixel
/// finished.
proof fn lemma_pixel_write_preserves(
    b: &Board,
    buf0: Seq<u8>,
    buf1: Seq<u8>,
    wx: int,
    wy: int,
    bx: int,
    by: int,
)
    requires
        buf0.len() == b.spec_buffer_len(),
        buf1.len() == buf0.len(),
        0 <= wx < b.spec_pixel_cols(),
        0 <= wy < b.spec_pixel_rows(),
        0 <= bx < b.spec_pixel_cols(),
        0 <= by < b.spec_pixel_rows(),
        !(bx == wx && by == wy),
        forall|i: int|
            0 <= i < buf0.len() && !((wy * b.spec_pixel_cols() + wx) * 4 <= i < (wy
                * b.spec_pixel_cols() + wx) * 4 + 4) ==> buf1[i] == buf0[i],
        b.spec_pixel_done(buf0, bx, by),
    ensures
        b.spec_pixel_done(buf1, bx, by),
{
    let pc = b.spec_pixel_cols();
    let pr = b.spec_pixel_rows();
    let base = by * pc + bx;
    let wbase = wy * pc + wx;
    lemma_idx_bounds(pc, pr, bx, by);
    lemma_idx_bounds(pc, pr, wx, wy);
    if base == wbase {
        lemma_idx_injective(pc, pr, bx, by, wx, wy);
    }
    assert forall|c: int| 0 <= c < 4 implies buf1[base * 4 + c] == spec_channel(
        b.spec_pixel_color(bx, by),
        c,
    ) by {
        assert(buf0[base * 4 + c] == spec_channel(b.spec_pixel_color(bx, by), c));
        assert(0 <= base * 4 + c < buf0.len());
        assert(!(wbase * 4 <= base * 4 + c < wbase * 4 + 4));
    }
}

/// The board: logical dimensions, raster scale, the dynamic cell layer
/// repainted every tick, and the static level (obstacle) layer.
pub struct Board {
    pub width: usize,
    pub height: usize,
    pub cell_width: usize,
    pub cell_height: usize,
    pub cells: Vec<GameObject>,
    pub level_data: Vec<u8>,
}

impl Board {
    /// Both layers cover the board exactly.
    pub open spec fn wf(&self) -> bool {
        &&& self.width * self.height <= usize::MAX
        &&& self.cells@.len() == self.width * self.height
        &&& self.level_data@.len() == self.width * self.height
    }

    /// True where the level layer marks a wall.
    pub open spec fn spec_is_wall(&self, x: int, y: int) -> bool {
        self.level_data@[spec_idx(self.width as int, x, y)] == WALL_MARKER
    }

    /// The pixel column count of the raster projection.
    pub open spec fn spec_pixel_cols(&self) -> int {
        self.width * self.cell_width
    }

    /// The pixel row count of the raster projection.
    pub open spec fn spec_pixel_rows(&self) -> int {
        self.height * self.cell_height
    }

    /// The byte length the projection buffer must have.
    pub open spec fn spec_buffer_len(&self) -> int {
        self.spec_pixel_cols() * self.spec_pixel_rows() * 4
    }

    /// The colour buffer pixel `(bx, by)` shows: that of the cell it lies in.
    pub open spec fn spec_pixel_color(&self, bx: int, by: int) -> Color {
        spec_color_of(
            self.cells@[spec_idx(
                self.width as int,
                bx / self.cell_width as int,
                by / self.cell_height as int,
            )],
        )
    }

    /// An all-empty board with an all-clear obstacle mask.
    pub fn new(width: usize, height: usize, cell_width: usize, cell_height: usize) -> (r: Board)
        requires
            width * height <= usize::MAX,
        ensures
            r.wf(),
            r.width == width,
            r.height == height,
            r.cell_width == cell_width,
            r.cell_height == cell_height,
            forall|i: int| 0 <= i < width * height ==> r.cells@[i] == GameObject::Empty,
            forall|x: int, y: int|
                0 <= x < width && 0 <= y < height ==> !r.spec_is_wall(x, y),
    {
        let size = width * height;
        let cells = filled(size, GameObject::Empty);
        let level_data = filled(size, 32u8);
        let r = Board { width, height, cell_width, cell_height, cells, level_data };
        proof {
            assert forall|x: int, y: int|
                0 <= x < width && 0 <= y < height implies !r.spec_is_wall(x, y) by {
                lemma_idx_bounds(width as int, height as int, x, y);
            }
        }
        r
    }

    /// Replaces the obstacle layer from level source text.  Succeeds
    /// exactly when the stripped source covers the board; on a size
    /// mismatch the board is left untouched.
    pub fn set_level_data(&mut self, data: &[u8]) -> (r: Result<(), LevelError>)
        requires
            old(self).wf(),
        ensures
            final(self).wf(),
            r is Ok <==> spec_stripped(data@).len() == old(self).width * old(self).height,
            r is Ok ==> final(self).level_data@ == spec_stripped(data@),
            r is Err ==> final(self).level_data == old(self).level_data,
            r is Err ==> (r matches Err(LevelError::SizeMismatch { expected, got })
                && expected == old(self).width * old(self).height
                && got == spec_stripped(data@).len()),
            final(self).width == old(self).width,
            final(self).height == old(self).height,
            final(self).cell_width == old(self).cell_width,
            final(self).cell_height == old(self).cell_height,
            final(self).cells == old(self).cells,
    {
        let clean_data = strip_terminators(data);
        if clean_data.len() != self.width * self.height {
            Err(LevelError::SizeMismatch {
                expected: self.width * self.height,
                got: clean_data.len(),
            })
        } else {
            self.level_data = clean_data;
            Ok(())
        }
    }

    /// Writes `value` at `(x, y)`; out of range it is a silent no-op.
    pub fn set_cell(&mut self, x: usize, y: usize, value: GameObject)
        requires
            old(self).wf(),
        ensures
            final(self).wf(),
            final(self).cells@ == spec_cells_after_set(
                old(self).cells@,
                old(self).width as int,
                old(self).height as int,
                x as int,
                y as int,
                value,
            ),
            final(self).width == old(self).width,
            final(self).height == old(self).height,
            final(self).cell_width == old(self).cell_width,
            final(self).cell_height == old(self).cell_height,
            final(self).level_data == old(self).level_data,
    {
        if x < self.width && y < self.height {
            proof {
                lemma_idx_bounds(self.width as int, self.height as int, x as int, y as int);
            }
            let idx = x + y * self.width;
            self.cells[idx] = value;
        }
    }

    /// Reads the cell at `(x, y)`; out of range it reports no cell.
    pub fn get_cell(&self, x: usize, y: usize) -> (r: Option<GameObject>)
        requires
            self.wf(),
        ensures
            r == spec_cell_at(
                self.cells@,
                self.width as int,
                self.height as int,
                x as int,
                y as int,
            ),
    {
        if x < self.width && y < self.height {
            proof {
                lemma_idx_bounds(self.width as int, self.height as int, x as int, y as int);
            }
            let idx = x + y * self.width;
            Some(self.cells[idx])
        } else {
            None
        }
    }

    /// The logical column count.
    pub fn get_width(&self) -> (r: usize)
        ensures
            r == self.width,
    {
        self.width
    }

    /// The logical row count.
    pub fn get_height(&self) -> (r: usize)
        ensures
            r == self.height,
    {
        self.height
    }

    /// Resets every cell to `Empty`; the obstacle layer is untouched.
    pub fn clear(&mut self)
        requires
            old(self).wf(),
        ensures
            final(self).wf(),
            final(self).cells@.len() == old(self).cells@.len(),
            forall|i: int| 0 <= i < final(self).cells@.len()
                ==> final(self).cells@[i] == GameObject::Empty,
            final(self).width == old(self).width,
            final(self).height == old(self).height,
            final(self).cell_width == old(self).cell_width,
            final(self).cell_height == old(self).cell_height,
            final(self).level_data == old(self).level_data,
    {
        let n = self.cells.len();
        self.cells = filled(n, GameObject::Empty);
    }

    /// Repaints every cell from the obstacle layer: `Wall` where the level
    /// marks a wall, `Empty` elsewhere.
    pub fn draw_level(&mut self)
        requires
            old(self).wf(),
        ensures
            final(self).wf(),
            final(self).cells@.len() == old(self).cells@.len(),
            forall|i: int| 0 <= i < final(self).cells@.len()
                ==> final(self).cells@[i] == (if old(self).level_data@[i] == WALL_MARKER {
                    GameObject::Wall
                } else {
                    GameObject::Empty
                }),
            final(self).width == old(self).width,
            final(self).height == old(self).height,
            final(self).cell_width == old(self).cell_width,
            final(self).cell_height == old(self).cell_height,
            final(self).level_data == old(self).level_data,
    {
        let n = self.cells.len();
        let mut idx: usize = 0;
        while idx < n
            invariant
                idx <= n,
                n == self.cells@.len(),
                self.cells@.len() == old(self).cells@.len(),
                self.level_data == old(self).level_data,
                self.width == old(self).width,
                self.height == old(self).height,
                self.cell_width == old(self).cell_width,
                self.cell_height == old(self).cell_height,
                old(self).wf(),
                self.wf(),
                forall|i: int| 0 <= i < idx
                    ==> self.cells@[i] == (if old(self).level_data@[i] == WALL_MARKER {
                        GameObject::Wall
                    } else {
                        GameObject::Empty
                    }),
            decreases n - idx,
        {
            let game_object = if self.level_data[idx] == WALL_MARKER {
                GameObject::Wall
            } else {
                GameObject::Empty
            };
            self.cells[idx] = game_object;
            idx = idx + 1;
        }
    }

    /// All four bytes of buffer pixel `(bx, by)` hold its colour.
    pub open spec fn spec_pixel_done(&self, buf: Seq<u8>, bx: int, by: int) -> bool {
        forall|c: int|
            0 <= c < 4 ==> buf[(by * self.spec_pixel_cols() + bx) * 4 + c] == spec_channel(
                self.spec_pixel_color(bx, by),
                c,
            )
    }

    /// Expands every cell to a `cell_width x cell_height` block of RGBA
    /// bytes, row-major over the whole projection.
    pub fn render_to_buffer(&self, buffer: &mut Vec<u8>)
        requires
            self.wf(),
            old(buffer)@.len() == self.spec_buffer_len(),
        ensures
            final(buffer)@.len() == old(buffer)@.len(),
            forall|bx: int, by: int|
                0 <= bx < self.spec_pixel_cols() && 0 <= by < self.spec_pixel_rows()
                    ==> self.spec_pixel_done(final(buffer)@, bx, by),
    {
        let ghost pc = self.spec_pixel_cols();
        let ghost pr = self.spec_pixel_rows();
        let buffer_bytes = buffer.len();
        let ghost blen = buffer_bytes as int;
        let mut y: usize = 0;
        while y < self.height
            invariant
                self.wf(),
                y <= self.height,
                buffer@.len() == blen,
                blen <= usize::MAX,
                blen == self.spec_buffer_len(),
                pc == self.spec_pixel_cols(),
                pr == self.spec_pixel_rows(),
                forall|bx: int, by: int|
                    0 <= bx < pc && 0 <= by < y * self.cell_height
                        ==> self.spec_pixel_done(buffer@, bx, by),
            decreases self.height - y,
        {
            proof {
                assert((y as int) * self.cell_height + self.cell_height <= pr) by (nonlinear_arith)
                    requires
                        0 <= y < self.height,
                        0 <= self.cell_height,
                        pr == self.height * self.cell_height,
                ;
            }
            let mut x: usize = 0;
            while x < self.width
                invariant
                    self.wf(),
                    y < self.height,
                    x <= self.width,
                    y * self.cell_height + self.cell_height <= pr,
                    buffer@.len() == blen,
                    blen <= usize::MAX,
                    blen == self.spec_buffer_len(),
                    pc == self.spec_pixel_cols(),
                    pr == self.spec_pixel_rows(),
                    forall|bx: int, by: int|
                        0 <= bx < pc && 0 <= by < y * self.cell_height
                            ==> self.spec_pixel_done(buffer@, bx, by),
                    forall|bx: int, by: int|
                        0 <= bx < x * self.cell_width && y * self.cell_height <= by < (y
                            * self.cell_height) + self.cell_height
                            ==> self.spec_pixel_done(buffer@, bx, by),
                decreases self.width - x,
            {
                proof {
                    lemma_idx_bounds(self.width as int, self.height as int, x as int, y as int);
                }
                let cell_idx = x + y * self.width;
                let color = Color::from(self.cells[cell_idx]);
                proof {
                    assert((x as int) * self.cell_width + self.cell_width <= pc) by (nonlinear_arith)
                        requires
                            0 <= x < self.width,
                            0 <= self.cell_width,
                            pc == self.width * self.cell_width,
                    ;
                }
                let mut cy: usize = 0;
                while cy < self.cell_height
                    invariant
                        self.wf(),
                        y < self.height,
                        x < self.width,
                        cy <= self.cell_height,
                        y * self.cell_height + self.cell_height <= pr,
                        x * self.cell_width + self.cell_width <= pc,
                        buffer@.len() == blen,
                        blen <= usize::MAX,
                        blen == self.spec_buffer_len(),
                        pc == self.spec_pixel_cols(),
                        pr == self.spec_pixel_rows(),
                        color == spec_color_of(
                            self.cells@[spec_idx(self.width as int, x as int, y as int)],
                        ),
                        forall|bx: int, by: int|
                            0 <= bx < pc && 0 <= by < y * self.cell_height
                                ==> self.spec_pixel_done(buffer@, bx, by),
                        forall|bx: int, by: int|
                            0 <= bx < x * self.cell_width && y * self.cell_height <= by < (y
                                * self.cell_height) + self.cell_height
                                ==> self.spec_pixel_done(buffer@, bx, by),
                        forall|bx: int, by: int|
                            x * self.cell_width <= bx < (x * self.cell_width) + self.cell_width
                                && y * self.cell_height <= by < (y * self.cell_height) + cy
                                ==> self.spec_pixel_done(buffer@, bx, by),
                    decreases self.cell_height - cy,
                {
                    let mut cx: usize = 0;
                    while cx < self.cell_width
                        invariant
                            self.wf(),
                            y < self.height,
                            x < self.width,
                            cy < self.cell_height,
                            cx <= self.cell_width,
                            y * self.cell_height + self.cell_height <= pr,
                            x * self.cell_width + self.cell_width <= pc,
                            buffer@.len() == blen,
                            blen <= usize::MAX,
                            blen == self.spec_buffer_len(),
                            pc == self.spec_pixel_cols(),
                            pr == self.spec_pixel_rows(),
                            color == spec_color_of(
                                self.cells@[spec_idx(self.width as int, x as int, y as int)],
                            ),
                            forall|bx: int, by: int|
                                0 <= bx < pc && 0 <= by < y * self.cell_height
                                    ==> self.spec_pixel_done(buffer@, bx, by),
                            forall|bx: int, by: int|
                                0 <= bx < x * self.cell_width && y * self.cell_height <= by < (y
                                    * self.cell_height) + self.cell_height
                                    ==> self.spec_pixel_done(buffer@, bx, by),
                            forall|bx: int, by: int|
                                x * self.cell_width <= bx < (x * self.cell_width)
                                    + self.cell_width && y * self.cell_height <= by < (y
                                    * self.cell_height) + cy
                                    ==> self.spec_pixel_done(buffer@, bx, by),
                            forall|bx: int|
                                x * self.cell_width <= bx < (x * self.cell_width) + cx
                                    ==> #[trigger] self.spec_pixel_done(
                                    buffer@,
                                    bx,
                                    (y * self.cell_height) + cy,
                                ),
                        decreases self.cell_width - cx,
                    {
                        proof {
                            lemma_idx_bounds(
                                self.cell_width as int,
                                self.width as int,
                                cx as int,
                                x as int,
                            );
                            lemma_idx_bounds(
                                self.cell_height as int,
                                self.height as int,
                                cy as int,
                                y as int,
                            );
                            assert(1 <= pc && 1 <= pr && self.cell_width * self.width == pc
                                && self.cell_height * self.height == pr && pc <= pc * pr && pr <= pc
                                * pr) by (nonlinear_arith)
                                requires
                                    pc == self.width * self.cell_width,
                                    pr == self.height * self.cell_height,
                                    1 <= self.width,
                                    1 <= self.cell_width,
                                    1 <= self.height,
                                    1 <= self.cell_height,
                            ;
                        }
                        let buffer_x = x * self.cell_width + cx;
                        let buffer_y = y * self.cell_height + cy;
                        proof {
                            lemma_idx_bounds(pc, pr, buffer_x as int, buffer_y as int);
                        }
                        let index = (buffer_y * (self.width * self.cell_width) + buffer_x) * 4;
                        let ghost buf0 = buffer@;
                        buffer[index] = color.r;
                        buffer[index + 1] = color.g;
                        buffer[index + 2] = color.b;
                        buffer[index + 3] = color.a;
                        proof {
                            vstd::arithmetic::div_mod::lemma_fundamental_div_mod_converse(
                                buffer_x as int,
                                self.cell_width as int,
                                x as int,
                                cx as int,
                            );
                            vstd::arithmetic::div_mod::lemma_fundamental_div_mod_converse(
                                buffer_y as int,
                                self.cell_height as int,
                                y as int,
                                cy as int,
                            );
                            let wx = buffer_x as int;
                            let wy = buffer_y as int;
                            assert(self.spec_pixel_color(wx, wy) == spec_color_of(
                                self.cells@[spec_idx(self.width as int, x as int, y as int)],
                            ));
                            assert(index as int == (wy * pc + wx) * 4);
                            assert(self.spec_pixel_done(buffer@, wx, wy));
                            assert(forall|i: int|
                                0 <= i < buf0.len() && !((wy * pc + wx) * 4 <= i < (wy * pc + wx)
                                    * 4 + 4) ==> buffer@[i] == buf0[i]);
                            assert forall|bx: int, by: int|
                                0 <= bx < pc && 0 <= by < y * self.cell_height
                                implies self.spec_pixel_done(buffer@, bx, by) by {
                                assert(self.spec_pixel_done(buf0, bx, by));
                                lemma_pixel_write_preserves(self, buf0, buffer@, wx, wy, bx, by);
                            }
                            assert forall|bx: int, by: int|
                                0 <= bx < x * self.cell_width && y * self.cell_height <= by < (y
                                    * self.cell_height) + self.cell_height
                                implies self.spec_pixel_done(buffer@, bx, by) by {
                                assert(self.spec_pixel_done(buf0, bx, by));
                                lemma_pixel_write_preserves(self, buf0, buffer@, wx, wy, bx, by);
                            }
                            assert forall|bx: int, by: int|
                                x * self.cell_width <= bx < (x * self.cell_width)
                                    + self.cell_width && y * self.cell_height <= by < (y
                                    * self.cell_height) + cy
                                implies self.spec_pixel_done(buffer@, bx, by) by {
                                assert(self.spec_pixel_done(buf0, bx, by));
                                lemma_pixel_write_preserves(self, buf0, buffer@, wx, wy, bx, by);
                            }
                            assert forall|bx: int|
                                x * self.cell_width <= bx < (x * self.cell_width) + cx
                                implies #[trigger] self.spec_pixel_done(
                                buffer@,
                                bx,
                                (y * self.cell_height) + cy,
                            ) by {
                                assert(self.spec_pixel_done(buf0, bx, (y * self.cell_height) + cy));
                                lemma_pixel_write_preserves(
                                    self,
                                    buf0,
                                    buffer@,
                                    wx,
                                    wy,
                                    bx,
                                    (y * self.cell_height) + cy,
                                );
                            }
                        }
                        cx = cx + 1;
                    }
                    cy = cy + 1;
                }
                proof {
                    assert((x as int + 1) * self.cell_width == x * self.cell_width
                        + self.cell_width) by (nonlinear_arith);
                }
                x = x + 1;
            }
            proof {
                assert((y as int + 1) * self.cell_height == y * self.cell_height
                    + self.cell_height) by (nonlinear_arith);
            }
            y = y + 1;
        }
        proof {
            assert(self.height * self.cell_height == pr);
            assert forall|bx: int, by: int| 0 <= bx < pc && 0 <= by < pr
                implies self.spec_pixel_done(buffer@, bx, by) by {
            }
        }
    }

    /// Obstacle query for coordinates the caller has already put in range.
    pub fn is_wall(&self, x: usize, y: usize) -> (r: bool)
        requires
            self.wf(),
            x < self.width,
            y < self.height,
        ensures
            r == self.spec_is_wall(x as int, y as int),
    {
        proof {
            lemma_idx_bounds(self.width as int, self.height as int, x as int, y as int);
        }
        let idx = x + y * self.width;
        self.level_data[idx] == WALL_MARKER
    }
}

/// The level source with its line-terminator bytes removed, order kept.
pub(crate) fn strip_terminators(data: &[u8]) -> (r: Vec<u8>)
    ensures
        r@ == spec_stripped(data@),
{
    let n = data.len();
    let mut clean: Vec<u8> = Vec::new();
    let mut i: usize = 0;
    proof {
        assert(data@.take(0) =~= Seq::<u8>::empty());
        reveal(Seq::filter);
    }
    while i < n
        invariant
            i <= n,
            n == data@.len(),
            clean@ == spec_stripped(data@.take(i as int)),
        decreases n - i,
    {
        let b = data[i];
        proof {
            reveal(Seq::filter);
            assert(data@.take(i + 1).drop_last() =~= data@.take(i as int));
            assert(data@.take(i + 1).last() == data@[i as int]);
        }
        if b != 10 && b != 13 {
            clean.push(b);
        }
        i = i + 1;
    }
    proof {
        assert(data@.take(n as int) =~= data@);
    }
    clean
}

} // verus!
