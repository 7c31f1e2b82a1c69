//! Grid configuration and the topology of walls and squares.
//!
//! A grid of `rows` x `cols` cells has `rows * cols` squares. Walls are
//! shared between adjacent cells, so they carry a canonical identity of
//! their own: an orientation, the index of the grid line they lie on, and
//! their position along that line. A horizontal wall lies on one of the
//! `rows + 1` horizontal lines at one of `cols` positions; a vertical wall
//! lies on one of the `cols + 1` vertical lines at one of `rows` positions.
//! The total wall count is therefore `(rows + 1) * cols + rows * (cols + 1)`.

use vstd::prelude::*;

use crate::player::GameError;

verus! {

/// Largest accepted row count, so that coordinates and indices fit the
/// machine integers the engine computes with.
pub const MAX_ROWS: usize = 1000;

/// Largest accepted column count.
pub const MAX_COLS: usize = 1000;

/// Largest accepted cell size.
pub const MAX_CELL_SIZE: u32 = 1_000_000;

/// Largest accepted wall thickness.
pub const MAX_WALL_THICKNESS: u32 = 1_000_000;

/// The direction a wall runs in.
#[derive(Clone, Copy, PartialEq, Eq, Structural, Debug)]
pub enum Orientation {
    Horizontal,
    Vertical,
}

/// Canonical identity of a wall: its orientation, the grid line it lies
/// on, and its position along that line. Two cells sharing an edge refer
/// to the same `WallId`.
#[derive(Clone, Copy, PartialEq, Eq, Structural, Debug)]
pub struct WallId {
    pub orientation: Orientation,
    /// For a horizontal wall, the horizontal line index in `0 ..= rows`;
    /// for a vertical wall, the vertical line index in `0 ..= cols`.
    pub line: usize,
    /// For a horizontal wall, the column in `0 .. cols`; for a vertical
    /// wall, the row in `0 .. rows`.
    pub pos: usize,
}

/// Identity of a square (a cell) by its row and column.
#[derive(Clone, Copy, PartialEq, Eq, Structural, Debug)]
pub struct SquareId {
    pub row: usize,
    pub col: usize,
}

/// Immutable configuration of a game: grid dimensions and the geometry
/// parameters, fixed for a game's lifetime.
#[derive(Clone, Copy, PartialEq, Eq, Structural, Debug)]
pub struct Grid {
    pub rows: usize,
    pub cols: usize,
    pub cell_size: u32,
    pub wall_thickness: u32,
}

impl Grid {
    /// A configuration is well formed when every dimension is positive and
    /// within the fixed caps.
    pub open spec fn wf(self) -> bool {
        &&& 1 <= self.rows <= MAX_ROWS
        &&& 1 <= self.cols <= MAX_COLS
        &&& 1 <= self.cell_size <= MAX_CELL_SIZE
        &&& 1 <= self.wall_thickness <= MAX_WALL_THICKNESS
    }

    /// Validate a configuration. Every well-formed configuration is
    /// accepted; everything else fails with `ConfigurationError`.
    pub fn new(rows: usize, cols: usize, cell_size: u32, wall_thickness: u32) -> (r: Result<
        Grid,
        GameError,
    >)
        ensures
            (Grid { rows, cols, cell_size, wall_thickness }).wf() ==> r == Ok::<Grid, GameError>(
                Grid { rows, cols, cell_size, wall_thickness },
            ),
            !(Grid { rows, cols, cell_size, wall_thickness }).wf() ==> r == Err::<Grid, GameError>(
                GameError::ConfigurationError,
            ),
    {
        if 1 <= rows && rows <= MAX_ROWS && 1 <= cols && cols <= MAX_COLS && 1 <= cell_size
            && cell_size <= MAX_CELL_SIZE && 1 <= wall_thickness && wall_thickness
            <= MAX_WALL_THICKNESS {
            Ok(Grid { rows, cols, cell_size, wall_thickness })
        } else {
            Err(GameError::ConfigurationError)
        }
    }

    /// How many squares the grid has.
    pub open spec fn square_count(self) -> int {
        self.rows * self.cols
    }

    /// How many walls the grid has: `(rows + 1)` horizontal lines of
    /// `cols` walls each, and `(cols + 1)` vertical lines of `rows` walls
    /// each.
    pub open spec fn wall_count(self) -> int {
        (self.rows + 1) * self.cols + self.rows * (self.cols + 1)
    }

    /// How many squares the grid has.
    pub fn square_count_exec(&self) -> (n: usize)
        requires
            self.wf(),
        ensures
            n == self.square_count(),
    {
        proof {
            assert(self.rows * self.cols <= 1000 * 1000) by (nonlinear_arith)
                requires
                    self.rows <= 1000,
                    self.cols <= 1000,
            ;
        }
        self.rows * self.cols
    }

    /// How many walls the grid has.
    pub fn wall_count_exec(&self) -> (n: usize)
        requires
            self.wf(),
        ensures
            n == self.wall_count(),
    {
        proof {
            assert((self.rows + 1) * self.cols <= 1001 * 1000 && self.rows * (self.cols + 1) <= 1000
                * 1001) by (nonlinear_arith)
                requires
                    self.rows <= 1000,
                    self.cols <= 1000,
            ;
        }
        (self.rows + 1) * self.cols + self.rows * (self.cols + 1)
    }

    /// Whether a wall identity names a wall of this grid.
    pub open spec fn wall_valid(self, w: WallId) -> bool {
        match w.orientation {
            Orientation::Horizontal => w.line <= self.rows && w.pos < self.cols,
            Orientation::Vertical => w.line <= self.cols && w.pos < self.rows,
        }
    }

    /// Whether a square identity names a square of this grid.
    pub open spec fn square_valid(self, s: SquareId) -> bool {
        s.row < self.rows && s.col < self.cols
    }

    /// Position of a wall in the canonical enumeration: all horizontal
    /// walls first, ordered by line then position, then all vertical walls
    /// in the same order.
    pub open spec fn wall_index(self, w: WallId) -> int {
        match w.orientation {
            Orientation::Horizontal => w.line * self.cols + w.pos,
            Orientation::Vertical => (self.rows + 1) * self.cols + w.line * self.rows + w.pos,
        }
    }

    /// Position of a square in row-major enumeration.
    pub open spec fn square_index(self, s: SquareId) -> int {
        s.row * self.cols + s.col
    }

    /// Position of a wall in the canonical enumeration.
    pub fn wall_index_exec(&self, w: WallId) -> (i: usize)
        requires
            self.wf(),
            self.wall_valid(w),
        ensures
            i == self.wall_index(w),
            0 <= i < self.wall_count(),
    {
        proof {
            lemma_wall_index_bounds(*self, w);
            lemma_counts_bounded(*self);
        }
        match w.orientation {
            Orientation::Horizontal => w.line * self.cols + w.pos,
            Orientation::Vertical => (self.rows + 1) * self.cols + w.line * self.rows + w.pos,
        }
    }

    /// Position of a square in row-major enumeration.
    pub fn square_index_exec(&self, s: SquareId) -> (i: usize)
        requires
            self.wf(),
            self.square_valid(s),
        ensures
            i == self.square_index(s),
            0 <= i < self.square_count(),
    {
        proof {
            lemma_square_index_bounds(*self, s);
            lemma_counts_bounded(*self);
        }
        s.row * self.cols + s.col
    }

    /// The wall on the left edge of a square.
    pub open spec fn left_wall(self, s: SquareId) -> WallId {
        WallId { orientation: Orientation::Vertical, line: s.col, pos: s.row }
    }

    /// The wall on the top edge of a square.
    pub open spec fn top_wall(self, s: SquareId) -> WallId {
        WallId { orientation: Orientation::Horizontal, line: s.row, pos: s.col }
    }

    /// The wall on the right edge of a square.
    pub open spec fn right_wall(self, s: SquareId) -> WallId {
        WallId { orientation: Orientation::Vertical, line: (s.col + 1) as usize, pos: s.row }
    }

    /// The wall on the bottom edge of a square.
    pub open spec fn bottom_wall(self, s: SquareId) -> WallId {
        WallId { orientation: Orientation::Horizontal, line: (s.row + 1) as usize, pos: s.col }
    }

    /// Whether `w` is one of the four walls bordering square `s`.
    pub open spec fn square_has_wall(self, s: SquareId, w: WallId) -> bool {
        w == self.left_wall(s) || w == self.top_wall(s) || w == self.right_wall(s) || w
            == self.bottom_wall(s)
    }

    /// The wall on the left edge of a square.
    pub fn left_wall_exec(&self, s: SquareId) -> (w: WallId)
        requires
            self.wf(),
            self.square_valid(s),
        ensures
            w == self.left_wall(s),
    {
        WallId { orientation: Orientation::Vertical, line: s.col, pos: s.row }
    }

    /// The wall on the top edge of a square.
    pub fn top_wall_exec(&self, s: SquareId) -> (w: WallId)
        requires
            self.wf(),
            self.square_valid(s),
        ensures
            w == self.top_wall(s),
    {
        WallId { orientation: Orientation::Horizontal, line: s.row, pos: s.col }
    }

    /// The wall on the right edge of a square.
    pub fn right_wall_exec(&self, s: SquareId) -> (w: WallId)
        requires
            self.wf(),
            self.square_valid(s),
        ensures
            w == self.right_wall(s),
    {
        WallId { orientation: Orientation::Vertical, line: s.col + 1, pos: s.row }
    }

    /// The wall on the bottom edge of a square.
    pub fn bottom_wall_exec(&self, s: SquareId) -> (w: WallId)
        requires
            self.wf(),
            self.square_valid(s),
        ensures
            w == self.bottom_wall(s),
    {
        WallId { orientation: Orientation::Horizontal, line: s.row + 1, pos: s.col }
    }

    /// Whether square `s` borders wall `w`: a horizontal wall touches the
    /// square above its line and the square below it; a vertical wall
    /// touches the square left of its line and the square right of it.
    pub open spec fn wall_adjacent(self, w: WallId, s: SquareId) -> bool {
        match w.orientation {
            Orientation::Horizontal => s.col == w.pos && (s.row + 1 == w.line || s.row == w.line),
            Orientation::Vertical => s.row == w.pos && (s.col + 1 == w.line || s.col == w.line),
        }
    }

    /// The square on the earlier side of a wall (above a horizontal wall,
    /// left of a vertical one), where the wall is not on that boundary of
    /// the grid.
    pub open spec fn square_before(self, w: WallId) -> Option<SquareId> {
        match w.orientation {
            Orientation::Horizontal => if w.line > 0 {
                Some(SquareId { row: (w.line - 1) as usize, col: w.pos })
            } else {
                None
            },
            Orientation::Vertical => if w.line > 0 {
                Some(SquareId { row: w.pos, col: (w.line - 1) as usize })
            } else {
                None
            },
        }
    }

    /// The square on the later side of a wall (below a horizontal wall,
    /// right of a vertical one), where the wall is not on that boundary of
    /// the grid.
    pub open spec fn square_after(self, w: WallId) -> Option<SquareId> {
        match w.orientation {
            Orientation::Horizontal => if w.line < self.rows {
                Some(SquareId { row: w.line, col: w.pos })
            } else {
                None
            },
            Orientation::Vertical => if w.line < self.cols {
                Some(SquareId { row: w.pos, col: w.line })
            } else {
                None
            },
        }
    }

    /// Every wall of the grid, in canonical order: the wall at position
    /// `i` of the result has canonical index `i`. The length is the wall
    /// count `(rows + 1) * cols + rows * (cols + 1)`.
    pub fn wall_ids(&self) -> (r: Vec<WallId>)
        requires
            self.wf(),
        ensures
            r@.len() == self.wall_count(),
            forall|i: int|
                0 <= i < r@.len() ==> self.wall_valid(#[trigger] r@[i]) && self.wall_index(r@[i])
                    == i,
    {
        proof {
            lemma_counts_bounded(*self);
        }
        let mut r: Vec<WallId> = Vec::new();
        let mut line: usize = 0;
        while line <= self.rows
            invariant
                self.wf(),
                line <= self.rows + 1,
                r@.len() == line * self.cols,
                r@.len() <= (self.rows + 1) * self.cols,
                forall|i: int|
                    0 <= i < r@.len() ==> self.wall_valid(#[trigger] r@[i]) && self.wall_index(
                        r@[i],
                    ) == i,
            decreases self.rows + 1 - line,
        {
            let mut pos: usize = 0;
            while pos < self.cols
                invariant
                    self.wf(),
                    line <= self.rows,
                    pos <= self.cols,
                    r@.len() == line * self.cols + pos,
                    forall|i: int|
                        0 <= i < r@.len() ==> self.wall_valid(#[trigger] r@[i]) && self.wall_index(
                            r@[i],
                        ) == i,
                decreases self.cols - pos,
            {
                proof {
                    lemma_next_multiple(line as int, self.cols as int);
                    lemma_counts_bounded(*self);
                    assert(line * self.cols + pos < (line + 1) * self.cols <= (self.rows + 1)
                        * self.cols) by (nonlinear_arith)
                        requires
                            pos < self.cols,
                            line <= self.rows,
                            self.cols >= 1,
                    ;
                }
                r.push(WallId { orientation: Orientation::Horizontal, line, pos });
                pos += 1;
            }
            proof {
                lemma_next_multiple(line as int, self.cols as int);
                assert((line + 1) * self.cols <= (self.rows + 1) * self.cols) by (nonlinear_arith)
                    requires
                        line + 1 <= self.rows + 1,
                        self.cols >= 1,
                ;
            }
            line += 1;
        }
        let mut vline: usize = 0;
        while vline <= self.cols
            invariant
                self.wf(),
                vline <= self.cols + 1,
                r@.len() == (self.rows + 1) * self.cols + vline * self.rows,
                r@.len() <= self.wall_count(),
                forall|i: int|
                    0 <= i < r@.len() ==> self.wall_valid(#[trigger] r@[i]) && self.wall_index(
                        r@[i],
                    ) == i,
            decreases self.cols + 1 - vline,
        {
            let mut pos: usize = 0;
            while pos < self.rows
                invariant
                    self.wf(),
                    vline <= self.cols,
                    pos <= self.rows,
                    r@.len() == (self.rows + 1) * self.cols + vline * self.rows + pos,
                    forall|i: int|
                        0 <= i < r@.len() ==> self.wall_valid(#[trigger] r@[i]) && self.wall_index(
                            r@[i],
                        ) == i,
                decreases self.rows - pos,
            {
                proof {
                    lemma_counts_bounded(*self);
                    assert(vline * self.rows + pos < (vline + 1) * self.rows <= (self.cols + 1)
                        * self.rows && (self.cols + 1) * self.rows == self.rows * (self.cols + 1))
                        by (nonlinear_arith)
                        requires
                            pos < self.rows,
                            vline <= self.cols,
                            self.rows >= 1,
                    ;
                }
                r.push(WallId { orientation: Orientation::Vertical, line: vline, pos });
                pos += 1;
            }
            proof {
                lemma_next_multiple(vline as int, self.rows as int);
                assert((vline + 1) * self.rows <= (self.cols + 1) * self.rows && (self.cols + 1)
                    * self.rows == self.rows * (self.cols + 1)) by (nonlinear_arith)
                    requires
                        vline + 1 <= self.cols + 1,
                        self.rows >= 1,
                ;
            }
            vline += 1;
        }
        proof {
            assert((self.cols + 1) * self.rows == self.rows * (self.cols + 1)) by (nonlinear_arith);
        }
        r
    }

    /// Every square of the grid, in row-major order: the square at
    /// position `i` of the result has index `i`. The length is
    /// `rows * cols`.
    pub fn square_ids(&self) -> (r: Vec<SquareId>)
        requires
            self.wf(),
        ensures
            r@.len() == self.square_count(),
            forall|i: int|
                0 <= i < r@.len() ==> self.square_valid(#[trigger] r@[i]) && self.square_index(
                    r@[i],
                ) == i,
    {
        proof {
            lemma_counts_bounded(*self);
        }
        let mut r: Vec<SquareId> = Vec::new();
        let mut row: usize = 0;
        while row < self.rows
            invariant
                self.wf(),
                row <= self.rows,
                r@.len() == row * self.cols,
                r@.len() <= self.square_count(),
                forall|i: int|
                    0 <= i < r@.len() ==> self.square_valid(#[trigger] r@[i]) && self.square_index(
                        r@[i],
                    ) == i,
            decreases self.rows - row,
        {
            let mut col: usize = 0;
            while col < self.cols
                invariant
                    self.wf(),
                    row < self.rows,
                    col <= self.cols,
                    r@.len() == row * self.cols + col,
                    forall|i: int|
                        0 <= i < r@.len() ==> self.square_valid(#[trigger] r@[i])
                            && self.square_index(r@[i]) == i,
                decreases self.cols - col,
            {
                proof {
                    lemma_square_index_bounds(*self, SquareId { row, col });
                    lemma_counts_bounded(*self);
                }
                r.push(SquareId { row, col });
                col += 1;
            }
            proof {
                lemma_next_multiple(row as int, self.cols as int);
                assert((row + 1) * self.cols <= self.rows * self.cols) by (nonlinear_arith)
                    requires
                        row + 1 <= self.rows,
                        self.cols >= 1,
                ;
            }
            row += 1;
        }
        r
    }

    /// The square on the earlier side of a wall.
    pub fn square_before_exec(&self, w: WallId) -> (r: Option<SquareId>)
        requires
            self.wf(),
            self.wall_valid(w),
        ensures
            r == self.square_before(w),
    {
        match w.orientation {
            Orientation::Horizontal => if w.line > 0 {
                Some(SquareId { row: w.line - 1, col: w.pos })
            } else {
                None
            },
            Orientation::Vertical => if w.line > 0 {
                Some(SquareId { row: w.pos, col: w.line - 1 })
            } else {
                None
            },
        }
    }

    /// The square on the later side of a wall.
    pub fn square_after_exec(&self, w: WallId) -> (r: Option<SquareId>)
        requires
            self.wf(),
            self.wall_valid(w),
        ensures
            r == self.square_after(w),
    {
        match w.orientation {
            Orientation::Horizontal => if w.line < self.rows {
                Some(SquareId { row: w.line, col: w.pos })
            } else {
                None
            },
            Orientation::Vertical => if w.line < self.cols {
                Some(SquareId { row: w.pos, col: w.line })
            } else {
                None
            },
        }
    }
}

/// One more multiple of `c` adds `c`.
pub proof fn lemma_next_multiple(a: int, c: int)
    ensures
        (a + 1) * c == a * c + c,
{
    assert((a + 1) * c == a * c + c) by (nonlinear_arith);
}

/// The wall and square counts stay well within `usize` under the caps.
pub proof fn lemma_counts_bounded(g: Grid)
    requires
        g.wf(),
    ensures
        g.wall_count() <= 2_002_000,
        g.square_count() <= 1_000_000,
        1 <= g.square_count(),
{
    assert((g.rows + 1) * g.cols <= 1001 * 1000 && g.rows * (g.cols + 1) <= 1000 * 1001 && g.rows
        * g.cols <= 1000 * 1000 && 1 <= g.rows * g.cols) by (nonlinear_arith)
        requires
            1 <= g.rows <= 1000,
            1 <= g.cols <= 1000,
    ;
}

/// A valid wall's canonical index lies below the wall count.
pub proof fn lemma_wall_index_bounds(g: Grid, w: WallId)
    requires
        g.wf(),
        g.wall_valid(w),
    ensures
        0 <= g.wall_index(w) < g.wall_count(),
{
    match w.orientation {
        Orientation::Horizontal => {
            assert(w.line * g.cols + w.pos < (g.rows + 1) * g.cols) by (nonlinear_arith)
                requires
                    w.line <= g.rows,
                    w.pos < g.cols,
            ;
            assert(0 <= g.rows * (g.cols + 1)) by (nonlinear_arith)
                requires
                    g.rows >= 1,
                    g.cols >= 1,
            ;
        },
        Orientation::Vertical => {
            assert(w.line * g.rows + w.pos < (g.cols + 1) * g.rows) by (nonlinear_arith)
                requires
                    w.line <= g.cols,
                    w.pos < g.rows,
            ;
            assert((g.cols + 1) * g.rows == g.rows * (g.cols + 1)) by (nonlinear_arith);
            assert(0 <= (g.rows + 1) * g.cols) by (nonlinear_arith)
                requires
                    g.rows >= 1,
                    g.cols >= 1,
            ;
        },
    }
}

/// A valid square's row-major index lies below the square count.
pub proof fn lemma_square_index_bounds(g: Grid, s: SquareId)
    requires
        g.wf(),
        g.square_valid(s),
    ensures
        0 <= g.square_index(s) < g.square_count(),
{
    assert(s.row * g.cols + s.col < g.rows * g.cols) by (nonlinear_arith)
        requires
            s.row < g.rows,
            s.col < g.cols,
    ;
}

/// Distinct valid walls have distinct canonical indices.
pub proof fn lemma_wall_index_injective(g: Grid, w1: WallId, w2: WallId)
    requires
        g.wf(),
        g.wall_valid(w1),
        g.wall_valid(w2),
        g.wall_index(w1) == g.wall_index(w2),
    ensures
        w1 == w2,
{
    lemma_wall_index_bounds(g, w1);
    lemma_wall_index_bounds(g, w2);
    match (w1.orientation, w2.orientation) {
        (Orientation::Horizontal, Orientation::Horizontal) => {
            assert(w1.line == w2.line && w1.pos == w2.pos) by (nonlinear_arith)
                requires
                    w1.pos < g.cols,
                    w2.pos < g.cols,
                    w1.line * g.cols + w1.pos == w2.line * g.cols + w2.pos,
            ;
        },
        (Orientation::Vertical, Orientation::Vertical) => {
            assert(w1.line == w2.line && w1.pos == w2.pos) by (nonlinear_arith)
                requires
                    w1.pos < g.rows,
                    w2.pos < g.rows,
                    w1.line * g.rows + w1.pos == w2.line * g.rows + w2.pos,
            ;
        },
        (Orientation::Horizontal, Orientation::Vertical) => {
            assert(w1.line * g.cols + w1.pos < (g.rows + 1) * g.cols) by (nonlinear_arith)
                requires
                    w1.line <= g.rows,
                    w1.pos < g.cols,
            ;
        },
        (Orientation::Vertical, Orientation::Horizontal) => {
            assert(w2.line * g.cols + w2.pos < (g.rows + 1) * g.cols) by (nonlinear_arith)
                requires
                    w2.line <= g.rows,
                    w2.pos < g.cols,
            ;
        },
    }
}

/// Distinct valid squares have distinct row-major indices.
pub proof fn lemma_square_index_injective(g: Grid, s1: SquareId, s2: SquareId)
    requires
        g.wf(),
        g.square_valid(s1),
        g.square_valid(s2),
        g.square_index(s1) == g.square_index(s2),
    ensures
        s1 == s2,
{
    assert(s1.row == s2.row && s1.col == s2.col) by (nonlinear_arith)
        requires
            s1.col < g.cols,
            s2.col < g.cols,
            s1.row * g.cols + s1.col == s2.row * g.cols + s2.col,
    ;
}

/// Each of a valid square's four walls is a valid wall of the grid.
pub proof fn lemma_square_walls_valid(g: Grid, s: SquareId)
    requires
        g.wf(),
        g.square_valid(s),
    ensures
        g.wall_valid(g.left_wall(s)),
        g.wall_valid(g.top_wall(s)),
        g.wall_valid(g.right_wall(s)),
        g.wall_valid(g.bottom_wall(s)),
{
}

/// A wall borders a square exactly when it is one of that square's four
/// walls: the shared-wall model, where one wall entity serves both of the
/// cells on its two sides.
pub proof fn lemma_adjacency(g: Grid, s: SquareId, w: WallId)
    requires
        g.wf(),
        g.square_valid(s),
        g.wall_valid(w),
    ensures
        g.square_has_wall(s, w) <==> g.wall_adjacent(w, s),
{
}

/// The squares on the two sides of a valid wall are valid squares, and
/// where both exist they are distinct.
pub proof fn lemma_neighbors_valid(g: Grid, w: WallId)
    requires
        g.wf(),
        g.wall_valid(w),
    ensures
        g.square_before(w) matches Some(s) ==> g.square_valid(s),
        g.square_after(w) matches Some(s) ==> g.square_valid(s),
        g.square_before(w) is Some && g.square_after(w) is Some ==> g.square_before(w)
            != g.square_after(w),
{
}

/// A square borders a wall exactly when it is the square on one of the
/// wall's two sides.
pub proof fn lemma_adjacent_is_neighbor(g: Grid, w: WallId, s: SquareId)
    requires
        g.wf(),
        g.wall_valid(w),
        g.square_valid(s),
    ensures
        g.wall_adjacent(w, s) <==> (g.square_before(w) == Some(s) || g.square_after(w) == Some(s)),
{
}

} // verus!
