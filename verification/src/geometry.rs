//! Bounding boxes of walls and squares, hit testing, and the center
//! distance the resolver ranks hits by.
//!
//! Coordinates are integers: the origin sits at the top-left corner of the
//! grid, `x` grows to the right and `y` grows downward. Square `(r, c)`
//! covers `[c * cell, (c + 1) * cell] x [r * cell, (r + 1) * cell]`. A wall
//! is a box of thickness `wall_thickness` centered on its grid-line edge
//! segment, running the full cell length of that segment.

use vstd::prelude::*;

use crate::grid::Grid;
use crate::grid::Orientation;
use crate::grid::SquareId;
use crate::grid::WallId;
use crate::grid::lemma_next_multiple;

verus! {

/// A closed axis-aligned box; both edges belong to the box.
#[derive(Clone, Copy, PartialEq, Eq, Structural, Debug)]
pub struct Rect {
    pub x_min: i64,
    pub y_min: i64,
    pub x_max: i64,
    pub y_max: i64,
}

/// A 2D input point, in the same coordinate space as the boxes.
#[derive(Clone, Copy, PartialEq, Eq, Structural, Debug)]
pub struct Point {
    pub x: i64,
    pub y: i64,
}

impl Grid {
    /// Left edge of a wall's box.
    pub open spec fn wall_x_min(self, w: WallId) -> int {
        match w.orientation {
            Orientation::Horizontal => w.pos * self.cell_size,
            Orientation::Vertical => w.line * self.cell_size - self.wall_thickness / 2,
        }
    }

    /// Right edge of a wall's box.
    pub open spec fn wall_x_max(self, w: WallId) -> int {
        match w.orientation {
            Orientation::Horizontal => (w.pos + 1) * self.cell_size,
            Orientation::Vertical => w.line * self.cell_size + (self.wall_thickness
                - self.wall_thickness / 2),
        }
    }

    /// Top edge of a wall's box.
    pub open spec fn wall_y_min(self, w: WallId) -> int {
        match w.orientation {
            Orientation::Horizontal => w.line * self.cell_size - self.wall_thickness / 2,
            Orientation::Vertical => w.pos * self.cell_size,
        }
    }

    /// Bottom edge of a wall's box.
    pub open spec fn wall_y_max(self, w: WallId) -> int {
        match w.orientation {
            Orientation::Horizontal => w.line * self.cell_size + (self.wall_thickness
                - self.wall_thickness / 2),
            Orientation::Vertical => (w.pos + 1) * self.cell_size,
        }
    }

    /// A point hits a wall when it lies within the wall's box, edges
    /// included.
    pub open spec fn wall_hit(self, w: WallId, p: Point) -> bool {
        &&& self.wall_x_min(w) <= p.x <= self.wall_x_max(w)
        &&& self.wall_y_min(w) <= p.y <= self.wall_y_max(w)
    }

    /// Squared Euclidean distance between a point and a wall box's center,
    /// scaled by four so that it stays an integer: with center
    /// `((x_min + x_max) / 2, (y_min + y_max) / 2)`, this is
    /// `(2 * distance)^2`.
    pub open spec fn wall_center_dist2(self, w: WallId, p: Point) -> int {
        let dx = self.wall_x_min(w) + self.wall_x_max(w) - 2 * p.x;
        let dy = self.wall_y_min(w) + self.wall_y_max(w) - 2 * p.y;
        dx * dx + dy * dy
    }

    /// The bounding box of a wall.
    pub fn wall_rect(&self, w: WallId) -> (r: Rect)
        requires
            self.wf(),
            self.wall_valid(w),
        ensures
            r.x_min == self.wall_x_min(w),
            r.x_max == self.wall_x_max(w),
            r.y_min == self.wall_y_min(w),
            r.y_max == self.wall_y_max(w),
    {
        proof {
            lemma_wall_coords_bounded(*self, w);
            lemma_next_multiple(w.pos as int, self.cell_size as int);
        }
        let cell = self.cell_size as i64;
        let half = (self.wall_thickness / 2) as i64;
        let rest = (self.wall_thickness - self.wall_thickness / 2) as i64;
        match w.orientation {
            Orientation::Horizontal => {
                let along = (w.pos as i64) * cell;
                let across = (w.line as i64) * cell;
                Rect { x_min: along, y_min: across - half, x_max: along + cell, y_max: across
                    + rest }
            },
            Orientation::Vertical => {
                let along = (w.pos as i64) * cell;
                let across = (w.line as i64) * cell;
                Rect { x_min: across - half, y_min: along, x_max: across + rest, y_max: along
                    + cell }
            },
        }
    }

    /// Left edge of a square's box.
    pub open spec fn square_x_min(self, s: SquareId) -> int {
        s.col * self.cell_size
    }

    /// Right edge of a square's box.
    pub open spec fn square_x_max(self, s: SquareId) -> int {
        (s.col + 1) * self.cell_size
    }

    /// Top edge of a square's box.
    pub open spec fn square_y_min(self, s: SquareId) -> int {
        s.row * self.cell_size
    }

    /// Bottom edge of a square's box.
    pub open spec fn square_y_max(self, s: SquareId) -> int {
        (s.row + 1) * self.cell_size
    }

    /// The bounding box of a square.
    pub fn square_rect(&self, s: SquareId) -> (r: Rect)
        requires
            self.wf(),
            self.square_valid(s),
        ensures
            r.x_min == self.square_x_min(s),
            r.x_max == self.square_x_max(s),
            r.y_min == self.square_y_min(s),
            r.y_max == self.square_y_max(s),
    {
        proof {
            lemma_line_coord_bounded(s.col as int, self.cell_size as int);
            lemma_line_coord_bounded(s.row as int, self.cell_size as int);
            lemma_next_multiple(s.col as int, self.cell_size as int);
            lemma_next_multiple(s.row as int, self.cell_size as int);
        }
        let cell = self.cell_size as i64;
        let x = (s.col as i64) * cell;
        let y = (s.row as i64) * cell;
        Rect { x_min: x, y_min: y, x_max: x + cell, y_max: y + cell }
    }

    /// Whether a point hits a wall's box.
    pub fn wall_hit_exec(&self, w: WallId, p: Point) -> (b: bool)
        requires
            self.wf(),
            self.wall_valid(w),
        ensures
            b == self.wall_hit(w, p),
    {
        let r = self.wall_rect(w);
        r.x_min <= p.x && p.x <= r.x_max && r.y_min <= p.y && p.y <= r.y_max
    }

    /// The scaled squared distance from a point to a wall box's center,
    /// for a point inside that box.
    pub fn wall_center_dist2_exec(&self, w: WallId, p: Point) -> (d: i64)
        requires
            self.wf(),
            self.wall_valid(w),
            self.wall_hit(w, p),
        ensures
            d == self.wall_center_dist2(w, p),
    {
        proof {
            lemma_wall_coords_bounded(*self, w);
        }
        let r = self.wall_rect(w);
        let dx = (r.x_min - p.x) + (r.x_max - p.x);
        let dy = (r.y_min - p.y) + (r.y_max - p.y);
        proof {
            assert(dx * dx + dy * dy <= 2_000_000_000_000 && dx * dx >= 0 && dy * dy >= 0)
                by (nonlinear_arith)
                requires
                    -1_000_000 <= dx <= 1_000_000,
                    -1_000_000 <= dy <= 1_000_000,
            ;
        }
        dx * dx + dy * dy
    }
}

/// A grid-line coordinate stays within a fixed range under the caps.
pub proof fn lemma_line_coord_bounded(a: int, c: int)
    requires
        0 <= a <= 1001,
        1 <= c <= 1_000_000,
    ensures
        0 <= a * c <= 1_001_000_000,
{
    assert(0 <= a * c <= 1001 * 1_000_000) by (nonlinear_arith)
        requires
            0 <= a <= 1001,
            1 <= c <= 1_000_000,
    ;
}

/// A valid wall's box lies in a fixed coordinate range, has its edges
/// ordered, and is at most one cell long and one thickness wide.
pub proof fn lemma_wall_coords_bounded(g: Grid, w: WallId)
    requires
        g.wf(),
        g.wall_valid(w),
    ensures
        -500_000 <= g.wall_x_min(w) <= g.wall_x_max(w) <= 1_002_000_000,
        -500_000 <= g.wall_y_min(w) <= g.wall_y_max(w) <= 1_002_000_000,
        g.wall_x_max(w) - g.wall_x_min(w) <= 1_000_000,
        g.wall_y_max(w) - g.wall_y_min(w) <= 1_000_000,
{
    let c = g.cell_size as int;
    let t = g.wall_thickness as int;
    assert(0 <= t / 2 <= t - t / 2 <= t);
    match w.orientation {
        Orientation::Horizontal => {
            lemma_line_coord_bounded(w.pos as int, c);
            lemma_line_coord_bounded(w.pos + 1, c);
            lemma_line_coord_bounded(w.line as int, c);
            lemma_next_multiple(w.pos as int, c);
        },
        Orientation::Vertical => {
            lemma_line_coord_bounded(w.pos as int, c);
            lemma_line_coord_bounded(w.pos + 1, c);
            lemma_line_coord_bounded(w.line as int, c);
            lemma_next_multiple(w.pos as int, c);
        },
    }
}

} // verus!
