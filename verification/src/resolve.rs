//! Mapping an input point to the wall it targets.
//!
//! A point hits a wall when it lies within the wall's bounding box, edges
//! included. Boxes of nearby walls overlap near cell corners, so ties are
//! broken deterministically: among all hit walls the one whose box center
//! is nearest the point wins (squared Euclidean distance on centers), and
//! among equidistant ones the wall with the lexicographically smallest
//! canonical identity (orientation, then line, then position).

use vstd::prelude::*;

use crate::geometry::Point;
use crate::grid::Grid;
use crate::grid::Orientation;
use crate::grid::WallId;

verus! {

/// Rank of an orientation in the canonical order: horizontal before
/// vertical.
pub open spec fn orient_rank(o: Orientation) -> int {
    match o {
        Orientation::Horizontal => 0,
        Orientation::Vertical => 1,
    }
}

/// Whether `u` comes strictly before `w` in the canonical order on wall
/// identities: orientation, then line, then position.
pub open spec fn lex_before(u: WallId, w: WallId) -> bool {
    ||| orient_rank(u.orientation) < orient_rank(w.orientation)
    ||| (orient_rank(u.orientation) == orient_rank(w.orientation) && (u.line < w.line || (u.line
        == w.line && u.pos < w.pos)))
}

/// Whether the resolver prefers wall `w` over wall `u` for point `p`:
/// strictly nearer box center, or equally near and canonically smaller.
pub open spec fn preferred(g: Grid, p: Point, w: WallId, u: WallId) -> bool {
    ||| g.wall_center_dist2(w, p) < g.wall_center_dist2(u, p)
    ||| (g.wall_center_dist2(w, p) == g.wall_center_dist2(u, p) && lex_before(w, u))
}

/// Whether wall `u` comes before the scan position `(orank, line, pos)`
/// in the canonical order.
pub open spec fn scanned_before(orank: int, line: int, pos: int, u: WallId) -> bool {
    ||| orient_rank(u.orientation) < orank
    ||| (orient_rank(u.orientation) == orank && ((u.line as int) < line || (u.line == line && (
    u.pos as int) < pos)))
}

/// The running result of the scan: with no best wall, nothing scanned so
/// far hits; with a best wall, it is a scanned hit at the recorded
/// distance that is preferred over every other scanned hit.
pub open spec fn best_so_far(
    g: Grid,
    p: Point,
    orank: int,
    line: int,
    pos: int,
    best: Option<WallId>,
    best_d: i64,
) -> bool {
    match best {
        None => forall|u: WallId|
            g.wall_valid(u) && scanned_before(orank, line, pos, u) ==> !(#[trigger] g.wall_hit(
                u,
                p,
            )),
        Some(w) => {
            &&& g.wall_valid(w)
            &&& g.wall_hit(w, p)
            &&& scanned_before(orank, line, pos, w)
            &&& best_d == g.wall_center_dist2(w, p)
            &&& forall|u: WallId|
                g.wall_valid(u) && #[trigger] g.wall_hit(u, p) && scanned_before(
                    orank,
                    line,
                    pos,
                    u,
                ) && u != w ==> preferred(g, p, w, u)
        },
    }
}

/// The only wall between scan position `(o, l, q)` and the next position
/// `(o, l, q + 1)` is the wall at `(o, l, q)` itself.
proof fn lemma_scan_extend(o: int, l: int, q: int, u: WallId, w: WallId)
    requires
        scanned_before(o, l, q + 1, u),
        !scanned_before(o, l, q, u),
        orient_rank(w.orientation) == o,
        w.line == l,
        w.pos == q,
    ensures
        u == w,
{
    assert(orient_rank(u.orientation) == orient_rank(w.orientation));
    assert(u.orientation == w.orientation) by {
        match u.orientation {
            Orientation::Horizontal => {},
            Orientation::Vertical => {},
        }
    }
}

/// Carry the running result across a change of scan position that keeps
/// the set of scanned walls the same.
proof fn lemma_best_shift(
    g: Grid,
    p: Point,
    o1: int,
    l1: int,
    p1: int,
    o2: int,
    l2: int,
    p2: int,
    best: Option<WallId>,
    best_d: i64,
)
    requires
        best_so_far(g, p, o1, l1, p1, best, best_d),
        forall|u: WallId|
            g.wall_valid(u) ==> (scanned_before(o1, l1, p1, u) <==> #[trigger] scanned_before(
                o2,
                l2,
                p2,
                u,
            )),
    ensures
        best_so_far(g, p, o2, l2, p2, best, best_d),
{
    match best {
        None => {
            assert forall|u: WallId|
                g.wall_valid(u) && scanned_before(o2, l2, p2, u) implies !(#[trigger] g.wall_hit(
                u,
                p,
            )) by {
                assert(scanned_before(o1, l1, p1, u));
            }
        },
        Some(w) => {
            assert(scanned_before(o2, l2, p2, w));
            assert forall|u: WallId|
                g.wall_valid(u) && #[trigger] g.wall_hit(u, p) && scanned_before(o2, l2, p2, u)
                    && u != w implies preferred(g, p, w, u) by {
                assert(scanned_before(o1, l1, p1, u));
            }
        },
    }
}

/// Look at the wall at the current scan position and keep it as the best
/// when it is a hit that beats the best so far.
fn consider(g: &Grid, p: Point, w: WallId, best: &mut Option<WallId>, best_d: &mut i64)
    requires
        g.wf(),
        g.wall_valid(w),
        best_so_far(
            *g,
            p,
            orient_rank(w.orientation),
            w.line as int,
            w.pos as int,
            *old(best),
            *old(best_d),
        ),
    ensures
        best_so_far(
            *g,
            p,
            orient_rank(w.orientation),
            w.line as int,
            w.pos + 1,
            *final(best),
            *final(best_d),
        ),
{
    let ghost o = orient_rank(w.orientation);
    let ghost l = w.line as int;
    let ghost q = w.pos as int;
    let hit = g.wall_hit_exec(w, p);
    if hit {
        let d = g.wall_center_dist2_exec(w, p);
        let replace = match *best {
            None => true,
            Some(_) => d < *best_d,
        };
        if replace {
            let ghost prev = *best;
            *best = Some(w);
            *best_d = d;
            proof {
                assert forall|u: WallId|
                    g.wall_valid(u) && #[trigger] g.wall_hit(u, p) && scanned_before(o, l, q + 1, u)
                        && u != w implies preferred(*g, p, w, u) by {
                    if scanned_before(o, l, q, u) {
                        match prev {
                            None => {},
                            Some(b) => {
                                if u != b {
                                    assert(preferred(*g, p, b, u));
                                }
                            },
                        }
                    } else {
                        lemma_scan_extend(o, l, q, u, w);
                    }
                }
            }
        } else {
            proof {
                let b = best->Some_0;
                assert forall|u: WallId|
                    g.wall_valid(u) && #[trigger] g.wall_hit(u, p) && scanned_before(o, l, q + 1, u)
                        && u != b implies preferred(*g, p, b, u) by {
                    if scanned_before(o, l, q, u) {
                        assert(preferred(*g, p, b, u));
                    } else {
                        lemma_scan_extend(o, l, q, u, w);
                        assert(scanned_before(o, l, q, b));
                        assert(lex_before(b, w));
                    }
                }
            }
        }
    } else {
        proof {
            match *best {
                None => {
                    assert forall|u: WallId|
                        g.wall_valid(u) && scanned_before(o, l, q + 1, u) implies !(
                    #[trigger] g.wall_hit(u, p)) by {
                        if !scanned_before(o, l, q, u) {
                            lemma_scan_extend(o, l, q, u, w);
                        }
                    }
                },
                Some(b) => {
                    assert forall|u: WallId|
                        g.wall_valid(u) && #[trigger] g.wall_hit(u, p) && scanned_before(
                            o,
                            l,
                            q + 1,
                            u,
                        ) && u != b implies preferred(*g, p, b, u) by {
                        if !scanned_before(o, l, q, u) {
                            lemma_scan_extend(o, l, q, u, w);
                        }
                    }
                },
            }
        }
    }
}

impl Grid {
    /// Resolve an input point to the wall it targets, or `None` when the
    /// point lies in no wall's box. Among several hit walls the one with
    /// the nearest box center wins, and among equidistant ones the
    /// canonically smallest identity, so resolution is deterministic.
    pub fn resolve(&self, p: Point) -> (r: Option<WallId>)
        requires
            self.wf(),
        ensures
            r is Some <==> exists|u: WallId| self.wall_valid(u) && #[trigger] self.wall_hit(u, p),
            match r {
                Some(w) => self.wall_valid(w) && self.wall_hit(w, p) && forall|u: WallId|
                    self.wall_valid(u) && #[trigger] self.wall_hit(u, p) && u != w ==> preferred(
                        *self,
                        p,
                        w,
                        u,
                    ),
                None => true,
            },
    {
        let mut best: Option<WallId> = None;
        let mut best_d: i64 = 0;
        let mut line: usize = 0;
        while line <= self.rows
            invariant
                self.wf(),
                line <= self.rows + 1,
                best_so_far(*self, p, 0, line as int, 0, best, best_d),
            decreases self.rows + 1 - line,
        {
            let mut pos: usize = 0;
            while pos < self.cols
                invariant
                    self.wf(),
                    line <= self.rows,
                    pos <= self.cols,
                    best_so_far(*self, p, 0, line as int, pos as int, best, best_d),
                decreases self.cols - pos,
            {
                let w = WallId { orientation: Orientation::Horizontal, line, pos };
                consider(self, p, w, &mut best, &mut best_d);
                pos += 1;
            }
            proof {
                lemma_best_shift(
                    *self,
                    p,
                    0,
                    line as int,
                    self.cols as int,
                    0,
                    line + 1,
                    0,
                    best,
                    best_d,
                );
            }
            line += 1;
        }
        proof {
            lemma_best_shift(*self, p, 0, self.rows + 1, 0, 1, 0, 0, best, best_d);
        }
        let mut vline: usize = 0;
        while vline <= self.cols
            invariant
                self.wf(),
                vline <= self.cols + 1,
                best_so_far(*self, p, 1, vline as int, 0, best, best_d),
            decreases self.cols + 1 - vline,
        {
            let mut pos: usize = 0;
            while pos < self.rows
                invariant
                    self.wf(),
                    vline <= self.cols,
                    pos <= self.rows,
                    best_so_far(*self, p, 1, vline as int, pos as int, best, best_d),
                decreases self.rows - pos,
            {
                let w = WallId { orientation: Orientation::Vertical, line: vline, pos };
                consider(self, p, w, &mut best, &mut best_d);
                pos += 1;
            }
            proof {
                lemma_best_shift(
                    *self,
                    p,
                    1,
                    vline as int,
                    self.rows as int,
                    1,
                    vline + 1,
                    0,
                    best,
                    best_d,
                );
            }
            vline += 1;
        }
        proof {
            assert forall|u: WallId| self.wall_valid(u) implies scanned_before(
                1,
                self.cols + 1,
                0,
                u,
            ) by {
                match u.orientation {
                    Orientation::Horizontal => {},
                    Orientation::Vertical => {},
                }
            }
        }
        best
    }
}

} // verus!
