//! Tests for the geometry layout and the input resolver: bounding boxes,
//! hit testing, misses, and the deterministic tie-break.

use dots_and_boxes::geometry::Point;
use dots_and_boxes::grid::Grid;
use dots_and_boxes::grid::Orientation;
use dots_and_boxes::grid::SquareId;
use dots_and_boxes::grid::WallId;
use dots_and_boxes::player::Player;
use dots_and_boxes::state::GameState;

fn h(line: usize, pos: usize) -> WallId {
    WallId { orientation: Orientation::Horizontal, line, pos }
}

fn v(line: usize, pos: usize) -> WallId {
    WallId { orientation: Orientation::Vertical, line, pos }
}

fn pt(x: i64, y: i64) -> Point {
    Point { x, y }
}

fn grid(rows: usize, cols: usize) -> Grid {
    Grid::new(rows, cols, 50, 10).unwrap()
}

#[test]
fn canonical_enumeration_lists_every_wall_and_square() {
    let g = grid(2, 2);
    let walls = g.wall_ids();
    assert_eq!(walls.len(), 12);
    // Horizontal walls first, by line then position.
    assert_eq!(walls[0], h(0, 0));
    assert_eq!(walls[1], h(0, 1));
    assert_eq!(walls[5], h(2, 1));
    // Then vertical walls in the same order.
    assert_eq!(walls[6], v(0, 0));
    assert_eq!(walls[11], v(2, 1));
    let squares = g.square_ids();
    assert_eq!(squares.len(), 4);
    assert_eq!(squares[0], SquareId { row: 0, col: 0 });
    assert_eq!(squares[1], SquareId { row: 0, col: 1 });
    assert_eq!(squares[2], SquareId { row: 1, col: 0 });
    assert_eq!(squares[3], SquareId { row: 1, col: 1 });
}

#[test]
fn wall_boxes_have_expected_coordinates() {
    let g = grid(2, 2);
    // Horizontal wall on line 1, position 1: full cell length in x,
    // one thickness around the line in y.
    let r = g.wall_rect(h(1, 1));
    assert_eq!((r.x_min, r.x_max), (50, 100));
    assert_eq!((r.y_min, r.y_max), (45, 55));
    // Vertical wall on line 0, position 0 sticks out to the left of the
    // grid.
    let r2 = g.wall_rect(v(0, 0));
    assert_eq!((r2.x_min, r2.x_max), (-5, 5));
    assert_eq!((r2.y_min, r2.y_max), (0, 50));
}

#[test]
fn square_boxes_have_expected_coordinates() {
    let g = grid(2, 2);
    let r = g.square_rect(SquareId { row: 1, col: 1 });
    assert_eq!((r.x_min, r.y_min, r.x_max, r.y_max), (50, 50, 100, 100));
    let r0 = g.square_rect(SquareId { row: 0, col: 0 });
    assert_eq!((r0.x_min, r0.y_min, r0.x_max, r0.y_max), (0, 0, 50, 50));
}

#[test]
fn odd_thickness_splits_towards_the_far_side() {
    // With thickness 9 a wall box spans 4 units on the near side of its
    // line and 5 on the far side.
    let g = Grid::new(2, 2, 50, 9).unwrap();
    let r = g.wall_rect(h(1, 0));
    assert_eq!((r.y_min, r.y_max), (46, 55));
    assert_eq!((r.x_min, r.x_max), (0, 50));
    let r2 = g.wall_rect(v(1, 1));
    assert_eq!((r2.x_min, r2.x_max), (46, 55));
    assert_eq!((r2.y_min, r2.y_max), (50, 100));
}

#[test]
fn point_inside_one_wall_resolves_to_it() {
    let g = grid(2, 2);
    // Inside the box of the top-left horizontal wall only.
    assert_eq!(g.resolve(pt(25, 2)), Some(h(0, 0)));
    // Inside the box of the left vertical wall only.
    assert_eq!(g.resolve(pt(3, 20)), Some(v(0, 0)));
    // Inside the middle horizontal wall of line 1.
    assert_eq!(g.resolve(pt(75, 53)), Some(h(1, 1)));
}

#[test]
fn point_outside_all_walls_resolves_to_none() {
    let g = grid(2, 2);
    // The interior of a square, away from every wall box.
    assert_eq!(g.resolve(pt(25, 25)), None);
    // Far outside the grid.
    assert_eq!(g.resolve(pt(-1000, -1000)), None);
    assert_eq!(g.resolve(pt(1_000_000, 3)), None);
    // A miss produces no state change because no move is made: the host
    // calls apply_move only for a Some resolution.
    let mut st = GameState::new(g);
    if let Some(w) = g.resolve(pt(25, 25)) {
        let _ = st.apply_move(w);
    }
    assert_eq!(st.current_player(), Player::One);
    assert_eq!(st.wall_owner(h(0, 0)), None);
}

#[test]
fn corner_tie_breaks_lexicographically() {
    let g = grid(2, 2);
    // The grid corner (0,0) lies in the boxes of h(0,0) and v(0,0), both
    // centers at the same distance: the horizontal wall is canonically
    // smaller and wins.
    assert_eq!(g.resolve(pt(0, 0)), Some(h(0, 0)));
    // Nudged left, out of the horizontal wall's box: only the vertical
    // wall contains the point.
    assert_eq!(g.resolve(pt(-2, 0)), Some(v(0, 0)));
    assert_eq!(g.resolve(pt(2, -3)), Some(h(0, 0)));
}

#[test]
fn resolve_then_apply_claims_the_wall() {
    let g = grid(2, 2);
    let mut st = GameState::new(g);
    let w = g.resolve(pt(25, 2)).unwrap();
    assert_eq!(w, h(0, 0));
    assert!(st.apply_move(w).is_ok());
    assert_eq!(st.wall_owner(h(0, 0)), Some(Player::One));
    assert_eq!(st.current_player(), Player::Two);
}
