//! Scenario tests for the turn engine: validation, square completion,
//! the extra-turn rule, terminal detection, and the outcome report.

use dots_and_boxes::grid::Grid;
use dots_and_boxes::grid::Orientation;
use dots_and_boxes::grid::SquareId;
use dots_and_boxes::grid::WallId;
use dots_and_boxes::player::GameError;
use dots_and_boxes::player::Player;
use dots_and_boxes::state::GameState;
use dots_and_boxes::state::Phase;

fn h(line: usize, pos: usize) -> WallId {
    WallId { orientation: Orientation::Horizontal, line, pos }
}

fn v(line: usize, pos: usize) -> WallId {
    WallId { orientation: Orientation::Vertical, line, pos }
}

fn sq(row: usize, col: usize) -> SquareId {
    SquareId { row, col }
}

fn grid(rows: usize, cols: usize) -> Grid {
    Grid::new(rows, cols, 50, 10).unwrap()
}

#[test]
fn config_rejects_bad_dimensions() {
    assert_eq!(Grid::new(0, 5, 50, 10), Err(GameError::ConfigurationError));
    assert_eq!(Grid::new(5, 0, 50, 10), Err(GameError::ConfigurationError));
    assert_eq!(Grid::new(5, 5, 0, 10), Err(GameError::ConfigurationError));
    assert_eq!(Grid::new(5, 5, 50, 0), Err(GameError::ConfigurationError));
    assert_eq!(Grid::new(1001, 5, 50, 10), Err(GameError::ConfigurationError));
    assert!(Grid::new(1, 1, 1, 1).is_ok());
}

#[test]
fn fresh_game_counts() {
    // 2x2: (2+1)*2 + 2*(2+1) = 12 walls, 4 squares.
    let g = grid(2, 2);
    assert_eq!(g.wall_count_exec(), 12);
    assert_eq!(g.square_count_exec(), 4);
    // 1x5: 2*5 + 1*6 = 16 walls, 5 squares.
    let g2 = grid(1, 5);
    assert_eq!(g2.wall_count_exec(), 16);
    assert_eq!(g2.square_count_exec(), 5);
    // 3x7: 4*7 + 3*8 = 52 walls, 21 squares.
    let g3 = grid(3, 7);
    assert_eq!(g3.wall_count_exec(), 52);
    assert_eq!(g3.square_count_exec(), 21);
}

#[test]
fn fresh_game_is_unowned_and_in_progress() {
    let g = grid(2, 2);
    let st = GameState::new(g);
    assert_eq!(st.phase(), Phase::InProgress);
    assert_eq!(st.current_player(), Player::One);
    assert_eq!(st.wall_owner(h(0, 0)), None);
    assert_eq!(st.wall_owner(v(2, 1)), None);
    assert_eq!(st.square_owner(sq(0, 0)), None);
    assert_eq!(st.score(Player::One), 0);
    assert_eq!(st.score(Player::Two), 0);
}

#[test]
fn simple_move_flips_turn() {
    let g = grid(2, 2);
    let mut st = GameState::new(g);
    let r = st.apply_move(h(0, 0));
    assert_eq!(r, Ok(vec![]));
    assert_eq!(st.wall_owner(h(0, 0)), Some(Player::One));
    assert_eq!(st.current_player(), Player::Two);
    assert_eq!(st.phase(), Phase::InProgress);
}

#[test]
fn rejected_move_is_idempotent() {
    let g = grid(2, 2);
    let mut st = GameState::new(g);
    assert!(st.apply_move(h(0, 0)).is_ok());
    // Second and third claim of the same wall: rejected, state identical.
    let r1 = st.apply_move(h(0, 0));
    assert_eq!(r1, Err(GameError::AlreadyClaimedError));
    let player_after_first = st.current_player();
    let r2 = st.apply_move(h(0, 0));
    assert_eq!(r2, Err(GameError::AlreadyClaimedError));
    assert_eq!(st.current_player(), player_after_first);
    assert_eq!(st.wall_owner(h(0, 0)), Some(Player::One));
    assert_eq!(st.phase(), Phase::InProgress);
}

#[test]
fn completing_square_keeps_turn() {
    // 2x2 grid, 12 walls: three walls around square (0,0) by alternating
    // players, one move elsewhere, then the fourth wall by player One:
    // the square goes to One and One moves again.
    let g = grid(2, 2);
    let mut st = GameState::new(g);
    assert_eq!(st.apply_move(h(0, 0)), Ok(vec![])); // One: top
    assert_eq!(st.apply_move(v(0, 0)), Ok(vec![])); // Two: left
    assert_eq!(st.apply_move(h(1, 0)), Ok(vec![])); // One: bottom
    assert_eq!(st.apply_move(h(0, 1)), Ok(vec![])); // Two: elsewhere
    assert_eq!(st.current_player(), Player::One);
    let r = st.apply_move(v(1, 0)); // One: right, completes (0,0)
    assert_eq!(r, Ok(vec![sq(0, 0)]));
    assert_eq!(st.square_owner(sq(0, 0)), Some(Player::One));
    assert_eq!(st.current_player(), Player::One);
    assert_eq!(st.score(Player::One), 1);
    assert_eq!(st.score(Player::Two), 0);
    assert_eq!(st.phase(), Phase::InProgress);
}

#[test]
fn shared_wall_awards_both_squares() {
    // 1x2 grid: both squares lack only the shared middle wall; claiming it
    // awards both squares to the acting player in one move.
    let g = grid(1, 2);
    let mut st = GameState::new(g);
    assert_eq!(st.apply_move(h(0, 0)), Ok(vec![])); // One
    assert_eq!(st.apply_move(h(1, 0)), Ok(vec![])); // Two
    assert_eq!(st.apply_move(h(0, 1)), Ok(vec![])); // One
    assert_eq!(st.apply_move(h(1, 1)), Ok(vec![])); // Two
    assert_eq!(st.apply_move(v(0, 0)), Ok(vec![])); // One
    assert_eq!(st.apply_move(v(2, 0)), Ok(vec![])); // Two
    assert_eq!(st.current_player(), Player::One);
    let r = st.apply_move(v(1, 0)); // shared middle wall
    assert_eq!(r, Ok(vec![sq(0, 0), sq(0, 1)]));
    assert_eq!(st.square_owner(sq(0, 0)), Some(Player::One));
    assert_eq!(st.square_owner(sq(0, 1)), Some(Player::One));
    // Every square is owned: finished in the same move, One wins 2-0.
    assert_eq!(st.phase(), Phase::Finished(Some(Player::One)));
    assert_eq!(st.outcome(), Ok(Some(Player::One)));
}

#[test]
fn ownership_is_monotone() {
    let g = grid(1, 2);
    let mut st = GameState::new(g);
    assert!(st.apply_move(h(0, 0)).is_ok()); // One claims it
    assert_eq!(st.wall_owner(h(0, 0)), Some(Player::One));
    // Later moves by the other player change no existing owner.
    assert!(st.apply_move(h(1, 0)).is_ok());
    assert!(st.apply_move(v(0, 0)).is_ok());
    assert!(st.apply_move(v(1, 0)).is_ok());
    assert_eq!(st.wall_owner(h(0, 0)), Some(Player::One));
    assert_eq!(st.wall_owner(h(1, 0)), Some(Player::Two));
    assert_eq!(st.wall_owner(v(0, 0)), Some(Player::One));
    // The fourth claim above (v(1,0), by Two) completed square (0,0), so
    // Two owns it and kept the turn.
    assert_eq!(st.current_player(), Player::Two);
    assert_eq!(st.square_owner(sq(0, 0)), Some(Player::Two));
    assert!(st.apply_move(h(0, 1)).is_ok());
    assert_eq!(st.square_owner(sq(0, 0)), Some(Player::Two));
}

#[test]
fn finished_game_rejects_moves() {
    // 1x1 grid: four walls end the game.
    let g = grid(1, 1);
    let mut st = GameState::new(g);
    assert_eq!(st.outcome(), Err(GameError::InvalidStateError));
    assert!(st.apply_move(h(0, 0)).is_ok()); // One
    assert!(st.apply_move(h(1, 0)).is_ok()); // Two
    assert!(st.apply_move(v(0, 0)).is_ok()); // One
    let r = st.apply_move(v(1, 0)); // Two completes the only square
    assert_eq!(r, Ok(vec![sq(0, 0)]));
    assert_eq!(st.phase(), Phase::Finished(Some(Player::Two)));
    assert_eq!(st.outcome(), Ok(Some(Player::Two)));
    // No further input is accepted, not even on a free-looking wall id.
    assert_eq!(st.apply_move(h(0, 0)), Err(GameError::InvalidStateError));
    assert_eq!(st.phase(), Phase::Finished(Some(Player::Two)));
}

#[test]
fn tied_game_reports_none() {
    // 1x2 grid played to a 1-1 tie: One completes the left square, Two
    // the right one.
    let g = grid(1, 2);
    let mut st = GameState::new(g);
    assert_eq!(st.apply_move(v(1, 0)), Ok(vec![])); // One: middle
    assert_eq!(st.apply_move(h(0, 0)), Ok(vec![])); // Two: left top
    assert_eq!(st.apply_move(h(0, 1)), Ok(vec![])); // One: right top
    assert_eq!(st.apply_move(h(1, 0)), Ok(vec![])); // Two: left bottom
    assert_eq!(st.current_player(), Player::One);
    let r = st.apply_move(v(0, 0)); // One completes the left square
    assert_eq!(r, Ok(vec![sq(0, 0)]));
    assert_eq!(st.square_owner(sq(0, 0)), Some(Player::One));
    assert_eq!(st.current_player(), Player::One); // extra turn
    assert_eq!(st.apply_move(h(1, 1)), Ok(vec![])); // One: right bottom
    assert_eq!(st.current_player(), Player::Two);
    let r2 = st.apply_move(v(2, 0)); // Two completes the right square
    assert_eq!(r2, Ok(vec![sq(0, 1)]));
    assert_eq!(st.score(Player::One), 1);
    assert_eq!(st.score(Player::Two), 1);
    assert_eq!(st.phase(), Phase::Finished(None));
    assert_eq!(st.outcome(), Ok(None));
}

#[test]
fn one_by_five_ends_three_to_two() {
    // A full 1x5 game in which One takes squares 0, 1 and 2 and Two takes
    // squares 3 and 4: the outcome is the player with 3.
    let g = grid(1, 5);
    let mut st = GameState::new(g);
    assert_eq!(st.apply_move(h(0, 0)), Ok(vec![])); // 1 One: top 0
    assert_eq!(st.apply_move(h(0, 1)), Ok(vec![])); // 2 Two: top 1
    assert_eq!(st.apply_move(h(1, 0)), Ok(vec![])); // 3 One: bottom 0
    assert_eq!(st.apply_move(h(1, 1)), Ok(vec![])); // 4 Two: bottom 1
    assert_eq!(st.apply_move(v(0, 0)), Ok(vec![])); // 5 One: left edge
    assert_eq!(st.apply_move(h(0, 2)), Ok(vec![])); // 6 Two: top 2
    assert_eq!(st.current_player(), Player::One);
    assert_eq!(st.apply_move(v(1, 0)), Ok(vec![sq(0, 0)])); // 7 One takes square 0
    assert_eq!(st.current_player(), Player::One);
    assert_eq!(st.apply_move(v(2, 0)), Ok(vec![sq(0, 1)])); // 8 One takes square 1
    assert_eq!(st.current_player(), Player::One);
    assert_eq!(st.apply_move(h(1, 2)), Ok(vec![])); // 9 One: bottom 2
    assert_eq!(st.apply_move(h(0, 3)), Ok(vec![])); // 10 Two: top 3
    assert_eq!(st.current_player(), Player::One);
    assert_eq!(st.apply_move(v(3, 0)), Ok(vec![sq(0, 2)])); // 11 One takes square 2
    assert_eq!(st.current_player(), Player::One);
    assert_eq!(st.apply_move(h(0, 4)), Ok(vec![])); // 12 One: top 4
    assert_eq!(st.apply_move(h(1, 3)), Ok(vec![])); // 13 Two: bottom 3
    assert_eq!(st.apply_move(h(1, 4)), Ok(vec![])); // 14 One: bottom 4
    assert_eq!(st.current_player(), Player::Two);
    assert_eq!(st.apply_move(v(4, 0)), Ok(vec![sq(0, 3)])); // 15 Two takes square 3
    assert_eq!(st.current_player(), Player::Two);
    assert_eq!(st.apply_move(v(5, 0)), Ok(vec![sq(0, 4)])); // 16 Two takes square 4
    assert_eq!(st.score(Player::One), 3);
    assert_eq!(st.score(Player::Two), 2);
    assert_eq!(st.phase(), Phase::Finished(Some(Player::One)));
    assert_eq!(st.outcome(), Ok(Some(Player::One)));
}
