//! The general laws of the engine, stated over the move model
//! `step_state` / `step_result` that `apply_move` realises exactly.

use vstd::prelude::*;

use crate::grid::Grid;
use crate::grid::SquareId;
use crate::grid::WallId;
use crate::grid::lemma_counts_bounded;
use crate::grid::lemma_square_index_bounds;
use crate::grid::lemma_square_index_injective;
use crate::grid::lemma_wall_index_bounds;
use crate::grid::lemma_wall_index_injective;
use crate::player::GameError;
use crate::player::Player;
use crate::state::GameView;
use crate::state::Phase;
use crate::state::all_squares_owned;
use crate::state::awarded_squares;
use crate::state::completes;
use crate::state::count_owned_by;
use crate::state::initial_view;
use crate::state::lemma_awarded_squares;
use crate::state::lemma_step_preserves_wf;
use crate::state::outcome_of;
use crate::state::step_result;
use crate::state::step_state;

verus! {

/// A fresh game on `rows` x `cols` cells has `rows * cols` squares and
/// `(rows + 1) * cols + rows * (cols + 1)` walls: interior walls are
/// shared, not duplicated per cell.
pub proof fn lemma_initial_counts(grid: Grid)
    requires
        grid.wf(),
    ensures
        initial_view(grid).walls.len() == (grid.rows + 1) * grid.cols + grid.rows * (grid.cols
            + 1),
        initial_view(grid).squares.len() == grid.rows * grid.cols,
{
    lemma_counts_bounded(grid);
}

/// The outcome rule: the player with strictly more squares wins, and
/// equal counts are a tie.
pub proof fn lemma_outcome_rule(squares: Seq<Option<Player>>)
    ensures
        outcome_of(squares) == Some(Player::One) <==> count_owned_by(squares, Player::One)
            > count_owned_by(squares, Player::Two),
        outcome_of(squares) == Some(Player::Two) <==> count_owned_by(squares, Player::Two)
            > count_owned_by(squares, Player::One),
        outcome_of(squares) == None::<Player> <==> count_owned_by(squares, Player::One)
            == count_owned_by(squares, Player::Two),
{
}

/// Rejection is idempotent: a move on an already-claimed wall leaves the
/// state unchanged, so repeating it gives the same rejection and the same
/// state again.
pub proof fn lemma_rejected_move_idempotent(v: GameView, w: WallId)
    requires
        v.wf(),
        v.grid.wall_valid(w),
        v.wall_owner(w) is Some,
    ensures
        step_state(v, w) == v,
        step_result(step_state(v, w), w) == step_result(v, w),
        step_state(step_state(v, w), w) == step_state(v, w),
{
}

/// Turn retention: a move that completes at least one square keeps the
/// turn; a move that completes none passes it to the other player.
pub proof fn lemma_turn_retention(v: GameView, w: WallId)
    requires
        v.wf(),
        v.grid.wall_valid(w),
        step_result(v, w) is Ok,
    ensures
        awarded_squares(v, w).len() > 0 ==> step_state(v, w).current_player == v.current_player,
        awarded_squares(v, w).len() == 0 ==> step_state(v, w).current_player
            == v.current_player.spec_other(),
{
}

/// Monotonicity of ownership: once a wall or a square has an owner, no
/// move changes that owner.
pub proof fn lemma_ownership_monotone(v: GameView, w: WallId)
    requires
        v.wf(),
        v.grid.wall_valid(w),
    ensures
        forall|u: WallId|
            v.grid.wall_valid(u) && (#[trigger] v.wall_owner(u)) is Some ==> step_state(
                v,
                w,
            ).wall_owner(u) == v.wall_owner(u),
        forall|s: SquareId|
            v.grid.square_valid(s) && (#[trigger] v.square_owner(s)) is Some ==> step_state(
                v,
                w,
            ).square_owner(s) == v.square_owner(s),
{
    if step_result(v, w) is Err {
    } else {
        let g = v.grid;
        let v2 = step_state(v, w);
        let aw = awarded_squares(v, w);
        lemma_wall_index_bounds(g, w);
        lemma_awarded_squares(v, w);
        assert forall|u: WallId|
            g.wall_valid(u) && (#[trigger] v.wall_owner(u)) is Some implies v2.wall_owner(u)
            == v.wall_owner(u) by {
            lemma_wall_index_bounds(g, u);
            if g.wall_index(u) == g.wall_index(w) {
                lemma_wall_index_injective(g, u, w);
            }
        }
        assert forall|s: SquareId|
            g.square_valid(s) && (#[trigger] v.square_owner(s)) is Some implies v2.square_owner(s)
            == v.square_owner(s) by {
            lemma_square_index_bounds(g, s);
            let si = g.square_index(s);
            if exists|k: int| 0 <= k < aw.len() && #[trigger] g.square_index(aw[k]) == si {
                let k = choose|k: int|
                    0 <= k < aw.len() && #[trigger] g.square_index(aw[k]) == si;
                assert(completes(v, w, aw[k]));
                lemma_square_index_injective(g, aw[k], s);
            }
        }
    }
}

/// Terminal correctness: after any move the game is `Finished` exactly
/// when every square has an owner, the recorded winner is the one the
/// square counts give, and a finished game never changes again.
pub proof fn lemma_terminal_correctness(v: GameView, w: WallId)
    requires
        v.wf(),
        v.grid.wall_valid(w),
    ensures
        step_state(v, w).phase is Finished <==> all_squares_owned(step_state(v, w).squares),
        step_state(v, w).phase matches Phase::Finished(win) ==> win == outcome_of(
            step_state(v, w).squares,
        ),
        v.phase is Finished ==> step_state(v, w) == v && step_result(v, w) == Err::<
            Seq<SquareId>,
            GameError,
        >(GameError::InvalidStateError),
{
    lemma_step_preserves_wf(v, w);
}

} // verus!
