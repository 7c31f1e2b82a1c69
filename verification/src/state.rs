//! The game state, its invariant, and the turn engine.
//!
//! `GameState` holds the ownership of every wall and square, whose turn it
//! is, and whether the game has ended. Its mathematical model is
//! `GameView`, and one move is the pure transition `step_state` /
//! `step_result`: `apply_move` promises to realise exactly that
//! transition, so every rule of the game is pinned down once, in spec
//! code.

use vstd::prelude::*;

use crate::grid::Grid;
use crate::grid::SquareId;
use crate::grid::WallId;
use crate::grid::lemma_adjacency;
use crate::grid::lemma_adjacent_is_neighbor;
use crate::grid::lemma_counts_bounded;
use crate::grid::lemma_neighbors_valid;
use crate::grid::lemma_square_index_bounds;
use crate::grid::lemma_square_index_injective;
use crate::grid::lemma_square_walls_valid;
use crate::grid::lemma_wall_index_bounds;
use crate::grid::lemma_wall_index_injective;
use crate::player::GameError;
use crate::player::Player;

verus! {

/// Whether the game is still being played or has ended, and with which
/// winner (`None` is a tie).
#[derive(Clone, Copy, PartialEq, Eq, Debug)]
pub enum Phase {
    InProgress,
    Finished(Option<Player>),
}

/// The mathematical model of a game state: the grid configuration, the
/// owner of every wall and of every square in canonical order, whose turn
/// it is, and the phase.
#[verifier::ext_equal]
pub struct GameView {
    pub grid: Grid,
    pub walls: Seq<Option<Player>>,
    pub squares: Seq<Option<Player>>,
    pub current_player: Player,
    pub phase: Phase,
}

/// Whether all four walls bordering square `s` have an owner in `walls`.
pub open spec fn square_complete(g: Grid, walls: Seq<Option<Player>>, s: SquareId) -> bool {
    &&& walls[g.wall_index(g.left_wall(s))] is Some
    &&& walls[g.wall_index(g.top_wall(s))] is Some
    &&& walls[g.wall_index(g.right_wall(s))] is Some
    &&& walls[g.wall_index(g.bottom_wall(s))] is Some
}

/// Whether every square has an owner.
pub open spec fn all_squares_owned(squares: Seq<Option<Player>>) -> bool {
    forall|i: int| 0 <= i < squares.len() ==> squares[i] is Some
}

/// How many squares player `p` owns.
pub open spec fn count_owned_by(squares: Seq<Option<Player>>, p: Player) -> int
    decreases squares.len(),
{
    if squares.len() == 0 {
        0
    } else {
        count_owned_by(squares.drop_last(), p) + (if squares.last() == Some(p) {
            1int
        } else {
            0int
        })
    }
}

/// The winner by square counts: the player with strictly more squares, or
/// `None` for a tie.
pub open spec fn outcome_of(squares: Seq<Option<Player>>) -> Option<Player> {
    let c1 = count_owned_by(squares, Player::One);
    let c2 = count_owned_by(squares, Player::Two);
    if c1 > c2 {
        Some(Player::One)
    } else if c2 > c1 {
        Some(Player::Two)
    } else {
        None
    }
}

impl GameView {
    /// The owner of a wall.
    pub open spec fn wall_owner(self, w: WallId) -> Option<Player> {
        self.walls[self.grid.wall_index(w)]
    }

    /// The owner of a square.
    pub open spec fn square_owner(self, s: SquareId) -> Option<Player> {
        self.squares[self.grid.square_index(s)]
    }

    /// The state invariant. The grid is well formed; there is one
    /// ownership slot per wall and per square; a square has an owner
    /// exactly when all four of its walls do; and the phase is `Finished`
    /// exactly when every square has an owner, carrying the winner that
    /// the square counts give.
    pub open spec fn wf(self) -> bool {
        &&& self.grid.wf()
        &&& self.walls.len() == self.grid.wall_count()
        &&& self.squares.len() == self.grid.square_count()
        &&& forall|s: SquareId|
            self.grid.square_valid(s) ==> ((#[trigger] self.square_owner(s)) is Some
                <==> square_complete(self.grid, self.walls, s))
        &&& match self.phase {
            Phase::InProgress => !all_squares_owned(self.squares),
            Phase::Finished(win) => all_squares_owned(self.squares) && win == outcome_of(
                self.squares,
            ),
        }
    }
}

/// The state of a fresh game: no wall and no square owned, player one to
/// move, game in progress.
pub open spec fn initial_view(grid: Grid) -> GameView {
    GameView {
        grid,
        walls: Seq::new(grid.wall_count() as nat, |i: int| None::<Player>),
        squares: Seq::new(grid.square_count() as nat, |i: int| None::<Player>),
        current_player: Player::One,
        phase: Phase::InProgress,
    }
}

/// Whether claiming wall `w` completes square `s`: the square borders the
/// wall, has no owner yet, and all four of its walls are owned once `w`
/// is claimed.
pub open spec fn completes(v: GameView, w: WallId, s: SquareId) -> bool {
    &&& v.grid.square_valid(s)
    &&& v.grid.wall_adjacent(w, s)
    &&& v.square_owner(s) is None
    &&& square_complete(
        v.grid,
        v.walls.update(v.grid.wall_index(w), Some(v.current_player)),
        s,
    )
}

/// The award a single bordering square contributes: itself when the move
/// completes it, nothing otherwise.
pub open spec fn candidate_award(v: GameView, w: WallId, c: Option<SquareId>) -> Seq<SquareId> {
    match c {
        Some(s) => if completes(v, w, s) {
            seq![s]
        } else {
            Seq::empty()
        },
        None => Seq::empty(),
    }
}

/// The squares a move on wall `w` awards, in canonical order: the square
/// above or left of the wall first, then the square below or right of it.
/// At most two squares, and only squares the move completes.
pub open spec fn awarded_squares(v: GameView, w: WallId) -> Seq<SquareId> {
    candidate_award(v, w, v.grid.square_before(w)) + candidate_award(v, w, v.grid.square_after(w))
}

/// Square ownership after awarding every square of `aw` to player `p`;
/// all other squares keep their owner.
pub open spec fn award_to(squares: Seq<Option<Player>>, g: Grid, aw: Seq<SquareId>, p: Player) -> Seq<
    Option<Player>,
> {
    Seq::new(
        squares.len(),
        |i: int|
            if exists|k: int| 0 <= k < aw.len() && #[trigger] g.square_index(aw[k]) == i {
                Some(p)
            } else {
                squares[i]
            },
    )
}

/// What a move on wall `w` returns: rejected with `InvalidStateError` on
/// a finished game, rejected with `AlreadyClaimedError` when the wall
/// already has an owner, and otherwise accepted with the squares it
/// awards.
pub open spec fn step_result(v: GameView, w: WallId) -> Result<Seq<SquareId>, GameError> {
    if !(v.phase is InProgress) {
        Err(GameError::InvalidStateError)
    } else if v.wall_owner(w) is Some {
        Err(GameError::AlreadyClaimedError)
    } else {
        Ok(awarded_squares(v, w))
    }
}

/// The state after a move on wall `w`. A rejected move leaves the state
/// unchanged. An accepted move claims the wall for the current player,
/// awards every square it completes to that player, keeps the turn when
/// at least one square was awarded and passes it otherwise, and finishes
/// the game with the counted winner once every square has an owner.
pub open spec fn step_state(v: GameView, w: WallId) -> GameView {
    if step_result(v, w) is Err {
        v
    } else {
        let p = v.current_player;
        let aw = awarded_squares(v, w);
        let walls2 = v.walls.update(v.grid.wall_index(w), Some(p));
        let squares2 = award_to(v.squares, v.grid, aw, p);
        GameView {
            grid: v.grid,
            walls: walls2,
            squares: squares2,
            current_player: if aw.len() > 0 {
                p
            } else {
                p.spec_other()
            },
            phase: if all_squares_owned(squares2) {
                Phase::Finished(outcome_of(squares2))
            } else {
                Phase::InProgress
            },
        }
    }
}

/// A move's returned award list, as the model sees it.
pub open spec fn res_view(r: Result<Vec<SquareId>, GameError>) -> Result<Seq<SquareId>, GameError> {
    match r {
        Ok(aw) => Ok(aw@),
        Err(e) => Err(e),
    }
}

/// The authoritative state of one game: ownership of every wall and
/// square, whose turn it is, and the phase. Constructed once per game and
/// mutated only by `apply_move`.
pub struct GameState {
    grid: Grid,
    walls: Vec<Option<Player>>,
    squares: Vec<Option<Player>>,
    current_player: Player,
    phase: Phase,
}

impl View for GameState {
    type V = GameView;

    closed spec fn view(&self) -> GameView {
        GameView {
            grid: self.grid,
            walls: self.walls@,
            squares: self.squares@,
            current_player: self.current_player,
            phase: self.phase,
        }
    }
}

impl GameState {
    /// The state invariant, on the model of this state.
    pub open spec fn wf(self) -> bool {
        self@.wf()
    }

    /// Start a fresh game on a validated grid: `rows * cols` squares and
    /// `(rows + 1) * cols + rows * (cols + 1)` walls, all unowned, player
    /// one to move.
    pub fn new(grid: Grid) -> (r: GameState)
        requires
            grid.wf(),
        ensures
            r.wf(),
            r@ == initial_view(grid),
            r@.walls.len() == (grid.rows + 1) * grid.cols + grid.rows * (grid.cols + 1),
            r@.squares.len() == grid.rows * grid.cols,
    {
        proof {
            lemma_counts_bounded(grid);
        }
        let n_walls = grid.wall_count_exec();
        let n_squares = grid.square_count_exec();
        let mut walls: Vec<Option<Player>> = Vec::new();
        while walls.len() < n_walls
            invariant
                walls@.len() <= n_walls,
                forall|i: int| 0 <= i < walls@.len() ==> walls@[i] is None,
            decreases n_walls - walls@.len(),
        {
            walls.push(None);
        }
        let mut squares: Vec<Option<Player>> = Vec::new();
        while squares.len() < n_squares
            invariant
                squares@.len() <= n_squares,
                forall|i: int| 0 <= i < squares@.len() ==> squares@[i] is None,
            decreases n_squares - squares@.len(),
        {
            squares.push(None);
        }
        let r = GameState { grid, walls, squares, current_player: Player::One, phase: Phase::InProgress };
        proof {
            assert(r@.walls =~= initial_view(grid).walls);
            assert(r@.squares =~= initial_view(grid).squares);
            assert(r@ =~= initial_view(grid));
            assert forall|s: SquareId| r@.grid.square_valid(s) implies !(
            (#[trigger] r@.square_owner(s)) is Some) && !square_complete(r@.grid, r@.walls, s) by {
                lemma_square_index_bounds(grid, s);
                lemma_square_walls_valid(grid, s);
                lemma_wall_index_bounds(grid, grid.left_wall(s));
            }
            assert(!all_squares_owned(r@.squares)) by {
                assert(r@.squares[0] is None);
            }
        }
        r
    }

    /// The grid configuration of this game.
    pub fn grid(&self) -> (g: Grid)
        ensures
            g == self@.grid,
    {
        self.grid
    }

    /// The player whose turn it is.
    pub fn current_player(&self) -> (p: Player)
        ensures
            p == self@.current_player,
    {
        self.current_player
    }

    /// Whether the game is in progress or finished, and with which
    /// winner.
    pub fn phase(&self) -> (ph: Phase)
        ensures
            ph == self@.phase,
    {
        self.phase
    }

    /// The owner of a wall, or `None` while it is unclaimed.
    pub fn wall_owner(&self, w: WallId) -> (r: Option<Player>)
        requires
            self.wf(),
            self@.grid.wall_valid(w),
        ensures
            r == self@.wall_owner(w),
    {
        let i = self.grid.wall_index_exec(w);
        self.walls[i]
    }

    /// The owner of a square, or `None` while it is unclaimed.
    pub fn square_owner(&self, s: SquareId) -> (r: Option<Player>)
        requires
            self.wf(),
            self@.grid.square_valid(s),
        ensures
            r == self@.square_owner(s),
    {
        let i = self.grid.square_index_exec(s);
        self.squares[i]
    }

    /// How many squares player `p` owns so far.
    pub fn score(&self, p: Player) -> (n: usize)
        requires
            self.wf(),
        ensures
            n == count_owned_by(self@.squares, p),
    {
        count_vec(&self.squares, p)
    }

    /// The outcome of a finished game: the player with strictly more
    /// squares, or `None` for a tie. Asking before the game has finished
    /// is an `InvalidStateError`.
    pub fn outcome(&self) -> (r: Result<Option<Player>, GameError>)
        requires
            self.wf(),
        ensures
            (self@.phase matches Phase::Finished(win) ==> r == Ok::<Option<Player>, GameError>(win)
                && win == outcome_of(self@.squares)),
            self@.phase is InProgress ==> r == Err::<Option<Player>, GameError>(
                GameError::InvalidStateError,
            ),
    {
        match self.phase {
            Phase::Finished(win) => Ok(win),
            Phase::InProgress => Err(GameError::InvalidStateError),
        }
    }

    /// Apply a move on wall `w`: exactly the transition `step_state` /
    /// `step_result`. A move on a finished game fails with
    /// `InvalidStateError`; a move on an owned wall fails with
    /// `AlreadyClaimedError`; either way the state is unchanged. An
    /// accepted move claims the wall for the current player, awards the
    /// squares it completes (the returned list, in canonical order), keeps
    /// the turn exactly when it awarded a square, and finishes the game
    /// once every square is owned.
    pub fn apply_move(&mut self, w: WallId) -> (r: Result<Vec<SquareId>, GameError>)
        requires
            old(self).wf(),
            old(self)@.grid.wall_valid(w),
        ensures
            final(self).wf(),
            final(self)@ == step_state(old(self)@, w),
            res_view(r) == step_result(old(self)@, w),
            r is Err ==> final(self)@ == old(self)@,
    {
        let ghost v0 = self@;
        proof {
            lemma_step_preserves_wf(v0, w);
            lemma_wall_index_bounds(v0.grid, w);
            lemma_awarded_squares(v0, w);
            lemma_neighbors_valid(v0.grid, w);
        }
        match self.phase {
            Phase::Finished(_) => {
                return Err(GameError::InvalidStateError);
            },
            Phase::InProgress => {},
        }
        let wi = self.grid.wall_index_exec(w);
        if self.walls[wi].is_some() {
            return Err(GameError::AlreadyClaimedError);
        }
        let p = self.current_player;
        self.walls[wi] = Some(p);
        let ghost aw = awarded_squares(v0, w);
        let c_before = self.grid.square_before_exec(w);
        let c_after = self.grid.square_after_exec(w);
        let mut awarded: Vec<SquareId> = Vec::new();
        match c_before {
            Some(s) => {
                let si = self.grid.square_index_exec(s);
                if self.squares[si].is_none() && square_complete_exec(&self.grid, &self.walls, s) {
                    self.squares[si] = Some(p);
                    awarded.push(s);
                    proof {
                        assert(completes(v0, w, s));
                    }
                } else {
                    proof {
                        assert(!completes(v0, w, s));
                    }
                }
            },
            None => {},
        }
        match c_after {
            Some(s) => {
                proof {
                    match v0.grid.square_before(w) {
                        Some(sb) => {
                            if v0.grid.square_index(sb) == v0.grid.square_index(s) {
                                lemma_square_index_injective(v0.grid, sb, s);
                            }
                        },
                        None => {},
                    }
                }
                let si = self.grid.square_index_exec(s);
                if self.squares[si].is_none() && square_complete_exec(&self.grid, &self.walls, s) {
                    self.squares[si] = Some(p);
                    awarded.push(s);
                    proof {
                        assert(completes(v0, w, s));
                    }
                } else {
                    proof {
                        assert(!completes(v0, w, s));
                    }
                }
            },
            None => {},
        }
        proof {
            assert(awarded@ =~= aw);
            assert forall|i: int| 0 <= i < v0.squares.len() implies self.squares@[i] == award_to(
                v0.squares,
                v0.grid,
                aw,
                p,
            )[i] by {
                if exists|k: int|
                    0 <= k < aw.len() && #[trigger] v0.grid.square_index(aw[k]) == i {
                    let k = choose|k: int|
                        0 <= k < aw.len() && #[trigger] v0.grid.square_index(aw[k]) == i;
                    assert(aw[k] == awarded@[k]);
                } else {
                    if aw.len() >= 1 {
                        assert(v0.grid.square_index(aw[0]) != i);
                    }
                    if aw.len() >= 2 {
                        assert(v0.grid.square_index(aw[1]) != i);
                    }
                }
            }
            assert(self.squares@ =~= award_to(v0.squares, v0.grid, aw, p));
        }
        if awarded.len() == 0 {
            self.current_player = p.other();
        }
        let finished = all_owned_vec(&self.squares);
        if finished {
            let win = winner_of(&self.squares);
            self.phase = Phase::Finished(win);
        }
        proof {
            assert(self@ =~= step_state(v0, w));
        }
        Ok(awarded)
    }
}

/// Whether all four walls of square `s` have an owner in `walls`.
fn square_complete_exec(grid: &Grid, walls: &Vec<Option<Player>>, s: SquareId) -> (b: bool)
    requires
        grid.wf(),
        walls@.len() == grid.wall_count(),
        grid.square_valid(s),
    ensures
        b == square_complete(*grid, walls@, s),
{
    proof {
        lemma_square_walls_valid(*grid, s);
        lemma_wall_index_bounds(*grid, grid.left_wall(s));
        lemma_wall_index_bounds(*grid, grid.top_wall(s));
        lemma_wall_index_bounds(*grid, grid.right_wall(s));
        lemma_wall_index_bounds(*grid, grid.bottom_wall(s));
    }
    let li = grid.wall_index_exec(grid.left_wall_exec(s));
    let ti = grid.wall_index_exec(grid.top_wall_exec(s));
    let ri = grid.wall_index_exec(grid.right_wall_exec(s));
    let bi = grid.wall_index_exec(grid.bottom_wall_exec(s));
    walls[li].is_some() && walls[ti].is_some() && walls[ri].is_some() && walls[bi].is_some()
}

/// Every square a move awards is one it completes; every square it
/// completes is awarded; the awarded squares are distinct, and at most
/// two.
pub proof fn lemma_awarded_squares(v: GameView, w: WallId)
    requires
        v.wf(),
        v.grid.wall_valid(w),
    ensures
        awarded_squares(v, w).len() <= 2,
        forall|k: int|
            0 <= k < awarded_squares(v, w).len() ==> completes(
                v,
                w,
                #[trigger] awarded_squares(v, w)[k],
            ),
        forall|s: SquareId| #[trigger] completes(v, w, s) ==> awarded_squares(v, w).contains(s),
        forall|k1: int, k2: int|
            0 <= k1 < k2 < awarded_squares(v, w).len() ==> awarded_squares(v, w)[k1]
                != awarded_squares(v, w)[k2],
{
    lemma_neighbors_valid(v.grid, w);
    let a = candidate_award(v, w, v.grid.square_before(w));
    let b = candidate_award(v, w, v.grid.square_after(w));
    let aw = awarded_squares(v, w);
    assert(aw == a + b);
    assert forall|s: SquareId| #[trigger] completes(v, w, s) implies aw.contains(s) by {
        lemma_adjacent_is_neighbor(v.grid, w, s);
        if v.grid.square_before(w) == Some(s) {
            assert(a[0] == s);
            assert(aw[0] == s);
        } else {
            assert(v.grid.square_after(w) == Some(s));
            assert(b[0] == s);
            assert(aw[a.len() as int] == s);
        }
    }
}

/// One move carries a well-formed state to a well-formed state: the
/// shared-wall bookkeeping, the square-completion rule, and the terminal
/// rule all survive every move, accepted or rejected.
pub proof fn lemma_step_preserves_wf(v: GameView, w: WallId)
    requires
        v.wf(),
        v.grid.wall_valid(w),
    ensures
        step_state(v, w).wf(),
{
    if step_result(v, w) is Err {
    } else {
        let g = v.grid;
        let p = v.current_player;
        let aw = awarded_squares(v, w);
        let wi = g.wall_index(w);
        let walls2 = v.walls.update(wi, Some(p));
        let squares2 = award_to(v.squares, g, aw, p);
        let v2 = step_state(v, w);
        lemma_wall_index_bounds(g, w);
        lemma_awarded_squares(v, w);
        assert forall|s: SquareId| g.square_valid(s) implies ((#[trigger] v2.square_owner(s))
            is Some <==> square_complete(g, walls2, s)) by {
            lemma_square_index_bounds(g, s);
            lemma_square_walls_valid(g, s);
            lemma_wall_index_bounds(g, g.left_wall(s));
            lemma_wall_index_bounds(g, g.top_wall(s));
            lemma_wall_index_bounds(g, g.right_wall(s));
            lemma_wall_index_bounds(g, g.bottom_wall(s));
            let si = g.square_index(s);
            assert(v2.square_owner(s) == squares2[si]);
            if exists|k: int| 0 <= k < aw.len() && #[trigger] g.square_index(aw[k]) == si {
                let k = choose|k: int|
                    0 <= k < aw.len() && #[trigger] g.square_index(aw[k]) == si;
                assert(completes(v, w, aw[k]));
                lemma_square_index_injective(g, aw[k], s);
                assert(completes(v, w, s));
            } else {
                assert(squares2[si] == v.squares[si]);
                if v.square_owner(s) is Some {
                    assert(square_complete(g, v.walls, s));
                    assert(square_complete(g, walls2, s));
                } else {
                    if square_complete(g, walls2, s) {
                        if completes(v, w, s) {
                            assert(aw.contains(s));
                            let k = choose|i: int| 0 <= i < aw.len() && aw[i] == s;
                            assert(g.square_index(aw[k]) == si);
                            assert(false);
                        }
                        if v.walls[g.wall_index(g.left_wall(s))] is None {
                            lemma_wall_index_injective(g, g.left_wall(s), w);
                            lemma_adjacency(g, s, w);
                            assert(false);
                        } else if v.walls[g.wall_index(g.top_wall(s))] is None {
                            lemma_wall_index_injective(g, g.top_wall(s), w);
                            lemma_adjacency(g, s, w);
                            assert(false);
                        } else if v.walls[g.wall_index(g.right_wall(s))] is None {
                            lemma_wall_index_injective(g, g.right_wall(s), w);
                            lemma_adjacency(g, s, w);
                            assert(false);
                        } else if v.walls[g.wall_index(g.bottom_wall(s))] is None {
                            lemma_wall_index_injective(g, g.bottom_wall(s), w);
                            lemma_adjacency(g, s, w);
                            assert(false);
                        } else {
                            assert(square_complete(g, v.walls, s));
                            assert(false);
                        }
                    }
                }
            }
        }
    }
}

/// Taking one more slot into view adds that slot's contribution to the
/// count.
proof fn lemma_count_take_step(squares: Seq<Option<Player>>, p: Player, i: int)
    requires
        0 <= i < squares.len(),
    ensures
        count_owned_by(squares.take(i + 1), p) == count_owned_by(squares.take(i), p) + (
        if squares[i] == Some(p) {
            1int
        } else {
            0int
        }),
{
    assert(squares.take(i + 1).drop_last() =~= squares.take(i));
    assert(squares.take(i + 1).last() == squares[i]);
}

/// How many squares player `p` owns in `squares`.
fn count_vec(squares: &Vec<Option<Player>>, p: Player) -> (n: usize)
    ensures
        n == count_owned_by(squares@, p),
        n <= squares@.len(),
{
    let mut n: usize = 0;
    let mut i: usize = 0;
    while i < squares.len()
        invariant
            i <= squares@.len(),
            n <= i,
            n == count_owned_by(squares@.take(i as int), p),
        decreases squares@.len() - i,
    {
        proof {
            lemma_count_take_step(squares@, p, i as int);
        }
        let owned = match squares[i] {
            Some(q) => q == p,
            None => false,
        };
        if owned {
            n = n + 1;
        }
        i = i + 1;
    }
    proof {
        assert(squares@.take(squares@.len() as int) =~= squares@);
    }
    n
}

/// Whether every square in `squares` has an owner.
fn all_owned_vec(squares: &Vec<Option<Player>>) -> (b: bool)
    ensures
        b == all_squares_owned(squares@),
{
    let mut i: usize = 0;
    while i < squares.len()
        invariant
            i <= squares@.len(),
            forall|j: int| 0 <= j < i ==> squares@[j] is Some,
        decreases squares@.len() - i,
    {
        if squares[i].is_none() {
            return false;
        }
        i = i + 1;
    }
    true
}

/// The winner by square counts in `squares`: strictly more squares wins,
/// equal counts tie.
fn winner_of(squares: &Vec<Option<Player>>) -> (win: Option<Player>)
    ensures
        win == outcome_of(squares@),
{
    let c1 = count_vec(squares, Player::One);
    let c2 = count_vec(squares, Player::Two);
    if c1 > c2 {
        Some(Player::One)
    } else if c2 > c1 {
        Some(Player::Two)
    } else {
        None
    }
}

} // verus!
