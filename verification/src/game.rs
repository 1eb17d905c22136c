//! The game state machine: turns, move validation, and game-end detection.
//!
//! `attempt_move` is the single entry point through which a game advances.
//! Rule checks run in a fixed order (game over, bounds, turn, geometry,
//! self-check), so the reported error is the first violated rule; the board
//! is written only after every check has passed.

use vstd::prelude::*;

use crate::board::{
    apply_move_spec, at, board_ok, general_at, general_in_palace, has_general, has_side_piece,
    idx, in_bounds, in_palace, opposite, unique_general, Board, Piece, PieceKind, Position, Side,
};
use crate::check::{attacks_square, in_check, is_in_check, square_threatened};
use crate::error::MoveError;
use crate::rules::{is_pseudo_legal, pseudo_legal};

verus! {

/// A proposed transition, distinct from an applied move.
#[derive(Clone, Copy, Debug, PartialEq, Eq, Structural)]
pub struct Move {
    pub from: Position,
    pub to: Position,
}

/// The progress of a game. `Check`, `Checkmate` and `Stalemate` name the
/// side to move that is in check, mated, or out of moves.
#[derive(Clone, Copy, Debug, PartialEq, Eq, Structural)]
pub enum GameStatus {
    InProgress,
    Check(Side),
    Checkmate(Side),
    Stalemate,
}

/// A game in a terminal status accepts no further moves.
pub open spec fn terminal_status(st: GameStatus) -> bool {
    st is Checkmate || st is Stalemate
}

/// A fully legal move for side `s`: the source holds `s`'s piece, the move
/// is pseudo-legal, and it does not leave `s`'s own General in check.
pub open spec fn move_allowed(
    b: Seq<Option<Piece>>,
    s: Side,
    fr: int,
    fc: int,
    tr: int,
    tc: int,
) -> bool {
    &&& has_side_piece(b, fr, fc, s)
    &&& pseudo_legal(b, fr, fc, tr, tc)
    &&& !in_check(apply_move_spec(b, fr, fc, tr, tc), s)
}

/// The piece on `(fr, fc)` has at least one fully legal move for side `s`.
pub open spec fn from_has_move(b: Seq<Option<Piece>>, s: Side, fr: int, fc: int) -> bool {
    exists|tr: int, tc: int| #[trigger] move_allowed(b, s, fr, fc, tr, tc)
}

/// Side `s` has at least one fully legal move anywhere on the board.
pub open spec fn side_has_move(b: Seq<Option<Piece>>, s: Side) -> bool {
    exists|fr: int, fc: int| #[trigger] from_has_move(b, s, fr, fc)
}

/// The status of a position in which side `s` is to move: check and
/// checkmate when `s` stands in check, stalemate when it does not but has
/// no legal move either.
pub open spec fn next_status(b: Seq<Option<Piece>>, s: Side) -> GameStatus {
    if in_check(b, s) {
        if side_has_move(b, s) {
            GameStatus::Check(s)
        } else {
            GameStatus::Checkmate(s)
        }
    } else {
        if side_has_move(b, s) {
            GameStatus::InProgress
        } else {
            GameStatus::Stalemate
        }
    }
}

/// Side `s` owns exactly one General and keeps it inside its palace.
pub open spec fn side_generals_ok(b: Seq<Option<Piece>>, s: Side) -> bool {
    has_general(b, s) && unique_general(b, s) && general_in_palace(b, s)
}

/// The invariant of every reachable position: a 90-cell board, exactly one
/// General per side, each inside its palace, and the side that just moved
/// (the one not to move) not in check.
pub open spec fn position_wf(b: Seq<Option<Piece>>, stm: Side) -> bool {
    &&& board_ok(b)
    &&& side_generals_ok(b, Side::Red)
    &&& side_generals_ok(b, Side::Black)
    &&& !in_check(b, opposite(stm))
}

/// The error with which a proposed move is rejected, `None` when it is
/// accepted. The tests run in this fixed order: finished game, bounds,
/// whose turn, piece geometry, self-check.
pub open spec fn rejection(
    b: Seq<Option<Piece>>,
    s: Side,
    st: GameStatus,
    fr: int,
    fc: int,
    tr: int,
    tc: int,
) -> Option<MoveError> {
    if terminal_status(st) {
        Some(MoveError::GameOver)
    } else if !(in_bounds(fr, fc) && in_bounds(tr, tc)) {
        Some(MoveError::OutOfBounds)
    } else if !has_side_piece(b, fr, fc, s) {
        Some(MoveError::NotPlayersTurn)
    } else if !pseudo_legal(b, fr, fc, tr, tc) {
        Some(MoveError::IllegalGeometry)
    } else if in_check(apply_move_spec(b, fr, fc, tr, tc), s) {
        Some(MoveError::SelfCheck)
    } else {
        None
    }
}

/// Applying a legal move keeps the position well formed: both Generals
/// survive (the destination can never hold a General), the moved General,
/// if any, stays in its palace, and the mover is not in check afterwards.
pub proof fn lemma_move_preserves_position(
    b: Seq<Option<Piece>>,
    stm: Side,
    fr: int,
    fc: int,
    tr: int,
    tc: int,
)
    requires
        position_wf(b, stm),
        has_side_piece(b, fr, fc, stm),
        pseudo_legal(b, fr, fc, tr, tc),
        !in_check(apply_move_spec(b, fr, fc, tr, tc), stm),
    ensures
        position_wf(apply_move_spec(b, fr, fc, tr, tc), opposite(stm)),
{
    let b2 = apply_move_spec(b, fr, fc, tr, tc);
    let p = at(b, fr, fc)->Some_0;
    let opp = opposite(stm);
    let moved_gen = p.kind == PieceKind::General;
    assert(opposite(opp) == stm);
    assert(idx(fr, fc) != idx(tr, tc)) by {
        if idx(fr, fc) == idx(tr, tc) {
            crate::board::lemma_idx_injective(fr, fc, tr, tc);
        }
    }

    // Only the source and destination cells change.
    assert forall|r: int, c: int| in_bounds(r, c) implies #[trigger] at(b2, r, c) == (if r == tr
        && c == tc {
        Some(p)
    } else if r == fr && c == fc {
        None::<Piece>
    } else {
        at(b, r, c)
    }) by {
        if !(r == tr && c == tc) && idx(r, c) == idx(tr, tc) {
            crate::board::lemma_idx_injective(r, c, tr, tc);
        }
        if !(r == fr && c == fc) && idx(r, c) == idx(fr, fc) {
            crate::board::lemma_idx_injective(r, c, fr, fc);
        }
    }

    // The destination holds no General before the move: not the mover's,
    // because a friendly piece may not be captured, and not the opponent's,
    // because that General would already stand in check, which the
    // invariant excludes.
    assert(!(at(b, tr, tc) matches Some(q) && q.kind == PieceKind::General)) by {
        if at(b, tr, tc) is Some && at(b, tr, tc)->Some_0.kind == PieceKind::General {
            let q = at(b, tr, tc)->Some_0;
            assert(q.side != stm);
            assert(q.side == opp);
            assert(general_at(b, opp, tr, tc));
            assert(has_side_piece(b, fr, fc, stm) && in_bounds(fr, fc));
            assert(attacks_square(b, stm, tr, tc));
            assert(square_threatened(b, stm, tr, tc));
            assert(in_check(b, opp));
        }
    }

    // Where each General of the new board comes from.
    assert forall|sid: Side, r: int, c: int| #[trigger] general_at(b2, sid, r, c) implies ((r == tr
        && c == tc && moved_gen && sid == stm) || (general_at(b, sid, r, c) && !(r == fr && c
        == fc) && !(r == tr && c == tc))) by {
        assert(at(b2, r, c) == Some(Piece { kind: PieceKind::General, side: sid }));
    }

    // Every General that did not move is still where it was.
    assert forall|sid: Side, r: int, c: int|
        #[trigger] general_at(b, sid, r, c) && !(r == fr && c == fc) implies general_at(
        b2,
        sid,
        r,
        c,
    ) by {
        assert(!(r == tr && c == tc));
        assert(at(b2, r, c) == at(b, r, c));
    }

    if moved_gen {
        assert(p == Piece { kind: PieceKind::General, side: stm });
        assert(general_at(b2, stm, tr, tc));
        assert(in_palace(stm, tr, tc));
        assert(general_at(b, stm, fr, fc));
    }

    assert forall|sid: Side| #[trigger] side_generals_ok(b2, sid) by {
        if moved_gen && sid == stm {
            assert(has_general(b2, sid));
        } else {
            let (gr, gc) = choose|gr: int, gc: int| #[trigger] general_at(b, sid, gr, gc);
            assert(general_at(b, sid, gr, gc));
            assert(!(gr == fr && gc == fc));
            assert(general_at(b2, sid, gr, gc));
            assert(has_general(b2, sid));
        }
        assert(unique_general(b2, sid));
        assert(general_in_palace(b2, sid));
    }
    assert(side_generals_ok(b2, Side::Red));
    assert(side_generals_ok(b2, Side::Black));
}

/// Decides `move_allowed` at runtime: ownership, geometry, then a check
/// test on a scratch board.
fn move_allowed_exec(board: &Board, s: Side, from: Position, to: Position) -> (res: bool)
    requires
        board.wf(),
        from.spec_in_bounds(),
        to.spec_in_bounds(),
    ensures
        res == move_allowed(
            board@,
            s,
            from.row as int,
            from.col as int,
            to.row as int,
            to.col as int,
        ),
{
    let owns = match board.get(from.row, from.col) {
        Some(p) => p.side == s,
        None => false,
    };
    if !owns {
        return false;
    }
    if !is_pseudo_legal(board, from, to) {
        return false;
    }
    let scratch = board.with_move(from, to);
    !is_in_check(&scratch, s)
}

/// Decides `from_has_move` by scanning every destination cell.
fn from_has_move_exec(board: &Board, s: Side, from: Position) -> (res: bool)
    requires
        board.wf(),
        from.spec_in_bounds(),
    ensures
        res == from_has_move(board@, s, from.row as int, from.col as int),
{
    let mut row: u8 = 0;
    while row < 10
        invariant
            board.wf(),
            from.spec_in_bounds(),
            row <= 10,
            forall|r2: int, c2: int|
                0 <= r2 < row && 0 <= c2 < 9 ==> !(#[trigger] move_allowed(
                    board@,
                    s,
                    from.row as int,
                    from.col as int,
                    r2,
                    c2,
                )),
        decreases 10 - row,
    {
        let mut col: u8 = 0;
        while col < 9
            invariant
                board.wf(),
                from.spec_in_bounds(),
                row < 10,
                col <= 9,
                forall|r2: int, c2: int|
                    0 <= r2 < 10 && 0 <= c2 < 9 && (r2 < row || (r2 == row && c2 < col)) ==> !(
                    #[trigger] move_allowed(
                        board@,
                        s,
                        from.row as int,
                        from.col as int,
                        r2,
                        c2,
                    )),
            decreases 9 - col,
        {
            if move_allowed_exec(board, s, from, Position { row, col }) {
                return true;
            }
            col = col + 1;
        }
        row = row + 1;
    }
    false
}

/// Decides `side_has_move` by scanning every source cell.
fn side_has_move_exec(board: &Board, s: Side) -> (res: bool)
    requires
        board.wf(),
    ensures
        res == side_has_move(board@, s),
{
    let mut row: u8 = 0;
    while row < 10
        invariant
            board.wf(),
            row <= 10,
            forall|r2: int, c2: int|
                0 <= r2 < row && 0 <= c2 < 9 ==> !(#[trigger] from_has_move(board@, s, r2, c2)),
        decreases 10 - row,
    {
        let mut col: u8 = 0;
        while col < 9
            invariant
                board.wf(),
                row < 10,
                col <= 9,
                forall|r2: int, c2: int|
                    0 <= r2 < 10 && 0 <= c2 < 9 && (r2 < row || (r2 == row && c2 < col)) ==> !(
                    #[trigger] from_has_move(board@, s, r2, c2)),
            decreases 9 - col,
        {
            if from_has_move_exec(board, s, Position { row, col }) {
                return true;
            }
            col = col + 1;
        }
        row = row + 1;
    }
    false
}

/// Computes the status of a position with side `s` to move, exactly as
/// `next_status` states it.
fn compute_status(board: &Board, s: Side) -> (st: GameStatus)
    requires
        board.wf(),
    ensures
        st == next_status(board@, s),
{
    let checked = is_in_check(board, s);
    let any = side_has_move_exec(board, s);
    if checked {
        if any {
            GameStatus::Check(s)
        } else {
            GameStatus::Checkmate(s)
        }
    } else {
        if any {
            GameStatus::InProgress
        } else {
            GameStatus::Stalemate
        }
    }
}

/// A copy of a move list.
fn copied_history(h: &Vec<Move>) -> (r: Vec<Move>)
    ensures
        r@ == h@,
{
    let mut r: Vec<Move> = Vec::new();
    let mut i: usize = 0;
    while i < h.len()
        invariant
            i <= h@.len(),
            r@.len() == i,
            forall|j: int| 0 <= j < i ==> r@[j] == h@[j],
        decreases h@.len() - i,
    {
        r.push(h[i]);
        i = i + 1;
    }
    assert(r@ =~= h@);
    r
}

/// Checks that side `s` has exactly one General and that it stands in its
/// palace.
fn side_generals_ok_exec(board: &Board, s: Side) -> (res: bool)
    requires
        board.wf(),
    ensures
        res == side_generals_ok(board@, s),
{
    let mut found: Option<Position> = None;
    let mut row: u8 = 0;
    while row < 10
        invariant
            board.wf(),
            row <= 10,
            found is None ==> forall|r2: int, c2: int|
                0 <= r2 < row && 0 <= c2 < 9 ==> !(#[trigger] general_at(board@, s, r2, c2)),
            found matches Some(q) ==> general_at(board@, s, q.row as int, q.col as int)
                && (q.row as int) < row && forall|r2: int, c2: int|
                0 <= r2 < row && 0 <= c2 < 9 && #[trigger] general_at(board@, s, r2, c2)
                    ==> r2 == q.row as int && c2 == q.col as int,
        decreases 10 - row,
    {
        let mut col: u8 = 0;
        while col < 9
            invariant
                board.wf(),
                row < 10,
                col <= 9,
                found is None ==> forall|r2: int, c2: int|
                    0 <= r2 < 10 && 0 <= c2 < 9 && (r2 < row || (r2 == row && c2 < col)) ==> !(
                    #[trigger] general_at(board@, s, r2, c2)),
                found matches Some(q) ==> general_at(board@, s, q.row as int, q.col as int)
                    && ((q.row as int) < row || (q.row as int == row && (q.col as int) < col))
                    && forall|r2: int, c2: int|
                    0 <= r2 < 10 && 0 <= c2 < 9 && (r2 < row || (r2 == row && c2 < col))
                        && #[trigger] general_at(board@, s, r2, c2) ==> r2 == q.row as int && c2
                        == q.col as int,
            decreases 9 - col,
        {
            match board.get(row, col) {
                Some(p) => {
                    if p.kind == PieceKind::General && p.side == s {
                        assert(general_at(board@, s, row as int, col as int));
                        match found {
                            Some(q) => {
                                // a second General: uniqueness fails
                                assert(!unique_general(board@, s));
                                return false;
                            },
                            None => {
                                found = Some(Position { row, col });
                            },
                        }
                    }
                },
                None => {},
            }
            col = col + 1;
        }
        row = row + 1;
    }
    match found {
        Some(q) => {
            let palace_ok = 3 <= q.col && q.col <= 5 && (match s {
                Side::Red => 7 <= q.row && q.row <= 9,
                Side::Black => q.row <= 2,
            });
            assert(palace_ok == in_palace(s, q.row as int, q.col as int));
            if palace_ok {
                assert(has_general(board@, s));
                assert(unique_general(board@, s));
                assert(general_in_palace(board@, s));
                true
            } else {
                assert(!general_in_palace(board@, s));
                false
            }
        },
        None => {
            assert(!has_general(board@, s));
            false
        },
    }
}

/// A fresh game: the canonical starting position, Red to move, status
/// `InProgress`, empty history.
pub fn new_game() -> (g: GameState)
    ensures
        g.wf(),
        g.spec_board() == crate::start::start_board(),
        g.spec_side_to_move() == Side::Red,
        g.spec_status() == GameStatus::InProgress,
        g.spec_history() == Seq::<Move>::empty(),
{
    let board = crate::start::starting_board();
    proof {
        crate::start::lemma_start_position_wf();
    }
    let g = GameState {
        board,
        side_to_move: Side::Red,
        status: GameStatus::InProgress,
        history: Vec::new(),
    };
    assert(g.spec_history() =~= Seq::<Move>::empty());
    g
}

/// One game: board, side to move, status, and the log of applied moves.
/// It is created by `new_game` or `from_position` and advances only
/// through `attempt_move`.
#[derive(Debug)]
pub struct GameState {
    board: Board,
    side_to_move: Side,
    status: GameStatus,
    history: Vec<Move>,
}

impl GameState {
    /// The board view of this state.
    pub closed spec fn spec_board(self) -> Seq<Option<Piece>> {
        self.board@
    }

    /// The side whose turn it is.
    pub closed spec fn spec_side_to_move(self) -> Side {
        self.side_to_move
    }

    /// The recorded status.
    pub closed spec fn spec_status(self) -> GameStatus {
        self.status
    }

    /// The log of applied moves, oldest first.
    pub closed spec fn spec_history(self) -> Seq<Move> {
        self.history@
    }

    /// The reachable-state invariant.
    pub open spec fn wf(self) -> bool {
        position_wf(self.spec_board(), self.spec_side_to_move())
    }

    /// The board of this game, read-only.
    pub fn board(&self) -> (b: &Board)
        ensures
            b@ == self.spec_board(),
    {
        &self.board
    }

    /// The side whose turn it is.
    pub fn side_to_move(&self) -> (s: Side)
        ensures
            s == self.spec_side_to_move(),
    {
        self.side_to_move
    }

    /// The current status.
    pub fn status(&self) -> (st: GameStatus)
        ensures
            st == self.spec_status(),
    {
        self.status
    }

    /// The ordered log of applied moves, read-only.
    pub fn history(&self) -> (h: &Vec<Move>)
        ensures
            h@ == self.spec_history(),
    {
        &self.history
    }

    /// Builds a game from an arbitrary position with `side_to_move` to
    /// move and an empty history. A position that breaks the
    /// reachable-state invariant (a missing or duplicated General, a
    /// General outside its palace, or the waiting side already in check)
    /// is rejected as `InvariantViolation`.
    pub fn from_position(board: Board, side_to_move: Side) -> (r: Result<GameState, MoveError>)
        requires
            board.wf(),
        ensures
            (r is Ok) == position_wf(board@, side_to_move),
            r matches Ok(s) ==> s.wf() && s.spec_board() == board@ && s.spec_side_to_move()
                == side_to_move && s.spec_status() == next_status(board@, side_to_move)
                && s.spec_history() == Seq::<Move>::empty(),
            r is Err ==> r == Err::<GameState, MoveError>(MoveError::InvariantViolation),
    {
        if !side_generals_ok_exec(&board, Side::Red) {
            return Err(MoveError::InvariantViolation);
        }
        if !side_generals_ok_exec(&board, Side::Black) {
            return Err(MoveError::InvariantViolation);
        }
        if is_in_check(&board, side_to_move.other()) {
            return Err(MoveError::InvariantViolation);
        }
        let status = compute_status(&board, side_to_move);
        let s = GameState { board, side_to_move, status, history: Vec::new() };
        assert(s.spec_history() =~= Seq::<Move>::empty());
        Ok(s)
    }

    /// The single operation that advances a game.
    ///
    /// The state itself is never mutated: on success the new state is
    /// returned, with the move applied, the turn flipped, the move
    /// appended to the history, and the status recomputed for the new
    /// side to move. On failure the error names the first violated rule,
    /// in the fixed order that `rejection` states.
    ///
    /// Two laws of every accepted move are part of the contract: the new
    /// state again satisfies the invariant `wf` (in particular both sides
    /// still own exactly one General), and the mover's own General is not
    /// in check afterwards.
    pub fn attempt_move(&self, mv: Move) -> (r: Result<GameState, MoveError>)
        requires
            self.wf(),
        ensures
            ({
                let rej = rejection(
                    self.spec_board(),
                    self.spec_side_to_move(),
                    self.spec_status(),
                    mv.from.row as int,
                    mv.from.col as int,
                    mv.to.row as int,
                    mv.to.col as int,
                );
                &&& (rej matches Some(e) ==> r == Err::<GameState, MoveError>(e))
                &&& ((rej is None) == (r is Ok))
            }),
            r matches Ok(ns) ==> ({
                let b2 = apply_move_spec(
                    self.spec_board(),
                    mv.from.row as int,
                    mv.from.col as int,
                    mv.to.row as int,
                    mv.to.col as int,
                );
                &&& ns.wf()
                &&& ns.spec_board() == b2
                &&& ns.spec_side_to_move() == opposite(self.spec_side_to_move())
                &&& ns.spec_status() == next_status(b2, opposite(self.spec_side_to_move()))
                &&& ns.spec_history() == self.spec_history().push(mv)
                &&& !in_check(b2, self.spec_side_to_move())
            }),
    {
        match self.status {
            GameStatus::Checkmate(_) => {
                return Err(MoveError::GameOver);
            },
            GameStatus::Stalemate => {
                return Err(MoveError::GameOver);
            },
            _ => {},
        }
        if !mv.from.in_bounds() || !mv.to.in_bounds() {
            return Err(MoveError::OutOfBounds);
        }
        let owns = match self.board.get(mv.from.row, mv.from.col) {
            Some(p) => p.side == self.side_to_move,
            None => false,
        };
        if !owns {
            return Err(MoveError::NotPlayersTurn);
        }
        if !is_pseudo_legal(&self.board, mv.from, mv.to) {
            return Err(MoveError::IllegalGeometry);
        }
        let next_board = self.board.with_move(mv.from, mv.to);
        if is_in_check(&next_board, self.side_to_move) {
            return Err(MoveError::SelfCheck);
        }
        proof {
            lemma_move_preserves_position(
                self.spec_board(),
                self.spec_side_to_move(),
                mv.from.row as int,
                mv.from.col as int,
                mv.to.row as int,
                mv.to.col as int,
            );
        }
        let next_side = self.side_to_move.other();
        let status = compute_status(&next_board, next_side);
        let mut history = copied_history(&self.history);
        history.push(mv);
        Ok(GameState { board: next_board, side_to_move: next_side, status, history })
    }

    /// Every fully legal destination of the piece on `from`, for the side
    /// to move: the list holds exactly the cells `to` with
    /// `move_allowed`, each once. It is empty when `from` is off the
    /// grid, empty, or holds an opposing piece.
    pub fn legal_destinations(&self, from: Position) -> (dests: Vec<Position>)
        requires
            self.wf(),
        ensures
            forall|i: int|
                0 <= i < dests@.len() ==> move_allowed(
                    self.spec_board(),
                    self.spec_side_to_move(),
                    from.row as int,
                    from.col as int,
                    (#[trigger] dests@[i]).row as int,
                    dests@[i].col as int,
                ),
            forall|tr: int, tc: int|
                #[trigger] move_allowed(
                    self.spec_board(),
                    self.spec_side_to_move(),
                    from.row as int,
                    from.col as int,
                    tr,
                    tc,
                ) ==> exists|i: int|
                    0 <= i < dests@.len() && dests@[i] == (Position { row: tr as u8, col: tc as u8 }),
            forall|i: int, j: int| 0 <= i < j < dests@.len() ==> dests@[i] != dests@[j],
    {
        let mut dests: Vec<Position> = Vec::new();
        if !from.in_bounds() {
            return dests;
        }
        let mut row: u8 = 0;
        while row < 10
            invariant
                self.wf(),
                from.spec_in_bounds(),
                row <= 10,
                forall|i: int|
                    0 <= i < dests@.len() ==> move_allowed(
                        self.spec_board(),
                        self.spec_side_to_move(),
                        from.row as int,
                        from.col as int,
                        (#[trigger] dests@[i]).row as int,
                        dests@[i].col as int,
                    ),
                forall|i: int|
                    0 <= i < dests@.len() ==> (#[trigger] dests@[i]).row < row,
                forall|r2: int, c2: int|
                    0 <= r2 < row && 0 <= c2 < 9 && #[trigger] move_allowed(
                        self.spec_board(),
                        self.spec_side_to_move(),
                        from.row as int,
                        from.col as int,
                        r2,
                        c2,
                    ) ==> exists|i: int|
                        0 <= i < dests@.len() && dests@[i] == (Position {
                            row: r2 as u8,
                            col: c2 as u8,
                        }),
                forall|i: int, j: int| 0 <= i < j < dests@.len() ==> dests@[i] != dests@[j],
            decreases 10 - row,
        {
            let mut col: u8 = 0;
            while col < 9
                invariant
                    self.wf(),
                    from.spec_in_bounds(),
                    row < 10,
                    col <= 9,
                    forall|i: int|
                        0 <= i < dests@.len() ==> move_allowed(
                            self.spec_board(),
                            self.spec_side_to_move(),
                            from.row as int,
                            from.col as int,
                            (#[trigger] dests@[i]).row as int,
                            dests@[i].col as int,
                        ),
                    forall|i: int|
                        0 <= i < dests@.len() ==> (#[trigger] dests@[i]).row < row || (
                        dests@[i].row == row && dests@[i].col < col),
                    forall|r2: int, c2: int|
                        0 <= r2 < 10 && 0 <= c2 < 9 && (r2 < row || (r2 == row && c2 < col))
                            && #[trigger] move_allowed(
                            self.spec_board(),
                            self.spec_side_to_move(),
                            from.row as int,
                            from.col as int,
                            r2,
                            c2,
                        ) ==> exists|i: int|
                            0 <= i < dests@.len() && dests@[i] == (Position {
                                row: r2 as u8,
                                col: c2 as u8,
                            }),
                    forall|i: int, j: int| 0 <= i < j < dests@.len() ==> dests@[i] != dests@[j],
                decreases 9 - col,
            {
                if move_allowed_exec(&self.board, self.side_to_move, from, Position { row, col }) {
                    let ghost prev = dests@;
                    dests.push(Position { row, col });
                    proof {
                        assert(dests@[prev.len() as int] == (Position { row, col }));
                        assert(forall|j: int| 0 <= j < prev.len() ==> dests@[j] == prev[j]);
                        assert forall|r2: int, c2: int|
                            0 <= r2 < 10 && 0 <= c2 < 9 && (r2 < row || (r2 == row && c2 < col
                                + 1)) && #[trigger] move_allowed(
                                self.spec_board(),
                                self.spec_side_to_move(),
                                from.row as int,
                                from.col as int,
                                r2,
                                c2,
                            ) implies exists|i: int|
                                0 <= i < dests@.len() && dests@[i] == (Position {
                                    row: r2 as u8,
                                    col: c2 as u8,
                                }) by {
                            if r2 == row as int && c2 == col as int {
                                assert(dests@[prev.len() as int] == (Position {
                                    row: r2 as u8,
                                    col: c2 as u8,
                                }));
                            } else {
                                let i = choose|i: int|
                                    0 <= i < prev.len() && prev[i] == (Position {
                                        row: r2 as u8,
                                        col: c2 as u8,
                                    });
                                assert(dests@[i] == (Position { row: r2 as u8, col: c2 as u8 }));
                            }
                        }
                    }
                }
                col = col + 1;
            }
            row = row + 1;
        }
        dests
    }
}

} // verus!
