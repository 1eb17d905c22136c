//! The board model: pieces, positions, and the 10 x 9 grid.
//!
//! The mathematical view of a board is a sequence of 90 optional pieces,
//! cell `(r, c)` living at index `r * 9 + c`. Rows 0..=4 are Black's half,
//! rows 5..=9 are Red's half; the river runs between rows 4 and 5.

use vstd::prelude::*;

use crate::error::MoveError;

verus! {

/// One of the two players. Red moves first and owns the bottom half
/// (rows 5..=9); Black owns the top half (rows 0..=4).
#[derive(Clone, Copy, Debug, PartialEq, Eq, Structural)]
pub enum Side {
    Red,
    Black,
}

/// The seven piece kinds of Xiangqi.
#[derive(Clone, Copy, Debug, PartialEq, Eq, Structural)]
pub enum PieceKind {
    General,
    Advisor,
    Elephant,
    Horse,
    Chariot,
    Cannon,
    Soldier,
}

/// An immutable piece value: a kind together with its owner.
#[derive(Clone, Copy, Debug, PartialEq, Eq, Structural)]
pub struct Piece {
    pub kind: PieceKind,
    pub side: Side,
}

/// A cell address `(row, column)`. Values outside the grid can be written
/// down; whether they lie on the board is `in_bounds`.
#[derive(Clone, Copy, Debug, PartialEq, Eq, Structural)]
pub struct Position {
    pub row: u8,
    pub col: u8,
}

/// The opponent of `s`.
pub open spec fn opposite(s: Side) -> Side {
    match s {
        Side::Red => Side::Black,
        Side::Black => Side::Red,
    }
}

/// Whether `(r, c)` lies on the 10 x 9 grid.
pub open spec fn in_bounds(r: int, c: int) -> bool {
    0 <= r < 10 && 0 <= c < 9
}

/// The index of cell `(r, c)` in the board view.
pub open spec fn idx(r: int, c: int) -> int {
    r * 9 + c
}

/// The content of cell `(r, c)` of board view `b`.
pub open spec fn at(b: Seq<Option<Piece>>, r: int, c: int) -> Option<Piece>
    recommends
        b.len() == 90,
        in_bounds(r, c),
{
    b[idx(r, c)]
}

/// A board view of the right size.
pub open spec fn board_ok(b: Seq<Option<Piece>>) -> bool {
    b.len() == 90
}

/// Whether cell `(r, c)` holds a piece of side `s`.
pub open spec fn has_side_piece(b: Seq<Option<Piece>>, r: int, c: int, s: Side) -> bool {
    at(b, r, c) matches Some(p) && p.side == s
}

/// Whether `(r, c)` lies inside the palace of side `s`: the 3 x 3 box on
/// columns 3..=5, rows 7..=9 for Red and rows 0..=2 for Black.
pub open spec fn in_palace(s: Side, r: int, c: int) -> bool {
    3 <= c <= 5 && match s {
        Side::Red => 7 <= r <= 9,
        Side::Black => 0 <= r <= 2,
    }
}

/// Whether row `r` lies on side `s`'s own half of the river.
pub open spec fn on_own_side(s: Side, r: int) -> bool {
    match s {
        Side::Red => 5 <= r <= 9,
        Side::Black => 0 <= r <= 4,
    }
}

/// The row direction in which side `s`'s soldiers advance.
pub open spec fn forward(s: Side) -> int {
    match s {
        Side::Red => -1,
        Side::Black => 1,
    }
}

/// Whether a piece of side `s` standing on row `r` has crossed the river.
pub open spec fn crossed_river(s: Side, r: int) -> bool {
    !on_own_side(s, r)
}

/// Whether cell `(r, c)` holds the General of side `s`.
pub open spec fn general_at(b: Seq<Option<Piece>>, s: Side, r: int, c: int) -> bool {
    in_bounds(r, c) && at(b, r, c) == Some(
        Piece { kind: PieceKind::General, side: s },
    )
}

/// Side `s` has at least one General on the board.
pub open spec fn has_general(b: Seq<Option<Piece>>, s: Side) -> bool {
    exists|r: int, c: int| #[trigger] general_at(b, s, r, c)
}

/// Side `s` has at most one General on the board.
pub open spec fn unique_general(b: Seq<Option<Piece>>, s: Side) -> bool {
    forall|r1: int, c1: int, r2: int, c2: int|
        #[trigger] general_at(b, s, r1, c1) && #[trigger] general_at(b, s, r2, c2)
            ==> r1 == r2 && c1 == c2
}

/// Every General of side `s` stands inside its own palace.
pub open spec fn general_in_palace(b: Seq<Option<Piece>>, s: Side) -> bool {
    forall|r: int, c: int| #[trigger] general_at(b, s, r, c) ==> in_palace(s, r, c)
}

/// The board after moving the content of `(fr, fc)` onto `(tr, tc)`:
/// the destination takes the moved piece (capturing whatever stood there)
/// and the source becomes empty.
pub open spec fn apply_move_spec(
    b: Seq<Option<Piece>>,
    fr: int,
    fc: int,
    tr: int,
    tc: int,
) -> Seq<Option<Piece>>
    recommends
        board_ok(b),
        in_bounds(fr, fc),
        in_bounds(tr, tc),
        !(fr == tr && fc == tc),
{
    b.update(idx(tr, tc), at(b, fr, fc)).update(idx(fr, fc), None)
}

/// Distinct cells occupy distinct indices of the board view.
pub proof fn lemma_idx_injective(r1: int, c1: int, r2: int, c2: int)
    requires
        in_bounds(r1, c1),
        in_bounds(r2, c2),
        idx(r1, c1) == idx(r2, c2),
    ensures
        r1 == r2 && c1 == c2,
{
}

/// A cell's index recovers its row and column by division and remainder.
pub proof fn lemma_idx_decompose(r: int, c: int)
    requires
        in_bounds(r, c),
    ensures
        0 <= idx(r, c) < 90,
        idx(r, c) / 9 == r,
        idx(r, c) % 9 == c,
{
    assert(idx(r, c) / 9 == r && idx(r, c) % 9 == c) by (nonlinear_arith)
        requires
            0 <= r < 10 && 0 <= c < 9,
    ;
}

impl Position {
    /// Whether this position lies on the grid.
    pub open spec fn spec_in_bounds(&self) -> bool {
        in_bounds(self.row as int, self.col as int)
    }

    /// Runtime bounds test, equal to `spec_in_bounds`.
    #[verifier::when_used_as_spec(spec_in_bounds)]
    pub fn in_bounds(&self) -> (r: bool)
        ensures
            r == self.spec_in_bounds(),
    {
        self.row < 10 && self.col < 9
    }
}

impl Side {
    /// The opponent of this side, equal to `opposite`.
    pub fn other(self) -> (r: Side)
        ensures
            r == opposite(self),
    {
        match self {
            Side::Red => Side::Black,
            Side::Black => Side::Red,
        }
    }
}

/// The board: 90 cells, each empty or holding exactly one piece.
///
/// Cells are mutated only by the game state machine (through the crate-private
/// `set_cell` and `with_move`) and, for setting up studied positions, through
/// the bounds-checked `place`.
#[derive(Debug)]
pub struct Board {
    cells: Vec<Option<Piece>>,
}

impl View for Board {
    type V = Seq<Option<Piece>>;

    closed spec fn view(&self) -> Seq<Option<Piece>> {
        self.cells@
    }
}

impl Board {
    /// A well-formed board holds exactly 90 cells.
    pub open spec fn wf(self) -> bool {
        board_ok(self@)
    }

    /// An empty board: 90 empty cells.
    pub fn empty() -> (b: Board)
        ensures
            b.wf(),
            forall|i: int| 0 <= i < 90 ==> b@[i] is None,
    {
        let mut cells: Vec<Option<Piece>> = Vec::new();
        let mut i: usize = 0;
        while i < 90
            invariant
                i <= 90,
                cells@.len() == i,
                forall|j: int| 0 <= j < i ==> cells@[j] is None,
            decreases 90 - i,
        {
            cells.push(None);
            i = i + 1;
        }
        Board { cells }
    }

    /// The content of cell `(r, c)`; crate-internal, bounds given by contract.
    pub(crate) fn get(&self, r: u8, c: u8) -> (p: Option<Piece>)
        requires
            self.wf(),
            in_bounds(r as int, c as int),
        ensures
            p == at(self@, r as int, c as int),
    {
        self.cells[(r as usize) * 9 + (c as usize)]
    }

    /// Overwrites cell `(r, c)`; crate-internal, used by the state machine.
    pub(crate) fn set_cell(&mut self, r: u8, c: u8, p: Option<Piece>)
        requires
            old(self).wf(),
            in_bounds(r as int, c as int),
        ensures
            final(self)@ == old(self)@.update(idx(r as int, c as int), p),
            final(self).wf(),
    {
        self.cells.set((r as usize) * 9 + (c as usize), p);
    }

    /// Places `piece` (or clears the cell, for `None`) at `pos`, for setting
    /// up a position. Positions off the grid are rejected as `OutOfBounds`.
    pub fn place(&mut self, pos: Position, piece: Option<Piece>) -> (r: Result<(), MoveError>)
        requires
            old(self).wf(),
        ensures
            final(self).wf(),
            pos.spec_in_bounds() ==> r == Ok::<(), MoveError>(()) && final(self)@ == old(self)@.update(
                idx(pos.row as int, pos.col as int),
                piece,
            ),
            !pos.spec_in_bounds() ==> r == Err::<(), MoveError>(MoveError::OutOfBounds) && final(self)@
                == old(self)@,
    {
        if pos.in_bounds() {
            self.set_cell(pos.row, pos.col, piece);
            Ok(())
        } else {
            Err(MoveError::OutOfBounds)
        }
    }

    /// The piece at `pos`, or `None` for an empty cell. Positions off the
    /// grid are a programming error and are rejected as `OutOfBounds`.
    pub fn piece_at(&self, pos: Position) -> (r: Result<Option<Piece>, MoveError>)
        requires
            self.wf(),
        ensures
            pos.spec_in_bounds() ==> r == Ok::<Option<Piece>, MoveError>(
                at(self@, pos.row as int, pos.col as int),
            ),
            !pos.spec_in_bounds() ==> r == Err::<Option<Piece>, MoveError>(MoveError::OutOfBounds),
    {
        if pos.in_bounds() {
            Ok(self.get(pos.row, pos.col))
        } else {
            Err(MoveError::OutOfBounds)
        }
    }

    /// Whether the cell at `pos` is empty; `pos` must lie on the grid.
    pub fn is_empty(&self, pos: Position) -> (r: bool)
        requires
            self.wf(),
            pos.spec_in_bounds(),
        ensures
            r == (at(self@, pos.row as int, pos.col as int) is None),
    {
        self.get(pos.row, pos.col).is_none()
    }

    /// A copy of this board with the move `from -> to` applied; the board
    /// itself is left untouched. Crate-internal: the state machine uses it
    /// both to simulate and to commit moves.
    pub(crate) fn with_move(&self, from: Position, to: Position) -> (nb: Board)
        requires
            self.wf(),
            from.spec_in_bounds(),
            to.spec_in_bounds(),
            !(from.row == to.row && from.col == to.col),
        ensures
            nb.wf(),
            nb@ == apply_move_spec(
                self@,
                from.row as int,
                from.col as int,
                to.row as int,
                to.col as int,
            ),
    {
        let mut cells: Vec<Option<Piece>> = Vec::new();
        let mut i: usize = 0;
        while i < 90
            invariant
                self.wf(),
                i <= 90,
                cells@.len() == i,
                forall|j: int| 0 <= j < i ==> cells@[j] == self@[j],
            decreases 90 - i,
        {
            cells.push(self.cells[i]);
            i = i + 1;
        }
        let mut nb = Board { cells };
        assert(nb@ =~= self@);
        let p = nb.get(from.row, from.col);
        nb.set_cell(to.row, to.col, p);
        nb.set_cell(from.row, from.col, None);
        nb
    }

    /// The position of side `side`'s General, scanning rows top to bottom.
    /// A board without that General is corrupted state and yields
    /// `InvariantViolation`.
    pub fn find_general(&self, side: Side) -> (r: Result<Position, MoveError>)
        requires
            self.wf(),
        ensures
            (r is Ok) == has_general(self@, side),
            r matches Ok(p) ==> general_at(self@, side, p.row as int, p.col as int)
                && forall|r2: int, c2: int|
                    #[trigger] general_at(self@, side, r2, c2)
                        ==> idx(p.row as int, p.col as int) <= idx(r2, c2),
            r is Err ==> r == Err::<Position, MoveError>(MoveError::InvariantViolation),
    {
        let mut row: u8 = 0;
        while row < 10
            invariant
                self.wf(),
                row <= 10,
                forall|r2: int, c2: int|
                    #[trigger] general_at(self@, side, r2, c2) ==> r2 >= row,
            decreases 10 - row,
        {
            let mut col: u8 = 0;
            while col < 9
                invariant
                    self.wf(),
                    row < 10,
                    col <= 9,
                    forall|r2: int, c2: int|
                        #[trigger] general_at(self@, side, r2, c2)
                            ==> r2 > row || (r2 == row && c2 >= col),
                decreases 9 - col,
            {
                match self.get(row, col) {
                    Some(p) => {
                        if p.kind == PieceKind::General && p.side == side {
                            let pos = Position { row, col };
                            assert(general_at(self@, side, pos.row as int, pos.col as int));
                            return Ok(pos);
                        }
                    },
                    None => {},
                }
                col = col + 1;
            }
            row = row + 1;
        }
        assert(forall|r2: int, c2: int| !(#[trigger] general_at(self@, side, r2, c2)));
        Err(MoveError::InvariantViolation)
    }
}

} // verus!
