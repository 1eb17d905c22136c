//! The move generator: per-piece pseudo-legal movement rules.
//!
//! A move is pseudo-legal when it is geometrically legal for the moving
//! piece, ignoring whether the mover's own General would be left in check.
//! The check detector and the state machine build on these predicates.

use vstd::math::{abs, max, min};
use vstd::prelude::*;

use crate::board::{
    at, crossed_river, forward, in_bounds, in_palace, on_own_side, Board, Piece, PieceKind,
    Position, Side,
};

verus! {

/// The number of occupied cells `(r, c)` with `lo < c < hi`.
pub open spec fn count_row_between(b: Seq<Option<Piece>>, r: int, lo: int, hi: int) -> int
    decreases hi - lo,
{
    if hi - lo <= 1 {
        0
    } else {
        count_row_between(b, r, lo, hi - 1) + if at(b, r, hi - 1) is Some {
            1int
        } else {
            0int
        }
    }
}

/// The number of occupied cells `(r, c)` with `lo < r < hi`.
pub open spec fn count_col_between(b: Seq<Option<Piece>>, c: int, lo: int, hi: int) -> int
    decreases hi - lo,
{
    if hi - lo <= 1 {
        0
    } else {
        count_col_between(b, c, lo, hi - 1) + if at(b, hi - 1, c) is Some {
            1int
        } else {
            0int
        }
    }
}

/// The number of pieces strictly between two cells on a shared rank or file.
pub open spec fn between_count(b: Seq<Option<Piece>>, fr: int, fc: int, tr: int, tc: int) -> int
    recommends
        fr == tr || fc == tc,
{
    if fr == tr {
        count_row_between(b, fr, min(fc, tc), max(fc, tc))
    } else {
        count_col_between(b, fc, min(fr, tr), max(fr, tr))
    }
}

/// General: one orthogonal step, staying inside its own palace.
pub open spec fn general_rule(s: Side, fr: int, fc: int, tr: int, tc: int) -> bool {
    in_palace(s, tr, tc) && abs(tr - fr) + abs(tc - fc) == 1
}

/// Advisor: one diagonal step, staying inside its own palace.
pub open spec fn advisor_rule(s: Side, fr: int, fc: int, tr: int, tc: int) -> bool {
    in_palace(s, tr, tc) && abs(tr - fr) == 1 && abs(tc - fc) == 1
}

/// Elephant: two diagonal steps with an empty midpoint, never crossing
/// the river.
pub open spec fn elephant_rule(
    b: Seq<Option<Piece>>,
    s: Side,
    fr: int,
    fc: int,
    tr: int,
    tc: int,
) -> bool {
    &&& abs(tr - fr) == 2
    &&& abs(tc - fc) == 2
    &&& on_own_side(s, tr)
    &&& at(b, (fr + tr) / 2, (fc + tc) / 2) is None
}

/// Horse: an L-shaped step whose adjacent cell on the long leg is empty;
/// diagonal occupancy does not block.
pub open spec fn horse_rule(b: Seq<Option<Piece>>, fr: int, fc: int, tr: int, tc: int) -> bool {
    ||| (abs(tr - fr) == 2 && abs(tc - fc) == 1 && at(b, (fr + tr) / 2, fc) is None)
    ||| (abs(tr - fr) == 1 && abs(tc - fc) == 2 && at(b, fr, (fc + tc) / 2) is None)
}

/// Chariot: any number of steps along a rank or file with nothing between.
pub open spec fn chariot_rule(b: Seq<Option<Piece>>, fr: int, fc: int, tr: int, tc: int) -> bool {
    (fr == tr || fc == tc) && between_count(b, fr, fc, tr, tc) == 0
}

/// Cannon: moves like a chariot onto an empty cell; captures by jumping
/// exactly one screen along the line.
pub open spec fn cannon_rule(b: Seq<Option<Piece>>, fr: int, fc: int, tr: int, tc: int) -> bool {
    &&& (fr == tr || fc == tc)
    &&& if at(b, tr, tc) is None {
        between_count(b, fr, fc, tr, tc) == 0
    } else {
        between_count(b, fr, fc, tr, tc) == 1
    }
}

/// Soldier: one step straight forward; after crossing the river, also one
/// step sideways. Never backward, never diagonal.
pub open spec fn soldier_rule(s: Side, fr: int, fc: int, tr: int, tc: int) -> bool {
    if crossed_river(s, fr) {
        (tr == fr + forward(s) && tc == fc) || (tr == fr && abs(tc - fc) == 1)
    } else {
        tr == fr + forward(s) && tc == fc
    }
}

/// The movement rule of piece `p` standing on `(fr, fc)`, for destination
/// `(tr, tc)`.
pub open spec fn piece_rule(
    b: Seq<Option<Piece>>,
    p: Piece,
    fr: int,
    fc: int,
    tr: int,
    tc: int,
) -> bool {
    match p.kind {
        PieceKind::General => general_rule(p.side, fr, fc, tr, tc),
        PieceKind::Advisor => advisor_rule(p.side, fr, fc, tr, tc),
        PieceKind::Elephant => elephant_rule(b, p.side, fr, fc, tr, tc),
        PieceKind::Horse => horse_rule(b, fr, fc, tr, tc),
        PieceKind::Chariot => chariot_rule(b, fr, fc, tr, tc),
        PieceKind::Cannon => cannon_rule(b, fr, fc, tr, tc),
        PieceKind::Soldier => soldier_rule(p.side, fr, fc, tr, tc),
    }
}

/// A pseudo-legal move on board `b`: both cells on the grid, a piece on the
/// source, no friendly piece on the destination, and the piece's own rule
/// satisfied. Whether the mover's General is left in check is not considered
/// here.
pub open spec fn pseudo_legal(b: Seq<Option<Piece>>, fr: int, fc: int, tr: int, tc: int) -> bool {
    &&& in_bounds(fr, fc)
    &&& in_bounds(tr, tc)
    &&& !(fr == tr && fc == tc)
    &&& at(b, fr, fc) matches Some(p) && !(at(b, tr, tc) matches Some(q) && q.side == p.side)
        && piece_rule(b, p, fr, fc, tr, tc)
}

/// The absolute difference of two cell coordinates.
fn diff(a: u8, b: u8) -> (d: u8)
    requires
        a < 10,
        b < 10,
    ensures
        d as int == abs(a as int - b as int),
{
    if a >= b {
        a - b
    } else {
        b - a
    }
}

/// Runtime test for `in_palace`.
fn in_palace_exec(s: Side, r: u8, c: u8) -> (res: bool)
    ensures
        res == in_palace(s, r as int, c as int),
{
    3 <= c && c <= 5 && match s {
        Side::Red => 7 <= r && r <= 9,
        Side::Black => r <= 2,
    }
}

/// Runtime test for `on_own_side`.
fn on_own_side_exec(s: Side, r: u8) -> (res: bool)
    ensures
        res == on_own_side(s, r as int),
{
    match s {
        Side::Red => 5 <= r && r <= 9,
        Side::Black => r <= 4,
    }
}

/// Counts the occupied cells of row `r` strictly between columns `lo` and
/// `hi`.
fn count_row_exec(board: &Board, r: u8, lo: u8, hi: u8) -> (n: u8)
    requires
        board.wf(),
        r < 10,
        lo <= hi < 9,
    ensures
        n as int == count_row_between(board@, r as int, lo as int, hi as int),
{
    if hi <= lo + 1 {
        return 0;
    }
    let mut n: u8 = 0;
    let mut c: u8 = lo + 1;
    while c < hi
        invariant
            board.wf(),
            r < 10,
            lo + 1 <= c <= hi < 9,
            n <= c - lo - 1,
            n as int == count_row_between(board@, r as int, lo as int, c as int),
        decreases hi - c,
    {
        if board.get(r, c).is_some() {
            n = n + 1;
        }
        c = c + 1;
    }
    n
}

/// Counts the occupied cells of column `c` strictly between rows `lo` and
/// `hi`.
fn count_col_exec(board: &Board, c: u8, lo: u8, hi: u8) -> (n: u8)
    requires
        board.wf(),
        c < 9,
        lo <= hi < 10,
    ensures
        n as int == count_col_between(board@, c as int, lo as int, hi as int),
{
    if hi <= lo + 1 {
        return 0;
    }
    let mut n: u8 = 0;
    let mut r: u8 = lo + 1;
    while r < hi
        invariant
            board.wf(),
            c < 9,
            lo + 1 <= r <= hi < 10,
            n <= r - lo - 1,
            n as int == count_col_between(board@, c as int, lo as int, r as int),
        decreases hi - r,
    {
        if board.get(r, c).is_some() {
            n = n + 1;
        }
        r = r + 1;
    }
    n
}

/// Counts the pieces strictly between two cells on a shared rank or file.
pub(crate) fn between_count_exec(board: &Board, from: Position, to: Position) -> (n: u8)
    requires
        board.wf(),
        from.spec_in_bounds(),
        to.spec_in_bounds(),
        from.row == to.row || from.col == to.col,
    ensures
        n as int == between_count(
            board@,
            from.row as int,
            from.col as int,
            to.row as int,
            to.col as int,
        ),
{
    if from.row == to.row {
        let lo = if from.col <= to.col {
            from.col
        } else {
            to.col
        };
        let hi = if from.col <= to.col {
            to.col
        } else {
            from.col
        };
        count_row_exec(board, from.row, lo, hi)
    } else {
        let lo = if from.row <= to.row {
            from.row
        } else {
            to.row
        };
        let hi = if from.row <= to.row {
            to.row
        } else {
            from.row
        };
        count_col_exec(board, from.col, lo, hi)
    }
}

/// Decides pseudo-legality of the move `from -> to`, exactly as
/// `pseudo_legal` states it.
pub fn is_pseudo_legal(board: &Board, from: Position, to: Position) -> (res: bool)
    requires
        board.wf(),
        from.spec_in_bounds(),
        to.spec_in_bounds(),
    ensures
        res == pseudo_legal(board@, from.row as int, from.col as int, to.row as int, to.col as int),
{
    if from.row == to.row && from.col == to.col {
        return false;
    }
    let p = match board.get(from.row, from.col) {
        Some(p) => p,
        None => {
            return false;
        },
    };
    let dst = board.get(to.row, to.col);
    match dst {
        Some(q) => {
            if q.side == p.side {
                return false;
            }
        },
        None => {},
    }
    match p.kind {
        PieceKind::General => {
            in_palace_exec(p.side, to.row, to.col) && diff(from.row, to.row) + diff(
                from.col,
                to.col,
            ) == 1
        },
        PieceKind::Advisor => {
            in_palace_exec(p.side, to.row, to.col) && diff(from.row, to.row) == 1 && diff(
                from.col,
                to.col,
            ) == 1
        },
        PieceKind::Elephant => {
            diff(from.row, to.row) == 2 && diff(from.col, to.col) == 2 && on_own_side_exec(
                p.side,
                to.row,
            ) && board.get((from.row + to.row) / 2, (from.col + to.col) / 2).is_none()
        },
        PieceKind::Horse => {
            (diff(from.row, to.row) == 2 && diff(from.col, to.col) == 1 && board.get(
                (from.row + to.row) / 2,
                from.col,
            ).is_none()) || (diff(from.row, to.row) == 1 && diff(from.col, to.col) == 2
                && board.get(from.row, (from.col + to.col) / 2).is_none())
        },
        PieceKind::Chariot => {
            (from.row == to.row || from.col == to.col) && between_count_exec(board, from, to) == 0
        },
        PieceKind::Cannon => {
            (from.row == to.row || from.col == to.col) && {
                let n = between_count_exec(board, from, to);
                if dst.is_none() {
                    n == 0
                } else {
                    n == 1
                }
            }
        },
        PieceKind::Soldier => {
            let straight = to.col == from.col && (match p.side {
                Side::Red => to.row + 1 == from.row,
                Side::Black => from.row + 1 == to.row,
            });
            if on_own_side_exec(p.side, from.row) {
                straight
            } else {
                straight || (to.row == from.row && diff(from.col, to.col) == 1)
            }
        },
    }
}

/// A Soldier that has not crossed the river moves only one step straight
/// forward: never backward, never sideways, and never more than one row,
/// so a single move cannot skip past the river.
pub proof fn lemma_soldier_before_river(
    b: Seq<Option<Piece>>,
    s: Side,
    fr: int,
    fc: int,
    tr: int,
    tc: int,
)
    requires
        at(b, fr, fc) == Some(Piece { kind: PieceKind::Soldier, side: s }),
        !crossed_river(s, fr),
        pseudo_legal(b, fr, fc, tr, tc),
    ensures
        tr == fr + forward(s),
        tc == fc,
{
}

/// An Elephant's destinations always exclude a diagonal path whose midpoint
/// is occupied, and never lie across the river.
pub proof fn lemma_elephant_midpoint_clear(
    b: Seq<Option<Piece>>,
    s: Side,
    fr: int,
    fc: int,
    tr: int,
    tc: int,
)
    requires
        at(b, fr, fc) == Some(Piece { kind: PieceKind::Elephant, side: s }),
        pseudo_legal(b, fr, fc, tr, tc),
    ensures
        at(b, (fr + tr) / 2, (fc + tc) / 2) is None,
        on_own_side(s, tr),
{
}

/// A Cannon standing on `(fr, fc)` may capture the piece on `(tr, tc)`
/// exactly when the two cells share a rank or file and exactly one piece
/// stands strictly between them; zero or two or more screens make the
/// capture illegal.
pub proof fn lemma_cannon_capture_screen(
    b: Seq<Option<Piece>>,
    s: Side,
    fr: int,
    fc: int,
    tr: int,
    tc: int,
    q: Piece,
)
    requires
        in_bounds(fr, fc),
        in_bounds(tr, tc),
        at(b, fr, fc) == Some(Piece { kind: PieceKind::Cannon, side: s }),
        at(b, tr, tc) == Some(q),
        q.side != s,
    ensures
        pseudo_legal(b, fr, fc, tr, tc) <==> ((fr == tr || fc == tc) && !(fr == tr && fc == tc)
            && between_count(b, fr, fc, tr, tc) == 1),
{
}

} // verus!
