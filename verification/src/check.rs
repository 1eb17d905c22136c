//! The check detector.
//!
//! A side is in check when an opposing piece has a pseudo-legal move onto
//! its General's cell, or when the two Generals face each other on an open
//! file (the flying-general condition).

use vstd::math::{max, min};
use vstd::prelude::*;

use crate::board::{
    general_at, has_side_piece, in_bounds, opposite, Board, PieceKind, Position, Side,
};
use crate::rules::{between_count, count_col_between, is_pseudo_legal, pseudo_legal};

verus! {

/// Some piece of side `s` has a pseudo-legal move onto `(tr, tc)`.
pub open spec fn attacks_square(b: Seq<Option<crate::board::Piece>>, s: Side, tr: int, tc: int) -> bool {
    exists|ar: int, ac: int|
        #[trigger] has_side_piece(b, ar, ac, s) && in_bounds(ar, ac) && pseudo_legal(
            b,
            ar,
            ac,
            tr,
            tc,
        )
}

/// Side `s`'s General stands on file `tc` facing `(tr, tc)` with no piece
/// between. A General cannot step that far, but the facing itself is a
/// threat.
pub open spec fn flying_general_attack(
    b: Seq<Option<crate::board::Piece>>,
    s: Side,
    tr: int,
    tc: int,
) -> bool {
    exists|ar: int|
        #[trigger] general_at(b, s, ar, tc) && ar != tr && count_col_between(
            b,
            tc,
            min(ar, tr),
            max(ar, tr),
        ) == 0
}

/// Cell `(tr, tc)` is threatened by side `s`.
pub open spec fn square_threatened(
    b: Seq<Option<crate::board::Piece>>,
    s: Side,
    tr: int,
    tc: int,
) -> bool {
    attacks_square(b, s, tr, tc) || flying_general_attack(b, s, tr, tc)
}

/// Side `s` is in check: one of its Generals stands on a cell threatened
/// by the opponent.
pub open spec fn in_check(b: Seq<Option<crate::board::Piece>>, s: Side) -> bool {
    exists|gr: int, gc: int|
        #[trigger] general_at(b, s, gr, gc) && square_threatened(b, opposite(s), gr, gc)
}

/// Decides whether side `att` threatens cell `(tr, tc)`, exactly as
/// `square_threatened` states it.
fn square_threatened_exec(board: &Board, att: Side, tr: u8, tc: u8) -> (res: bool)
    requires
        board.wf(),
        in_bounds(tr as int, tc as int),
    ensures
        res == square_threatened(board@, att, tr as int, tc as int),
{
    let mut row: u8 = 0;
    while row < 10
        invariant
            board.wf(),
            in_bounds(tr as int, tc as int),
            row <= 10,
            forall|r2: int, c2: int|
                0 <= r2 < row && 0 <= c2 < 9 ==> !(#[trigger] has_side_piece(board@, r2, c2, att)
                    && pseudo_legal(board@, r2, c2, tr as int, tc as int)),
            forall|r2: int|
                0 <= r2 < row ==> !(#[trigger] general_at(board@, att, r2, tc as int) && r2 != tr as int
                    && count_col_between(
                    board@,
                    tc as int,
                    min(r2, tr as int),
                    max(r2, tr as int),
                ) == 0),
        decreases 10 - row,
    {
        let mut col: u8 = 0;
        while col < 9
            invariant
                board.wf(),
                in_bounds(tr as int, tc as int),
                row < 10,
                col <= 9,
                forall|r2: int, c2: int|
                    0 <= r2 < 10 && 0 <= c2 < 9 && (r2 < row || (r2 == row && c2 < col)) ==> !(
                    #[trigger] has_side_piece(board@, r2, c2, att) && pseudo_legal(
                        board@,
                        r2,
                        c2,
                        tr as int,
                        tc as int,
                    )),
                forall|r2: int|
                    0 <= r2 < 10 && (r2 < row || (r2 == row && tc < col)) ==> !(
                    #[trigger] general_at(board@, att, r2, tc as int) && r2 != tr as int
                        && count_col_between(
                        board@,
                        tc as int,
                        min(r2, tr as int),
                        max(r2, tr as int),
                    ) == 0),
            decreases 9 - col,
        {
            match board.get(row, col) {
                Some(p) => {
                    if p.side == att {
                        let from = Position { row, col };
                        let to = Position { row: tr, col: tc };
                        if is_pseudo_legal(board, from, to) {
                            assert(has_side_piece(board@, row as int, col as int, att));
                            return true;
                        }
                        if p.kind == PieceKind::General && col == tc && row != tr {
                            let lo = Position { row, col: tc };
                            if crate::rules::between_count_exec(board, lo, to) == 0 {
                                assert(general_at(board@, att, row as int, tc as int));
                                assert(count_col_between(
                                    board@,
                                    tc as int,
                                    min(row as int, tr as int),
                                    max(row as int, tr as int),
                                ) == 0) by {
                                    assert(between_count(
                                        board@,
                                        row as int,
                                        tc as int,
                                        tr as int,
                                        tc as int,
                                    ) == 0);
                                }
                                return true;
                            }
                        }
                    }
                },
                None => {},
            }
            col = col + 1;
        }
        row = row + 1;
    }
    false
}

/// Decides whether side `side` is in check, exactly as `in_check` states it.
pub fn is_in_check(board: &Board, side: Side) -> (res: bool)
    requires
        board.wf(),
    ensures
        res == in_check(board@, side),
{
    let mut row: u8 = 0;
    while row < 10
        invariant
            board.wf(),
            row <= 10,
            forall|r2: int, c2: int|
                0 <= r2 < row && 0 <= c2 < 9 ==> !(#[trigger] general_at(board@, side, r2, c2)
                    && square_threatened(board@, opposite(side), r2, c2)),
        decreases 10 - row,
    {
        let mut col: u8 = 0;
        while col < 9
            invariant
                board.wf(),
                row < 10,
                col <= 9,
                forall|r2: int, c2: int|
                    0 <= r2 < 10 && 0 <= c2 < 9 && (r2 < row || (r2 == row && c2 < col)) ==> !(
                    #[trigger] general_at(board@, side, r2, c2) && square_threatened(
                        board@,
                        opposite(side),
                        r2,
                        c2,
                    )),
            decreases 9 - col,
        {
            match board.get(row, col) {
                Some(p) => {
                    if p.kind == PieceKind::General && p.side == side {
                        assert(general_at(board@, side, row as int, col as int));
                        if square_threatened_exec(board, side.other(), row, col) {
                            return true;
                        }
                    }
                },
                None => {},
            }
            col = col + 1;
        }
        row = row + 1;
    }
    false
}

} // verus!
