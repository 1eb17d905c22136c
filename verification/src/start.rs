//! The canonical 32-piece starting position.
//!
//! Black occupies the top (row 0 back rank), Red the bottom (row 9 back
//! rank); each side fields one General, two Advisors, two Elephants, two
//! Horses, two Chariots, two Cannons and five Soldiers.

use vstd::prelude::*;

use crate::board::{
    at, general_at, has_side_piece, idx, in_bounds, lemma_idx_decompose, lemma_idx_injective,
    opposite, Board, Piece, PieceKind, Side,
};
use crate::check::{attacks_square, flying_general_attack, in_check, square_threatened};
use crate::game::{position_wf, side_generals_ok};
use crate::rules::{count_col_between, pseudo_legal};

verus! {

/// The piece kind on column `c` of a back rank: chariot, horse, elephant,
/// advisor, general, advisor, elephant, horse, chariot.
pub open spec fn back_rank_kind(c: int) -> PieceKind {
    if c == 0 || c == 8 {
        PieceKind::Chariot
    } else if c == 1 || c == 7 {
        PieceKind::Horse
    } else if c == 2 || c == 6 {
        PieceKind::Elephant
    } else if c == 3 || c == 5 {
        PieceKind::Advisor
    } else {
        PieceKind::General
    }
}

/// The content of cell `(r, c)` in the starting position.
pub open spec fn start_cell(r: int, c: int) -> Option<Piece> {
    if r == 0 {
        Some(Piece { kind: back_rank_kind(c), side: Side::Black })
    } else if r == 2 && (c == 1 || c == 7) {
        Some(Piece { kind: PieceKind::Cannon, side: Side::Black })
    } else if r == 3 && c % 2 == 0 {
        Some(Piece { kind: PieceKind::Soldier, side: Side::Black })
    } else if r == 6 && c % 2 == 0 {
        Some(Piece { kind: PieceKind::Soldier, side: Side::Red })
    } else if r == 7 && (c == 1 || c == 7) {
        Some(Piece { kind: PieceKind::Cannon, side: Side::Red })
    } else if r == 9 {
        Some(Piece { kind: back_rank_kind(c), side: Side::Red })
    } else {
        None
    }
}

/// The starting board as a view.
pub open spec fn start_board() -> Seq<Option<Piece>> {
    Seq::new(90, |i: int| start_cell(i / 9, i % 9))
}

/// Cell `(r, c)` of the starting board is `start_cell(r, c)`.
pub proof fn lemma_start_board_cells()
    ensures
        start_board().len() == 90,
        forall|r: int, c: int|
            in_bounds(r, c) ==> #[trigger] at(start_board(), r, c) == start_cell(r, c),
{
    assert forall|r: int, c: int| in_bounds(r, c) implies #[trigger] at(start_board(), r, c)
        == start_cell(r, c) by {
        lemma_idx_decompose(r, c);
    }
}

/// The runtime value of `start_cell(r, c)`.
fn start_cell_exec(r: u8, c: u8) -> (p: Option<Piece>)
    requires
        in_bounds(r as int, c as int),
    ensures
        p == start_cell(r as int, c as int),
{
    if r == 0 || r == 9 {
        let side = if r == 0 {
            Side::Black
        } else {
            Side::Red
        };
        let kind = if c == 0 || c == 8 {
            PieceKind::Chariot
        } else if c == 1 || c == 7 {
            PieceKind::Horse
        } else if c == 2 || c == 6 {
            PieceKind::Elephant
        } else if c == 3 || c == 5 {
            PieceKind::Advisor
        } else {
            PieceKind::General
        };
        Some(Piece { kind, side })
    } else if r == 2 && (c == 1 || c == 7) {
        Some(Piece { kind: PieceKind::Cannon, side: Side::Black })
    } else if r == 3 && c % 2 == 0 {
        Some(Piece { kind: PieceKind::Soldier, side: Side::Black })
    } else if r == 6 && c % 2 == 0 {
        Some(Piece { kind: PieceKind::Soldier, side: Side::Red })
    } else if r == 7 && (c == 1 || c == 7) {
        Some(Piece { kind: PieceKind::Cannon, side: Side::Red })
    } else {
        None
    }
}

/// Builds the starting board.
pub fn starting_board() -> (b: Board)
    ensures
        b.wf(),
        b@ == start_board(),
{
    let mut board = Board::empty();
    let mut row: u8 = 0;
    while row < 10
        invariant
            board.wf(),
            row <= 10,
            forall|r2: int, c2: int|
                in_bounds(r2, c2) && r2 < row ==> #[trigger] at(board@, r2, c2) == start_cell(
                    r2,
                    c2,
                ),
        decreases 10 - row,
    {
        let mut col: u8 = 0;
        while col < 9
            invariant
                board.wf(),
                row < 10,
                col <= 9,
                forall|r2: int, c2: int|
                    in_bounds(r2, c2) && (r2 < row || (r2 == row && c2 < col)) ==> #[trigger] at(
                        board@,
                        r2,
                        c2,
                    ) == start_cell(r2, c2),
            decreases 9 - col,
        {
            let ghost prev = board@;
            board.set_cell(row, col, start_cell_exec(row, col));
            proof {
                assert forall|r2: int, c2: int|
                    in_bounds(r2, c2) && (r2 < row || (r2 == row && c2 < col + 1)) implies
                    #[trigger] at(board@, r2, c2) == start_cell(r2, c2) by {
                    if !(r2 == row && c2 == col) {
                        if idx(r2, c2) == idx(row as int, col as int) {
                            lemma_idx_injective(r2, c2, row as int, col as int);
                        }
                        assert(at(board@, r2, c2) == at(prev, r2, c2));
                    }
                }
            }
            col = col + 1;
        }
        row = row + 1;
    }
    proof {
        lemma_start_board_cells();
        assert forall|i: int| 0 <= i < 90 implies board@[i] == start_board()[i] by {
            let r = i / 9;
            let c = i % 9;
            assert(in_bounds(r, c) && idx(r, c) == i) by (nonlinear_arith)
                requires
                    0 <= i < 90 && r == i / 9 && c == i % 9,
            ;
            assert(at(board@, r, c) == start_cell(r, c));
            assert(at(start_board(), r, c) == start_cell(r, c));
        }
        assert(board@ =~= start_board());
    }
    board
}

/// Each side's General in the starting position: Black's on (0, 4) and
/// Red's on (9, 4), and no other.
pub proof fn lemma_start_generals()
    ensures
        general_at(start_board(), Side::Black, 0, 4),
        general_at(start_board(), Side::Red, 9, 4),
        forall|r: int, c: int|
            #[trigger] general_at(start_board(), Side::Black, r, c) ==> r == 0 && c == 4,
        forall|r: int, c: int|
            #[trigger] general_at(start_board(), Side::Red, r, c) ==> r == 9 && c == 4,
{
    lemma_start_board_cells();
    let b = start_board();
    assert(at(b, 0, 4) == start_cell(0, 4));
    assert(at(b, 9, 4) == start_cell(9, 4));
    assert forall|r: int, c: int| #[trigger] general_at(b, Side::Black, r, c) implies r == 0 && c
        == 4 by {
        assert(at(b, r, c) == start_cell(r, c));
    }
    assert forall|r: int, c: int| #[trigger] general_at(b, Side::Red, r, c) implies r == 9 && c
        == 4 by {
        assert(at(b, r, c) == start_cell(r, c));
    }
}

/// In the starting position neither side is in check: no piece reaches
/// the opposing General, and the file between the two Generals is not
/// open (two Soldiers stand on it).
pub proof fn lemma_start_not_in_check()
    ensures
        !in_check(start_board(), Side::Black),
        !in_check(start_board(), Side::Red),
{
    lemma_start_board_cells();
    lemma_start_generals();
    let b = start_board();
    assert(count_col_between(b, 4, 0, 9) == 2) by {
        reveal_with_fuel(count_col_between, 9);
        assert(at(b, 1, 4) == start_cell(1, 4));
        assert(at(b, 2, 4) == start_cell(2, 4));
        assert(at(b, 3, 4) == start_cell(3, 4));
        assert(at(b, 4, 4) == start_cell(4, 4));
        assert(at(b, 5, 4) == start_cell(5, 4));
        assert(at(b, 6, 4) == start_cell(6, 4));
        assert(at(b, 7, 4) == start_cell(7, 4));
        assert(at(b, 8, 4) == start_cell(8, 4));
    }
    assert(!square_threatened(b, Side::Red, 0, 4)) by {
        assert(!attacks_square(b, Side::Red, 0, 4)) by {
            assert forall|ar: int, ac: int|
                !(#[trigger] has_side_piece(b, ar, ac, Side::Red) && in_bounds(ar, ac)
                    && pseudo_legal(b, ar, ac, 0, 4)) by {
                if has_side_piece(b, ar, ac, Side::Red) && in_bounds(ar, ac) {
                    assert(at(b, ar, ac) == start_cell(ar, ac));
                    assert(!pseudo_legal(b, ar, ac, 0, 4));
                }
            }
        }
        assert(!flying_general_attack(b, Side::Red, 0, 4)) by {
            assert forall|ar: int| !(#[trigger] general_at(b, Side::Red, ar, 4) && ar != 0
                && count_col_between(b, 4, vstd::math::min(ar, 0), vstd::math::max(ar, 0))
                == 0) by {
                if general_at(b, Side::Red, ar, 4) {
                    assert(ar == 9);
                }
            }
        }
    }
    assert(!square_threatened(b, Side::Black, 9, 4)) by {
        assert(!attacks_square(b, Side::Black, 9, 4)) by {
            assert forall|ar: int, ac: int|
                !(#[trigger] has_side_piece(b, ar, ac, Side::Black) && in_bounds(ar, ac)
                    && pseudo_legal(b, ar, ac, 9, 4)) by {
                if has_side_piece(b, ar, ac, Side::Black) && in_bounds(ar, ac) {
                    assert(at(b, ar, ac) == start_cell(ar, ac));
                    assert(!pseudo_legal(b, ar, ac, 9, 4));
                }
            }
        }
        assert(!flying_general_attack(b, Side::Black, 9, 4)) by {
            assert forall|ar: int| !(#[trigger] general_at(b, Side::Black, ar, 4) && ar != 9
                && count_col_between(b, 4, vstd::math::min(ar, 9), vstd::math::max(ar, 9))
                == 0) by {
                if general_at(b, Side::Black, ar, 4) {
                    assert(ar == 0);
                }
            }
        }
    }
    assert forall|gr: int, gc: int| #[trigger] general_at(b, Side::Black, gr, gc) implies
        !square_threatened(b, opposite(Side::Black), gr, gc) by {
        assert(gr == 0 && gc == 4);
    }
    assert forall|gr: int, gc: int| #[trigger] general_at(b, Side::Red, gr, gc) implies
        !square_threatened(b, opposite(Side::Red), gr, gc) by {
        assert(gr == 9 && gc == 4);
    }
}

/// The starting position satisfies the reachable-state invariant with Red
/// to move.
pub proof fn lemma_start_position_wf()
    ensures
        position_wf(start_board(), Side::Red),
{
    lemma_start_board_cells();
    lemma_start_generals();
    lemma_start_not_in_check();
    let b = start_board();
    assert(side_generals_ok(b, Side::Red));
    assert(side_generals_ok(b, Side::Black));
}

} // verus!
