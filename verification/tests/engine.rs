use xiangqi::{new_game, Board, GameState, GameStatus, Move, MoveError, Piece, PieceKind, Position, Side};

fn pos(row: u8, col: u8) -> Position {
    Position { row, col }
}

fn mv(from: (u8, u8), to: (u8, u8)) -> Move {
    Move { from: pos(from.0, from.1), to: pos(to.0, to.1) }
}

fn setup(pieces: &[(u8, u8, PieceKind, Side)]) -> Board {
    let mut board = Board::empty();
    for &(row, col, kind, side) in pieces {
        board.place(pos(row, col), Some(Piece { kind, side })).unwrap();
    }
    board
}

fn dest_set(game: &GameState, from: Position) -> Vec<(u8, u8)> {
    let mut v: Vec<(u8, u8)> = game
        .legal_destinations(from)
        .iter()
        .map(|p| (p.row, p.col))
        .collect();
    v.sort();
    v
}

#[test]
fn starting_soldier_has_exactly_one_destination() {
    let game = new_game();
    let dests = game.legal_destinations(pos(6, 0));
    assert_eq!(dests.len(), 1);
    assert_eq!(dests[0], pos(5, 0));
}

#[test]
fn starting_layout_matches_the_canon() {
    let game = new_game();
    let board = game.board();
    let expect = |p: Position, kind: PieceKind, side: Side| {
        assert_eq!(board.piece_at(p).unwrap(), Some(Piece { kind, side }));
    };
    expect(pos(0, 0), PieceKind::Chariot, Side::Black);
    expect(pos(0, 1), PieceKind::Horse, Side::Black);
    expect(pos(0, 2), PieceKind::Elephant, Side::Black);
    expect(pos(0, 3), PieceKind::Advisor, Side::Black);
    expect(pos(0, 4), PieceKind::General, Side::Black);
    expect(pos(0, 8), PieceKind::Chariot, Side::Black);
    expect(pos(2, 1), PieceKind::Cannon, Side::Black);
    expect(pos(2, 7), PieceKind::Cannon, Side::Black);
    expect(pos(3, 4), PieceKind::Soldier, Side::Black);
    expect(pos(6, 8), PieceKind::Soldier, Side::Red);
    expect(pos(7, 1), PieceKind::Cannon, Side::Red);
    expect(pos(9, 4), PieceKind::General, Side::Red);
    expect(pos(9, 8), PieceKind::Chariot, Side::Red);
    let mut count = 0;
    for row in 0..10u8 {
        for col in 0..9u8 {
            if board.piece_at(pos(row, col)).unwrap().is_some() {
                count += 1;
            }
        }
    }
    assert_eq!(count, 32);
    assert_eq!(game.side_to_move(), Side::Red);
    assert_eq!(game.status(), GameStatus::InProgress);
    assert!(game.history().is_empty());
}

#[test]
fn flying_general_checks_both_sides() {
    let board = setup(&[
        (9, 4, PieceKind::General, Side::Red),
        (0, 4, PieceKind::General, Side::Black),
    ]);
    assert!(xiangqi::check::is_in_check(&board, Side::Red));
    assert!(xiangqi::check::is_in_check(&board, Side::Black));
}

#[test]
fn blocked_file_is_no_flying_general() {
    let board = setup(&[
        (9, 4, PieceKind::General, Side::Red),
        (0, 4, PieceKind::General, Side::Black),
        (5, 4, PieceKind::Soldier, Side::Red),
    ]);
    assert!(!xiangqi::check::is_in_check(&board, Side::Red));
    assert!(!xiangqi::check::is_in_check(&board, Side::Black));
}

#[test]
fn chariot_mate_on_the_open_file() {
    // Red to move: the chariot swings from (4, 8) to (4, 4) onto the open
    // file of Black's bare General. The second chariot guards column 3 and
    // the crossed soldier guards (0, 5) and (1, 4): checkmate.
    let board = setup(&[
        (0, 4, PieceKind::General, Side::Black),
        (9, 3, PieceKind::General, Side::Red),
        (4, 8, PieceKind::Chariot, Side::Red),
        (4, 3, PieceKind::Chariot, Side::Red),
        (1, 5, PieceKind::Soldier, Side::Red),
    ]);
    let game = GameState::from_position(board, Side::Red).unwrap();
    assert_eq!(game.status(), GameStatus::InProgress);
    let mated = game.attempt_move(mv((4, 8), (4, 4))).unwrap();
    assert_eq!(mated.status(), GameStatus::Checkmate(Side::Black));
    assert_eq!(mated.side_to_move(), Side::Black);
    assert_eq!(
        mated.attempt_move(mv((0, 4), (1, 4))).unwrap_err(),
        MoveError::GameOver
    );
    assert_eq!(
        mated.attempt_move(mv((0, 4), (0, 3))).unwrap_err(),
        MoveError::GameOver
    );
}

#[test]
fn check_without_mate_is_reported_as_check() {
    // As in the mate scenario but without the soldier: (0, 5) stays free,
    // so Black is merely in check.
    let board = setup(&[
        (0, 4, PieceKind::General, Side::Black),
        (9, 3, PieceKind::General, Side::Red),
        (4, 8, PieceKind::Chariot, Side::Red),
        (4, 3, PieceKind::Chariot, Side::Red),
    ]);
    let game = GameState::from_position(board, Side::Red).unwrap();
    let checked = game.attempt_move(mv((4, 8), (4, 4))).unwrap();
    assert_eq!(checked.status(), GameStatus::Check(Side::Black));
    let escaped = checked.attempt_move(mv((0, 4), (0, 5))).unwrap();
    assert_eq!(escaped.status(), GameStatus::InProgress);
}

#[test]
fn stalemate_when_the_bare_general_cannot_move() {
    // Black to move, not in check: the two crossed soldiers guard every
    // palace cell the General could step onto.
    let board = setup(&[
        (0, 4, PieceKind::General, Side::Black),
        (9, 3, PieceKind::General, Side::Red),
        (1, 3, PieceKind::Soldier, Side::Red),
        (1, 5, PieceKind::Soldier, Side::Red),
    ]);
    let game = GameState::from_position(board, Side::Black).unwrap();
    assert_eq!(game.status(), GameStatus::Stalemate);
    assert_eq!(
        game.attempt_move(mv((0, 4), (1, 4))).unwrap_err(),
        MoveError::GameOver
    );
}

#[test]
fn soldier_never_retreats_or_sidesteps_before_the_river() {
    let game = new_game();
    assert_eq!(
        game.attempt_move(mv((6, 0), (7, 0))).unwrap_err(),
        MoveError::IllegalGeometry
    );
    assert_eq!(
        game.attempt_move(mv((6, 0), (6, 1))).unwrap_err(),
        MoveError::IllegalGeometry
    );
    assert_eq!(
        game.attempt_move(mv((6, 0), (4, 0))).unwrap_err(),
        MoveError::IllegalGeometry
    );
    assert_eq!(
        game.attempt_move(mv((6, 0), (5, 1))).unwrap_err(),
        MoveError::IllegalGeometry
    );
}

#[test]
fn soldier_gains_sidesteps_after_the_river() {
    let board = setup(&[
        (9, 3, PieceKind::General, Side::Red),
        (0, 4, PieceKind::General, Side::Black),
        (4, 4, PieceKind::Soldier, Side::Red),
    ]);
    let game = GameState::from_position(board, Side::Red).unwrap();
    // one forward step and the two sidesteps, but never backward
    assert_eq!(dest_set(&game, pos(4, 4)), vec![(3, 4), (4, 3), (4, 5)]);
    assert_eq!(
        game.attempt_move(mv((4, 4), (5, 4))).unwrap_err(),
        MoveError::IllegalGeometry
    );
}

#[test]
fn elephant_is_blocked_by_an_occupied_midpoint() {
    let board = setup(&[
        (9, 5, PieceKind::General, Side::Red),
        (0, 4, PieceKind::General, Side::Black),
        (9, 2, PieceKind::Elephant, Side::Red),
        (8, 3, PieceKind::Soldier, Side::Black),
    ]);
    let game = GameState::from_position(board, Side::Red).unwrap();
    assert_eq!(
        game.attempt_move(mv((9, 2), (7, 4))).unwrap_err(),
        MoveError::IllegalGeometry
    );
    let moved = game.attempt_move(mv((9, 2), (7, 0))).unwrap();
    assert_eq!(
        moved.board().piece_at(pos(7, 0)).unwrap(),
        Some(Piece { kind: PieceKind::Elephant, side: Side::Red })
    );
}

#[test]
fn elephant_never_crosses_the_river() {
    let board = setup(&[
        (9, 3, PieceKind::General, Side::Red),
        (0, 4, PieceKind::General, Side::Black),
        (5, 2, PieceKind::Elephant, Side::Red),
    ]);
    let game = GameState::from_position(board, Side::Red).unwrap();
    assert_eq!(dest_set(&game, pos(5, 2)), vec![(7, 0), (7, 4)]);
    assert_eq!(
        game.attempt_move(mv((5, 2), (3, 0))).unwrap_err(),
        MoveError::IllegalGeometry
    );
    assert_eq!(
        game.attempt_move(mv((5, 2), (3, 4))).unwrap_err(),
        MoveError::IllegalGeometry
    );
}

#[test]
fn horse_is_blocked_by_its_own_leg() {
    let game = new_game();
    // the starting horse jumps around its own chariot
    let moved = game.attempt_move(mv((9, 1), (7, 2))).unwrap();
    assert_eq!(
        moved.board().piece_at(pos(7, 2)).unwrap(),
        Some(Piece { kind: PieceKind::Horse, side: Side::Red })
    );
    // with a blocker on the long leg the same jump is illegal
    let board = setup(&[
        (9, 3, PieceKind::General, Side::Red),
        (0, 4, PieceKind::General, Side::Black),
        (9, 1, PieceKind::Horse, Side::Red),
        (8, 1, PieceKind::Soldier, Side::Black),
    ]);
    let blocked = GameState::from_position(board, Side::Red).unwrap();
    assert_eq!(
        blocked.attempt_move(mv((9, 1), (7, 2))).unwrap_err(),
        MoveError::IllegalGeometry
    );
    assert_eq!(
        blocked.attempt_move(mv((9, 1), (7, 0))).unwrap_err(),
        MoveError::IllegalGeometry
    );
}

#[test]
fn chariot_stops_at_the_first_piece() {
    let board = setup(&[
        (9, 3, PieceKind::General, Side::Red),
        (0, 4, PieceKind::General, Side::Black),
        (5, 0, PieceKind::Chariot, Side::Red),
        (2, 0, PieceKind::Soldier, Side::Black),
    ]);
    let game = GameState::from_position(board, Side::Red).unwrap();
    let dests = dest_set(&game, pos(5, 0));
    // down the file to the soldier (a capture), up the file, and the rank
    assert!(dests.contains(&(2, 0)));
    assert!(dests.contains(&(3, 0)));
    assert!(!dests.contains(&(1, 0)));
    assert!(!dests.contains(&(0, 0)));
    let taken = game.attempt_move(mv((5, 0), (2, 0))).unwrap();
    assert_eq!(
        taken.board().piece_at(pos(2, 0)).unwrap(),
        Some(Piece { kind: PieceKind::Chariot, side: Side::Red })
    );
}

#[test]
fn cannon_needs_exactly_one_screen_to_capture() {
    let board = setup(&[
        (9, 3, PieceKind::General, Side::Red),
        (0, 4, PieceKind::General, Side::Black),
        (5, 0, PieceKind::Cannon, Side::Red),
        (3, 0, PieceKind::Soldier, Side::Black),
        (1, 0, PieceKind::Chariot, Side::Black),
    ]);
    let game = GameState::from_position(board, Side::Red).unwrap();
    // one screen: the capture of the chariot is legal
    let taken = game.attempt_move(mv((5, 0), (1, 0))).unwrap();
    assert_eq!(
        taken.board().piece_at(pos(1, 0)).unwrap(),
        Some(Piece { kind: PieceKind::Cannon, side: Side::Red })
    );
    // zero screens: capturing the adjacent-by-line soldier is illegal
    assert_eq!(
        game.attempt_move(mv((5, 0), (3, 0))).unwrap_err(),
        MoveError::IllegalGeometry
    );
    // moving onto an empty cell beyond the screen is illegal too
    assert_eq!(
        game.attempt_move(mv((5, 0), (2, 0))).unwrap_err(),
        MoveError::IllegalGeometry
    );
    // plain moves along the clear part of the file stay legal
    assert!(game.attempt_move(mv((5, 0), (4, 0))).is_ok());
}

#[test]
fn cannon_with_two_screens_cannot_capture() {
    let board = setup(&[
        (9, 3, PieceKind::General, Side::Red),
        (0, 4, PieceKind::General, Side::Black),
        (5, 0, PieceKind::Cannon, Side::Red),
        (4, 0, PieceKind::Soldier, Side::Red),
        (3, 0, PieceKind::Soldier, Side::Black),
        (1, 0, PieceKind::Chariot, Side::Black),
    ]);
    let game = GameState::from_position(board, Side::Red).unwrap();
    assert_eq!(
        game.attempt_move(mv((5, 0), (1, 0))).unwrap_err(),
        MoveError::IllegalGeometry
    );
}

#[test]
fn general_and_advisor_stay_in_the_palace() {
    let game = new_game();
    let board = setup(&[
        (9, 5, PieceKind::General, Side::Red),
        (0, 4, PieceKind::General, Side::Black),
        (9, 3, PieceKind::Advisor, Side::Red),
    ]);
    let custom = GameState::from_position(board, Side::Red).unwrap();
    // the advisor moves one diagonal step and may not leave the palace
    assert_eq!(dest_set(&custom, pos(9, 3)), vec![(8, 4)]);
    // a general step out of the palace is illegal
    assert_eq!(
        custom.attempt_move(mv((9, 5), (9, 6))).unwrap_err(),
        MoveError::IllegalGeometry
    );
    // diagonal general steps are illegal
    assert_eq!(
        custom.attempt_move(mv((9, 5), (8, 4))).unwrap_err(),
        MoveError::IllegalGeometry
    );
    // in the opening, the general may step forward
    assert!(game.attempt_move(mv((9, 4), (8, 4))).is_ok());
}

#[test]
fn moving_into_the_flying_general_is_self_check() {
    let board = setup(&[
        (9, 3, PieceKind::General, Side::Red),
        (0, 4, PieceKind::General, Side::Black),
    ]);
    let game = GameState::from_position(board, Side::Red).unwrap();
    assert_eq!(
        game.attempt_move(mv((9, 3), (9, 4))).unwrap_err(),
        MoveError::SelfCheck
    );
}

#[test]
fn a_move_that_ignores_a_check_is_rejected() {
    let board = setup(&[
        (9, 4, PieceKind::General, Side::Red),
        (0, 5, PieceKind::General, Side::Black),
        (4, 4, PieceKind::Chariot, Side::Black),
        (6, 0, PieceKind::Soldier, Side::Red),
    ]);
    let game = GameState::from_position(board, Side::Red).unwrap();
    assert_eq!(game.status(), GameStatus::Check(Side::Red));
    assert_eq!(
        game.attempt_move(mv((6, 0), (5, 0))).unwrap_err(),
        MoveError::SelfCheck
    );
    // stepping off the attacked file resolves the check
    let saved = game.attempt_move(mv((9, 4), (9, 3))).unwrap();
    assert_eq!(saved.status(), GameStatus::InProgress);
}

#[test]
fn turn_order_and_history_are_kept() {
    let game = new_game();
    assert_eq!(
        game.attempt_move(mv((3, 0), (4, 0))).unwrap_err(),
        MoveError::NotPlayersTurn
    );
    assert_eq!(
        game.attempt_move(mv((4, 4), (5, 4))).unwrap_err(),
        MoveError::NotPlayersTurn
    );
    let after_red = game.attempt_move(mv((6, 0), (5, 0))).unwrap();
    assert_eq!(after_red.side_to_move(), Side::Black);
    let after_black = after_red.attempt_move(mv((3, 0), (4, 0))).unwrap();
    assert_eq!(after_black.side_to_move(), Side::Red);
    assert_eq!(after_black.history().len(), 2);
    assert_eq!(after_black.history()[0], mv((6, 0), (5, 0)));
    assert_eq!(after_black.history()[1], mv((3, 0), (4, 0)));
    // earlier states are untouched: attempt_move is pure
    assert!(game.history().is_empty());
    assert_eq!(after_red.history().len(), 1);
}

#[test]
fn positions_off_the_grid_are_out_of_bounds() {
    let game = new_game();
    assert_eq!(
        game.attempt_move(mv((10, 0), (5, 0))).unwrap_err(),
        MoveError::OutOfBounds
    );
    assert_eq!(
        game.attempt_move(mv((6, 0), (6, 9))).unwrap_err(),
        MoveError::OutOfBounds
    );
    assert_eq!(
        game.board().piece_at(pos(10, 0)).unwrap_err(),
        MoveError::OutOfBounds
    );
    let mut board = Board::empty();
    assert_eq!(
        board
            .place(pos(0, 9), Some(Piece { kind: PieceKind::Soldier, side: Side::Red }))
            .unwrap_err(),
        MoveError::OutOfBounds
    );
}

#[test]
fn corrupted_positions_are_rejected() {
    // no Black General
    let board = setup(&[(9, 4, PieceKind::General, Side::Red)]);
    assert_eq!(
        GameState::from_position(board, Side::Red).unwrap_err(),
        MoveError::InvariantViolation
    );
    // two Red Generals
    let board = setup(&[
        (9, 4, PieceKind::General, Side::Red),
        (9, 3, PieceKind::General, Side::Red),
        (0, 4, PieceKind::General, Side::Black),
    ]);
    assert_eq!(
        GameState::from_position(board, Side::Red).unwrap_err(),
        MoveError::InvariantViolation
    );
    // a General outside its palace
    let board = setup(&[
        (9, 4, PieceKind::General, Side::Red),
        (4, 4, PieceKind::General, Side::Black),
    ]);
    assert_eq!(
        GameState::from_position(board, Side::Red).unwrap_err(),
        MoveError::InvariantViolation
    );
    // the side that is not to move stands in check
    let board = setup(&[
        (9, 4, PieceKind::General, Side::Red),
        (0, 4, PieceKind::General, Side::Black),
    ]);
    assert_eq!(
        GameState::from_position(board, Side::Red).unwrap_err(),
        MoveError::InvariantViolation
    );
}

#[test]
fn find_general_reports_the_throne_or_the_corruption() {
    let game = new_game();
    assert_eq!(game.board().find_general(Side::Red).unwrap(), pos(9, 4));
    assert_eq!(game.board().find_general(Side::Black).unwrap(), pos(0, 4));
    let empty = Board::empty();
    assert_eq!(
        empty.find_general(Side::Red).unwrap_err(),
        MoveError::InvariantViolation
    );
}

#[test]
fn board_accessors_read_single_cells() {
    let game = new_game();
    let board = game.board();
    assert!(board.is_empty(pos(4, 4)));
    assert!(!board.is_empty(pos(0, 0)));
    assert_eq!(
        board.piece_at(pos(0, 0)).unwrap(),
        Some(Piece { kind: PieceKind::Chariot, side: Side::Black })
    );
    assert_eq!(board.piece_at(pos(5, 5)).unwrap(), None);
}

#[test]
fn destinations_of_foreign_or_empty_cells_are_empty() {
    let game = new_game();
    assert!(game.legal_destinations(pos(3, 0)).is_empty());
    assert!(game.legal_destinations(pos(4, 4)).is_empty());
    assert!(game.legal_destinations(pos(10, 3)).is_empty());
}

#[test]
fn opening_cannon_capture_over_one_screen() {
    let game = new_game();
    let taken = game.attempt_move(mv((7, 1), (0, 1))).unwrap();
    assert_eq!(
        taken.board().piece_at(pos(0, 1)).unwrap(),
        Some(Piece { kind: PieceKind::Cannon, side: Side::Red })
    );
    assert_eq!(taken.board().piece_at(pos(7, 1)).unwrap(), None);
}

#[test]
fn accepted_moves_keep_both_generals_and_the_mover_out_of_check() {
    let mut game = new_game();
    let script = [
        ((6u8, 0u8), (5u8, 0u8)),
        ((3, 0), (4, 0)),
        ((7, 1), (0, 1)),
        ((4, 0), (5, 0)),
    ];
    for (i, &(from, to)) in script.iter().enumerate() {
        let mover = game.side_to_move();
        game = game.attempt_move(mv(from, to)).unwrap();
        assert!(!xiangqi::check::is_in_check(game.board(), mover));
        assert!(game.board().find_general(Side::Red).is_ok());
        assert!(game.board().find_general(Side::Black).is_ok());
        assert_eq!(game.history().len(), i + 1);
    }
}
