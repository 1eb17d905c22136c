//! The error taxonomy of the rule engine.

use vstd::prelude::*;

verus! {

/// Why a request to the engine was rejected.
///
/// Every rule violation is recoverable: the caller receives the specific
/// kind and the game state is left unchanged. `InvariantViolation` alone
/// signals corrupted internal state (a missing General) rather than an
/// invalid user action.
#[derive(Clone, Copy, Debug, PartialEq, Eq, Structural)]
pub enum MoveError {
    /// A position lies outside the 10 x 9 grid: a programming error of the
    /// caller, not a legality question.
    OutOfBounds,
    /// The source square is empty or holds a piece of the side not to move.
    NotPlayersTurn,
    /// The move violates the moving piece's movement or blocking rule.
    IllegalGeometry,
    /// The move would leave the mover's own General in check.
    SelfCheck,
    /// The game has already ended in checkmate or stalemate.
    GameOver,
    /// A General is absent from the board, or a position fails the
    /// reachable-state invariant.
    InvariantViolation,
}

} // verus!
