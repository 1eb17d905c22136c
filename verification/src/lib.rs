//! A verified rule engine for Xiangqi (Chinese chess).
//!
//! The engine models the 10 x 9 board, the per-piece movement rules, check
//! detection (including the flying-general condition), and the turn state
//! machine with check, checkmate and stalemate detection. Everything is
//! specified against a mathematical view of the board (a sequence of 90
//! optional pieces) and proved with Verus.
//!
//! The crate also carries the small data-transfer types used by the
//! surrounding services: request/response envelopes and a business error.

pub mod biz;
pub mod board;
pub mod check;
pub mod dto;
pub mod error;
pub mod game;
pub mod rules;
pub mod start;

pub use board::{Board, Piece, PieceKind, Position, Side};
pub use error::MoveError;
pub use game::{new_game, GameState, GameStatus, Move};
