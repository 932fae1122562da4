//! Model for a quilting game.
//!
//! Players take irregular pieces from a shared queue, place them on a private
//! quilt board without overlap, and advance a token along a shared time board
//! that grants pieces and income as it is crossed. This crate holds the rules:
//! the geometry of pieces, the placement check, the piece queue and the turn
//! order. Every function carries a contract that Verus proves.

pub mod result;
pub mod position;
pub mod piece;
pub mod quilt_board;
pub mod trusted;
pub mod player;
pub mod shuffle;
pub mod piece_board;
pub mod time_board;
pub mod game_state;
