//! Chess positions in Forsyth-Edwards Notation: reading a position from a
//! FEN record and writing one back.

pub mod board;
pub mod coordinate;
pub mod error;
pub mod number;
pub mod piece;
pub mod placement;
pub mod text;
pub mod theorems;
