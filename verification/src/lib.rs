//! Bitboard primitives for chess-like 8x8 board representations: a 64-bit
//! set type indexed by square, with directional shifting, occluded fill
//! (Kogge-Stone parallel prefix propagation) and sliding-attack generation.

pub mod bitboard;
pub mod bits;
pub mod file;
pub mod laws;
pub mod position;
pub mod rank;

pub use crate::bitboard::BitBoard;
pub use crate::bitboard::BitBoardIterator;
pub use crate::file::File;
pub use crate::position::Position;
pub use crate::rank::Rank;
