//! Board-state engine for a Go-like stone-placement game.

pub mod stones;
pub mod text;
pub mod coord;
pub mod sqrt;
pub mod keystream;
pub mod hashing;
pub mod board;
pub mod zobrist;
pub mod goban;
pub mod laws;
