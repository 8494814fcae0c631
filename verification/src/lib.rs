//! A bitboard chess position engine: move generation over precomputed ray
//! tables, move application with exact undo, check detection, and FEN input
//! and output.

pub mod attack_maps;
pub mod bit_board;
pub mod engine;
pub mod fen;
pub mod move_generator;
pub mod piece_set;
pub mod player;
pub mod utils;
