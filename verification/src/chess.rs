//! The chess engine proper: piece values, the board, the coordinate codec,
//! move generation, threat maps, and unconditional move application.

pub mod piece_data;
pub mod piece;
pub mod board;
pub mod board_assoc;
pub mod board_moves;
pub mod threat_map;
