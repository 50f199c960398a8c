pub mod adder;
pub mod bits;
pub mod board;
pub mod laws;
pub mod oracle;

pub use bits::BOARD_SIZE;
pub use board::{Board, DEFAULT_SEED};
