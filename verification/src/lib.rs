//! A verified engine for a falling-block puzzle game: a fixed 10 x 20 board
//! of cells, the seven tetromino shapes with a clockwise rotation transform,
//! collision testing, piece locking, line clearing, and the state machine
//! that applies player commands and gravity ticks while tracking score and
//! difficulty.

pub mod board;
pub mod game;
pub mod piece;
mod rng;

pub use board::Board;
pub use board::Cell;
pub use board::HEIGHT;
pub use board::WIDTH;
pub use board::clear_lines;
pub use board::collides;
pub use board::create_empty_board;
pub use board::lock_piece;
pub use game::Command;
pub use game::GameState;
pub use game::Phase;
pub use game::compute_interval;
pub use piece::Piece;
pub use piece::PieceColor;
pub use piece::piece_color;
pub use piece::rotate_clockwise;
