//! An Othello engine on 64-bit boards: move generation under the capture rules
//! and an iterative-deepening negamax search with alpha-beta pruning.

pub mod bits;
pub mod board;
pub mod movegen;
pub mod search;
pub mod selfplay;
pub mod game;
pub mod geometry;
pub mod minimax;

pub use bits::count_bits;
pub use board::{Board, Move, W_STD_START_POS, B_STD_START_POS, INVALID_SQUARE, INVALID_SIDE};
pub use movegen::MoveGenerator;
pub use search::Search;
pub use selfplay::{play_random_game, gen_random_games, game_result};
pub use game::{pass_if_stuck, engine_turn};
