//! Turn handling for a game between the engine and another player.

use vstd::prelude::*;
use crate::board::{Board, apply_spec, flip_spec};
use crate::movegen::{MoveGenerator, board_moves};
use crate::search::{Search, is_invalid, legal_move_of, deepen};

verus! {

/// Hands the turn over when the side to move has no legal square. Returns
/// whether the game is over: neither side can place a disc.
pub fn pass_if_stuck(board: &mut Board) -> (over: bool)
    requires
        old(board).wf(),
    ensures
        final(board).wf(),
        board_moves(*old(board)) != 0 ==> *final(board) == *old(board) && !over,
        board_moves(*old(board)) == 0 ==> *final(board) == flip_spec(*old(board)) && over == (board_moves(
            flip_spec(*old(board)),
        ) == 0),
{
    let move_generator = MoveGenerator::new();
    if move_generator.generate_legal_moves(board) != 0 {
        return false;
    }
    board.pass_turn();
    move_generator.generate_legal_moves(board) == 0
}

/// Lets `bot` search `board` to `target_depth` and plays the move it found.
/// When it found none, the turn passes, and the game is over (the result is
/// `true`) if the other side has no legal square either.
pub fn engine_turn(bot: &mut Search, board: &mut Board, target_depth: u32) -> (over: bool)
    requires
        old(board).wf(),
    ensures
        final(board).wf(),
        final(bot).board == *old(board),
        (final(bot).best_move, final(bot).best_eval) == deepen(*old(board), target_depth as nat),
        is_invalid(final(bot).best_move) ==> *final(board) == flip_spec(*old(board)) && over == (
        board_moves(flip_spec(*old(board))) == 0),
        !is_invalid(final(bot).best_move) ==> legal_move_of(*old(board), final(bot).best_move)
            && *final(board) == apply_spec(*old(board), final(bot).best_move) && !over,
{
    bot.find_best_move(*board, target_depth);
    let mv = bot.best_move;
    if mv.square > 63 {
        board.pass_turn();
        return MoveGenerator::new().generate_legal_moves(board) == 0;
    }
    let occ = board.get_occ_squares();
    let moves = MoveGenerator::new().generate_legal_moves(board);
    let sq = mv.square;
    assert(occ & (1u64 << sq) == 0) by (bit_vector)
        requires
            moves & occ == 0,
            (moves >> sq) & 1 == 1,
            sq < 64,
    ;
    board.make_move(mv);
    false
}

} // verus!
