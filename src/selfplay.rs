//! Games played to the end with uniformly drawn legal moves.

use vstd::prelude::*;
use rand::Rng;
use crate::bits::{popcount, lemma_popcount_or, lemma_popcount_max};
use crate::board::{Board, W_STD_START_POS, B_STD_START_POS};
use crate::movegen::MoveGenerator;
use crate::search::game_over;

verus! {

/// Relies on rand's `thread_rng().gen_range(0..n)`: a value drawn from `0..n`
/// (it panics on an empty range, which `requires` leaves out).
#[verifier::external_body]
fn random_index(n: usize) -> (r: usize)
    requires
        n > 0,
    ensures
        r < n,
{
    rand::thread_rng().gen_range(0..n)
}

/// The discs on a well-formed board number at most 64.
pub proof fn lemma_piece_total(b: Board)
    requires
        b.wf(),
    ensures
        b.num_pieces[0] + b.num_pieces[1] == popcount(b.occ_squares[0] | b.occ_squares[1]),
        b.num_pieces[0] + b.num_pieces[1] <= 64,
{
    lemma_popcount_or(b.occ_squares[0], b.occ_squares[1]);
    lemma_popcount_max(b.occ_squares[0] | b.occ_squares[1]);
}

/// Plays `board` to the end, each side placing a disc on a randomly drawn legal
/// square and passing when it has none. Returns the finished board.
pub fn play_random_game(board: Board) -> (r: Board)
    requires
        board.wf(),
    ensures
        r.wf(),
        game_over(r),
        r.num_pieces[0] + r.num_pieces[1] >= board.num_pieces[0] + board.num_pieces[1],
        (board.occ_squares[0] | board.occ_squares[1]) & !(r.occ_squares[0] | r.occ_squares[1]) == 0,
{
    let move_generation = MoveGenerator::new();
    let mut current = board;
    let ghost start = board.occ_squares[0] | board.occ_squares[1];
    assert(start & !start == 0) by (bit_vector);
    loop
        invariant
            current.wf(),
            current.num_pieces[0] + current.num_pieces[1] >= board.num_pieces[0] + board.num_pieces[1],
            start == board.occ_squares[0] | board.occ_squares[1],
            start & !(current.occ_squares[0] | current.occ_squares[1]) == 0,
        decreases 64 - (current.num_pieces[0] + current.num_pieces[1]),
    {
        proof {
            lemma_piece_total(current);
        }
        let mut move_board = move_generation.generate_legal_moves(&current);
        if move_board == 0 {
            current.pass_turn();
            move_board = move_generation.generate_legal_moves(&current);
            if move_board == 0 {
                return current;
            }
        }
        let moves = move_generation.conv_move_bitboard2vec(move_board, current.side_to_move);
        let random_number = random_index(moves.len());
        let mv = moves[random_number];
        let occ = current.occ_squares[0] | current.occ_squares[1];
        let sq = mv.square;
        assert(occ & (1u64 << sq) == 0) by (bit_vector)
            requires
                move_board & occ == 0,
                (move_board >> sq) & 1 == 1,
                sq < 64,
        ;
        let ghost mid = current.occ_squares[0] | current.occ_squares[1];
        current.make_move(mv);
        proof {
            lemma_piece_total(current);
            let now = current.occ_squares[0] | current.occ_squares[1];
            assert(start & !now == 0) by (bit_vector)
                requires
                    start & !mid == 0,
                    mid & !now == 0,
            ;
        }
    }
}

/// The sign of side 0's material lead on `board`: 1 when side 0 has more
/// discs, -1 when side 1 has, 0 for a draw.
pub fn game_result(board: &Board) -> (r: i32)
    requires
        board.wf(),
    ensures
        r == (if board.num_pieces[0] > board.num_pieces[1] {
            1i32
        } else if board.num_pieces[0] < board.num_pieces[1] {
            -1i32
        } else {
            0i32
        }),
{
    if board.num_pieces[0] > board.num_pieces[1] {
        1
    } else if board.num_pieces[0] < board.num_pieces[1] {
        -1
    } else {
        0
    }
}

/// Plays `n_games` random games from the standard opening, side 0 to move, and
/// counts the games side 0 won, those side 1 won, and the draws, each game
/// judged by `game_result` of its final board.
pub fn gen_random_games(n_games: u32) -> (r: (u32, u32, u32))
    ensures
        r.0 + r.1 + r.2 == n_games,
{
    let mut w_wins: u32 = 0;
    let mut b_wins: u32 = 0;
    let mut draws: u32 = 0;
    let mut rounds: u32 = 0;
    while rounds < n_games
        invariant
            rounds <= n_games,
            w_wins + b_wins + draws == rounds,
        decreases n_games - rounds,
    {
        assert(W_STD_START_POS & B_STD_START_POS == 0) by (bit_vector);
        let board = Board::new(W_STD_START_POS, B_STD_START_POS, 0);
        let end = play_random_game(board);
        let result = game_result(&end);
        if result > 0 {
            w_wins = w_wins + 1;
        } else if result < 0 {
            b_wins = b_wins + 1;
        } else {
            draws = draws + 1;
        }
        rounds = rounds + 1;
    }
    (w_wins, b_wins, draws)
}

} // verus!
