//! Iterative-deepening negamax search with fail-hard alpha-beta pruning.

use vstd::prelude::*;
use crate::bits::lemma_popcount_max;
use crate::board::{Board, Move, INVALID_SQUARE, INVALID_SIDE, apply_spec, flip_spec};
use crate::movegen::{MoveGenerator, board_moves, bits_to_moves, legal_moves_spec, lemma_legal_moves_unoccupied};

verus! {

/// Material difference from the point of view of the side to move.
pub open spec fn eval_spec(b: Board) -> int {
    b.num_pieces[b.side_to_move as int] - b.num_pieces[1 - b.side_to_move]
}

/// The score of a finished game whose material difference for the side to move is `e`.
pub open spec fn terminal_score(e: int) -> i32 {
    if e > 0 {
        i32::MAX
    } else if e < 0 {
        (i32::MIN + 1) as i32
    } else {
        0
    }
}

/// Neither side of `b` can place a disc.
pub open spec fn game_over(b: Board) -> bool {
    legal_moves_spec(b.occ_squares, b.side_to_move as int) == 0 && legal_moves_spec(
        b.occ_squares,
        1 - b.side_to_move,
    ) == 0
}

/// `m` is a legal move of the side to move on `b`.
pub open spec fn legal_move_of(b: Board, m: Move) -> bool {
    &&& m.square < 64
    &&& m.side == b.side_to_move
    &&& (board_moves(b) >> m.square) & 1 == 1
}

pub open spec fn is_invalid(m: Move) -> bool {
    m.square == INVALID_SQUARE && m.side == INVALID_SIDE
}

/// Fail-hard negamax value of `b` searched `depth` plies deep within the
/// window (`alpha`, `beta`): the evaluation at depth 0; at the end of the game
/// the terminal score; after a pass the negated value of the other side; else
/// the scan of the legal moves in ascending square order.
pub open spec fn negamax(b: Board, alpha: int, beta: int, depth: nat) -> int
    decreases depth, 65int,
{
    if depth == 0 {
        eval_spec(b)
    } else if board_moves(b) == 0 {
        if board_moves(flip_spec(b)) == 0 {
            terminal_score(eval_spec(b)) as int
        } else {
            -negamax(flip_spec(b), -beta, -alpha, (depth - 1) as nat)
        }
    } else {
        scan_moves(b, bits_to_moves(board_moves(b), b.side_to_move, 64), 0, alpha, beta, depth)
    }
}

/// The alpha-beta scan of the moves `ms` from index `i` on: `beta` as soon as
/// a move scores at least `beta`, else the best of `alpha` and the scores.
pub open spec fn scan_moves(b: Board, ms: Seq<Move>, i: int, alpha: int, beta: int, depth: nat) -> int
    decreases depth, 64 - i,
{
    if depth == 0 || i < 0 || i >= ms.len() || i >= 64 {
        alpha
    } else {
        let e = -negamax(apply_spec(b, ms[i]), -beta, -alpha, (depth - 1) as nat);
        if e >= beta {
            beta
        } else {
            scan_moves(
                b,
                ms,
                i + 1,
                if e > alpha {
                    e
                } else {
                    alpha
                },
                beta,
                depth,
            )
        }
    }
}

/// At depth 0 the search value is the evaluation, whatever the window.
pub proof fn lemma_negamax_depth_zero(b: Board, alpha: int, beta: int)
    ensures
        negamax(b, alpha, beta, 0) == eval_spec(b),
{
}

/// When neither side can move, a search of any positive depth and any window
/// gives the terminal score: its sign is that of the material difference for
/// the side to move, and it is 0 when material is level.
pub proof fn lemma_negamax_game_over(b: Board, alpha: int, beta: int, depth: nat)
    requires
        b.side_to_move < 2,
        depth > 0,
        game_over(b),
    ensures
        negamax(b, alpha, beta, depth) == terminal_score(eval_spec(b)) as int,
        eval_spec(b) > 0 ==> negamax(b, alpha, beta, depth) == i32::MAX,
        eval_spec(b) < 0 ==> negamax(b, alpha, beta, depth) == i32::MIN + 1,
        eval_spec(b) == 0 ==> negamax(b, alpha, beta, depth) == 0,
{
}

/// The root move and score recorded by the scan of `ms` from index `i`, starting
/// from the record `rec`: each move that raises alpha without reaching beta
/// replaces the record, and a move that reaches beta ends the scan.
pub open spec fn scan_record(
    b: Board,
    ms: Seq<Move>,
    i: int,
    alpha: int,
    beta: int,
    depth: nat,
    rec: (Move, i32),
) -> (Move, i32)
    decreases 64 - i,
{
    if depth == 0 || i < 0 || i >= ms.len() || i >= 64 {
        rec
    } else {
        let e = -negamax(apply_spec(b, ms[i]), -beta, -alpha, (depth - 1) as nat);
        if e >= beta {
            rec
        } else if e > alpha {
            scan_record(b, ms, i + 1, e, beta, depth, (ms[i], e as i32))
        } else {
            scan_record(b, ms, i + 1, alpha, beta, depth, rec)
        }
    }
}

/// The record a root search of `b` leaves, starting from `rec`.
pub open spec fn root_record(b: Board, alpha: int, beta: int, depth: nat, rec: (Move, i32)) -> (Move, i32) {
    if depth == 0 || board_moves(b) == 0 {
        rec
    } else {
        scan_record(b, bits_to_moves(board_moves(b), b.side_to_move, 64), 0, alpha, beta, depth, rec)
    }
}

pub open spec fn invalid_spec() -> Move {
    Move { square: INVALID_SQUARE, side: INVALID_SIDE }
}

/// The committed move and score after iterations of depth 1 to `d`: an
/// iteration that records a real move replaces them.
pub open spec fn deepen(b: Board, d: nat) -> (Move, i32)
    decreases d,
{
    if d == 0 {
        (invalid_spec(), (i32::MIN + 1) as i32)
    } else {
        let rec = root_record(b, i32::MIN + 1, i32::MAX as int, d, (invalid_spec(), i32::MIN));
        if rec.0.square < 64 {
            rec
        } else {
            deepen(b, (d - 1) as nat)
        }
    }
}

/// A search: its working board and the best root move found so far.
pub struct Search {
    pub board: Board,
    pub move_generator: MoveGenerator,
    pub best_move_this_iter: Move,
    pub best_move: Move,
    pub best_eval_this_iter: i32,
    pub best_eval: i32,
}

impl Search {
    pub fn new(board: Board, move_generator: MoveGenerator) -> (r: Search)
        ensures
            r.board == board,
            is_invalid(r.best_move_this_iter),
            is_invalid(r.best_move),
            r.best_eval_this_iter == i32::MIN,
            r.best_eval == i32::MIN,
    {
        let best_move_this_iter = Move::invalid_move();
        let best_move = Move::invalid_move();
        let best_eval_this_iter = i32::MIN;
        let best_eval = i32::MIN;
        Search { board, move_generator, best_move_this_iter, best_move, best_eval_this_iter, best_eval }
    }

    /// Material difference of the working board for its side to move.
    pub fn evaluate_position(&self) -> (r: i32)
        requires
            self.board.wf(),
        ensures
            r as int == eval_spec(self.board),
    {
        proof {
            lemma_popcount_max(self.board.occ_squares[0]);
            lemma_popcount_max(self.board.occ_squares[1]);
        }
        let side = self.board.side_to_move;
        let opp_side = side ^ 1;
        assert(opp_side == 1 - side) by (bit_vector)
            requires
                side < 2,
                opp_side == side ^ 1,
        ;
        self.board.num_pieces[side] - self.board.num_pieces[opp_side]
    }

    /// Searches `board` to each depth from 1 to `target_depth` and keeps the best
    /// root move of the last iteration that found one.
    pub fn find_best_move(&mut self, board: Board, target_depth: u32)
        requires
            board.wf(),
        ensures
            final(self).board == board,
            (final(self).best_move, final(self).best_eval) == deepen(board, target_depth as nat),
            is_invalid(final(self).best_move) || legal_move_of(board, final(self).best_move),
            target_depth == 0 ==> is_invalid(final(self).best_move) && final(self).best_eval == i32::MIN
                + 1,
            board_moves(board) == 0 ==> is_invalid(final(self).best_move) && final(self).best_eval
                == i32::MIN + 1,
    {
        self.board = board;
        self.best_move = Move::invalid_move();
        self.best_eval = i32::MIN + 1;
        let mut search_depth: u32 = 0;
        while search_depth < target_depth
            invariant
                board.wf(),
                search_depth <= target_depth,
                (self.best_move, self.best_eval) == deepen(board, search_depth as nat),
                self.board == board,
                is_invalid(self.best_move) || legal_move_of(board, self.best_move),
                search_depth == 0 ==> is_invalid(self.best_move) && self.best_eval == i32::MIN + 1,
                board_moves(board) == 0 ==> is_invalid(self.best_move) && self.best_eval == i32::MIN + 1,
            decreases target_depth - search_depth,
        {
            search_depth = search_depth + 1;
            self.board = board;
            self.best_move_this_iter = Move::invalid_move();
            self.best_eval_this_iter = i32::MIN;
            self.search_depth(i32::MIN + 1, i32::MAX, search_depth, 0);
            if self.best_move_this_iter.square < 64 {
                self.best_move = self.best_move_this_iter;
                self.best_eval = self.best_eval_this_iter;
            }
        }
    }

    /// Fail-hard negamax score of the working board, searched `depth` plies deep
    /// within the window (`alpha`, `beta`). The board is left as it was. At the
    /// root (`mvs_made == 0`) each move that raises `alpha` becomes the
    /// iteration's best.
    pub fn search_depth(&mut self, alpha: i32, beta: i32, depth: u32, mvs_made: u32) -> (r: i32)
        requires
            old(self).board.wf(),
            alpha > i32::MIN,
            beta > i32::MIN,
            mvs_made as int + depth as int <= u32::MAX,
        ensures
            final(self).board == old(self).board,
            r > i32::MIN,
            r as int == negamax(old(self).board, alpha as int, beta as int, depth as nat),
            mvs_made == 0 ==> (final(self).best_move_this_iter, final(self).best_eval_this_iter)
                == root_record(
                old(self).board,
                alpha as int,
                beta as int,
                depth as nat,
                (old(self).best_move_this_iter, old(self).best_eval_this_iter),
            ),
            depth == 0 ==> r as int == eval_spec(old(self).board),
            depth > 0 && game_over(old(self).board) ==> r == terminal_score(eval_spec(old(self).board)),
            final(self).best_move == old(self).best_move,
            final(self).best_eval == old(self).best_eval,
            (mvs_made > 0 || board_moves(old(self).board) == 0) ==> final(self).best_move_this_iter
                == old(self).best_move_this_iter && final(self).best_eval_this_iter
                == old(self).best_eval_this_iter,
            final(self).best_move_this_iter == old(self).best_move_this_iter || legal_move_of(
                old(self).board,
                final(self).best_move_this_iter,
            ),
        decreases depth,
    {
        if depth == 0 {
            return self.evaluate_position();
        }
        let ghost start = self.board;
        let side = self.board.side_to_move;
        assert(side ^ 1 == 1 - side) by (bit_vector)
            requires
                side < 2,
        ;
        let moves: u64 = self.move_generator.generate_legal_moves(&self.board);
        if moves == 0 {
            self.board.side_to_move = side ^ 1;
            let moves: u64 = self.move_generator.generate_legal_moves(&self.board);
            if moves == 0 {
                self.board.side_to_move = side;
                let eval = self.evaluate_position();
                if eval > 0 {
                    return i32::MAX;
                } else if eval < 0 {
                    return i32::MIN + 1;
                } else {
                    return 0;
                }
            }
            let r = self.search_depth(-beta, -alpha, depth - 1, mvs_made + 1);
            self.board.side_to_move = side;
            return -r;
        }
        let mvs: Vec<Move> = self.move_generator.conv_move_bitboard2vec(moves, side);
        let mut running_alpha = alpha;
        let mut i: usize = 0;
        proof {
            lemma_legal_moves_unoccupied(start.occ_squares, side as int);
        }
        while i < mvs.len()
            invariant
                self.board == start,
                start == old(self).board,
                moves != 0,
                start.wf(),
                side == start.side_to_move,
                running_alpha > i32::MIN,
                beta > i32::MIN,
                depth > 0,
                mvs_made as int + depth as int <= u32::MAX,
                self.best_move == old(self).best_move,
                self.best_eval == old(self).best_eval,
                mvs_made > 0 ==> self.best_move_this_iter == old(self).best_move_this_iter
                    && self.best_eval_this_iter == old(self).best_eval_this_iter,
                self.best_move_this_iter == old(self).best_move_this_iter || legal_move_of(
                    start,
                    self.best_move_this_iter,
                ),
                moves == board_moves(start),
                mvs@ == bits_to_moves(moves, side, 64),
                mvs@.len() <= 64,
                i <= mvs@.len(),
                negamax(start, alpha as int, beta as int, depth as nat) == scan_moves(
                    start,
                    mvs@,
                    i as int,
                    running_alpha as int,
                    beta as int,
                    depth as nat,
                ),
                mvs_made == 0 ==> root_record(
                    start,
                    alpha as int,
                    beta as int,
                    depth as nat,
                    (old(self).best_move_this_iter, old(self).best_eval_this_iter),
                ) == scan_record(
                    start,
                    mvs@,
                    i as int,
                    running_alpha as int,
                    beta as int,
                    depth as nat,
                    (self.best_move_this_iter, self.best_eval_this_iter),
                ),
                moves & (start.occ_squares[0] | start.occ_squares[1]) == 0,
                forall|j: int|
                    0 <= j < mvs@.len() ==> (#[trigger] mvs@[j]).square < 64 && mvs@[j].side == side
                        && (moves >> mvs@[j].square) & 1 == 1,
            decreases mvs@.len() - i,
        {
            let mv: Move = mvs[i];
            let occ = self.board.occ_squares[0] | self.board.occ_squares[1];
            let sq = mv.square;
            assert(occ & (1u64 << sq) == 0) by (bit_vector)
                requires
                    moves & occ == 0,
                    (moves >> sq) & 1 == 1,
                    sq < 64,
            ;
            let buffer = self.board;
            self.board.make_move(mv);
            let eval = -self.search_depth(-beta, -running_alpha, depth - 1, mvs_made + 1);
            self.board = buffer;
            if eval >= beta {
                return beta;
            }
            if eval > running_alpha {
                running_alpha = eval;
                if mvs_made == 0 {
                    self.best_move_this_iter = mv;
                    self.best_eval_this_iter = eval;
                }
            }
            i = i + 1;
        }
        running_alpha
    }
}

} // verus!
