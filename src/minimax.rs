//! The value that alpha-beta pruning approximates: plain negamax without a
//! window, and how the fail-hard search relates to it.

use vstd::prelude::*;
use crate::board::{Board, Move, apply_spec, flip_spec};
use crate::movegen::{board_moves, bits_to_moves, low_bits_clear};
use crate::search::{eval_spec, terminal_score, negamax, scan_moves};

verus! {

/// Negamax value of `b` searched `depth` plies deep, without pruning.
pub open spec fn minimax(b: Board, depth: nat) -> int
    decreases depth, 65int,
{
    if depth == 0 {
        eval_spec(b)
    } else if board_moves(b) == 0 {
        if board_moves(flip_spec(b)) == 0 {
            terminal_score(eval_spec(b)) as int
        } else {
            -minimax(flip_spec(b), (depth - 1) as nat)
        }
    } else {
        let ms = bits_to_moves(board_moves(b), b.side_to_move, 64);
        if ms.len() == 0 {
            eval_spec(b)
        } else {
            best_from(b, ms, 1, depth, -minimax(apply_spec(b, ms[0]), (depth - 1) as nat))
        }
    }
}

/// The largest of `acc` and the children's values for the moves `ms` from index `i` on.
pub open spec fn best_from(b: Board, ms: Seq<Move>, i: int, depth: nat, acc: int) -> int
    decreases depth, 64 - i,
{
    if depth == 0 || i < 0 || i >= ms.len() || i >= 64 {
        acc
    } else {
        let c = -minimax(apply_spec(b, ms[i]), (depth - 1) as nat);
        best_from(b, ms, i + 1, depth, if c > acc { c } else { acc })
    }
}

proof fn lemma_best_from_ge(b: Board, ms: Seq<Move>, i: int, depth: nat, acc: int)
    ensures
        best_from(b, ms, i, depth, acc) >= acc,
    decreases 64 - i,
{
    if !(depth == 0 || i < 0 || i >= ms.len() || i >= 64) {
        let c = -minimax(apply_spec(b, ms[i]), (depth - 1) as nat);
        lemma_best_from_ge(b, ms, i + 1, depth, if c > acc { c } else { acc });
    }
}

proof fn lemma_bits_nonempty(bb: u64, side: usize, n: u32)
    requires
        n <= 64,
        bits_to_moves(bb, side, n as nat).len() == 0,
    ensures
        low_bits_clear(bb, n),
    decreases n,
{
    if n > 0 {
        let m = (n - 1) as u32;
        lemma_bits_nonempty(bb, side, m);
        assert(bits_to_moves(bb, side, n as nat) == if (bb >> (m as u64)) & 1 == 1 {
            bits_to_moves(bb, side, m as nat).push(Move { square: m as u32, side })
        } else {
            bits_to_moves(bb, side, m as nat)
        });
        assert(low_bits_clear(bb, m) && (bb >> (m as u64)) & 1 != 1 ==> low_bits_clear(bb, (m + 1) as u32))
            by (bit_vector)
            requires
                m < 64,
        ;
    }
}

/// The fail-hard search brackets the plain negamax value `v`: at most `alpha`
/// when `v <= alpha`, at least `beta` when `v >= beta`, and exactly `v` in between.
pub proof fn lemma_alpha_beta(b: Board, alpha: int, beta: int, depth: nat)
    requires
        alpha < beta,
    ensures
        minimax(b, depth) <= alpha ==> negamax(b, alpha, beta, depth) <= alpha,
        minimax(b, depth) >= beta ==> negamax(b, alpha, beta, depth) >= beta,
        alpha < minimax(b, depth) < beta ==> negamax(b, alpha, beta, depth) == minimax(b, depth),
    decreases depth, 65int,
{
    if depth > 0 && board_moves(b) == 0 {
        if board_moves(flip_spec(b)) != 0 {
            lemma_alpha_beta(flip_spec(b), -beta, -alpha, (depth - 1) as nat);
        }
    } else if depth > 0 {
        let ms = bits_to_moves(board_moves(b), b.side_to_move, 64);
        if ms.len() == 0 {
            lemma_bits_nonempty(board_moves(b), b.side_to_move, 64);
        } else {
            lemma_scan(b, ms, 0, alpha, beta, depth);
            let c0 = -minimax(apply_spec(b, ms[0]), (depth - 1) as nat);
            assert(best_from(b, ms, 0, depth, alpha) == best_from(
                b,
                ms,
                1,
                depth,
                if c0 > alpha { c0 } else { alpha },
            ));
            lemma_best_from_ge(b, ms, 1, depth, c0);
            lemma_best_from_mono(b, ms, 1, depth, alpha, c0);
        }
    }
}

proof fn lemma_best_from_mono(b: Board, ms: Seq<Move>, i: int, depth: nat, alpha: int, c0: int)
    ensures
        best_from(b, ms, i, depth, if c0 > alpha { c0 } else { alpha }) == if best_from(b, ms, i, depth, c0) > alpha {
            best_from(b, ms, i, depth, c0)
        } else {
            alpha
        },
    decreases 64 - i,
{
    if !(depth == 0 || i < 0 || i >= ms.len() || i >= 64) {
        let c = -minimax(apply_spec(b, ms[i]), (depth - 1) as nat);
        let a1 = if c0 > alpha { c0 } else { alpha };
        let n1 = if c > c0 { c } else { c0 };
        lemma_best_from_mono(b, ms, i + 1, depth, alpha, n1);
        assert((if c > a1 { c } else { a1 }) == (if n1 > alpha { n1 } else { alpha }));
    }
}

/// The scan with running alpha `a` returns `beta` when the best of `a` and the
/// remaining children reaches `beta`, and that best otherwise.
proof fn lemma_scan(b: Board, ms: Seq<Move>, i: int, a: int, beta: int, depth: nat)
    requires
        a < beta,
        depth > 0,
    ensures
        best_from(b, ms, i, depth, a) >= beta ==> scan_moves(b, ms, i, a, beta, depth) == beta,
        best_from(b, ms, i, depth, a) < beta ==> scan_moves(b, ms, i, a, beta, depth) == best_from(
            b,
            ms,
            i,
            depth,
            a,
        ),
    decreases depth, 64 - i,
{
    if !(i < 0 || i >= ms.len() || i >= 64) {
        let child = apply_spec(b, ms[i]);
        let c = -minimax(child, (depth - 1) as nat);
        lemma_alpha_beta(child, -beta, -a, (depth - 1) as nat);
        if c >= beta {
            lemma_best_from_ge(b, ms, i + 1, depth, c);
        } else if c <= a {
            lemma_scan(b, ms, i + 1, a, beta, depth);
        } else {
            lemma_scan(b, ms, i + 1, c, beta, depth);
        }
    }
}

} // verus!
