//! Legal-move generation by bit-parallel sliding in the eight directions.

use vstd::prelude::*;
use crate::board::{Board, Move, shift_spec, captures};
use crate::geometry::{lemma_legal_iff_captures, lemma_dir_link, opposite_dir, ray_from};

verus! {

/// Edge masks, one per direction, applied to the opponent's discs: an opponent
/// disc inside a run lies strictly between two squares of one line, so it is
/// never on an edge row or column that the direction crosses. Clearing those
/// keeps a run from wrapping from one edge of the board onto the opposite one.
pub const BIT_BOARD_DOWN: u64 = 0x00FFFFFFFFFFFF00;
pub const BIT_BOARD_RIGHT: u64 = 0x7E7E7E7E7E7E7E7E;
pub const BIT_BOARD_DOWN_RIGHT: u64 = 0x007E7E7E7E7E7E00;
pub const BIT_BOARD_DOWN_LEFT: u64 = 0x007E7E7E7E7E7E00;
pub const BIT_BOARD_UP: u64 = 0x00FFFFFFFFFFFF00;
pub const BIT_BOARD_LEFT: u64 = 0x7E7E7E7E7E7E7E7E;
pub const BIT_BOARD_UP_RIGHT: u64 = 0x007E7E7E7E7E7E00;
pub const BIT_BOARD_UP_LEFT: u64 = 0x007E7E7E7E7E7E00;

/// The edge mask of direction `d` (all squares for other values).
pub open spec fn edge_mask(d: int) -> u64 {
    if d == 0 {
        BIT_BOARD_DOWN
    } else if d == 1 {
        BIT_BOARD_RIGHT
    } else if d == 2 {
        BIT_BOARD_DOWN_RIGHT
    } else if d == 3 {
        BIT_BOARD_DOWN_LEFT
    } else if d == 4 {
        BIT_BOARD_UP
    } else if d == 5 {
        BIT_BOARD_LEFT
    } else if d == 6 {
        BIT_BOARD_UP_RIGHT
    } else if d == 7 {
        BIT_BOARD_UP_LEFT
    } else {
        0xFFFF_FFFF_FFFF_FFFF
    }
}

/// Opponent discs reached from `own` by runs of up to `n + 1` opponent discs in direction `d`.
pub open spec fn chain(own: u64, opp: u64, d: int, n: nat) -> u64
    decreases n,
{
    if n == 0 {
        opp & shift_spec(own, d)
    } else {
        let c = chain(own, opp, d, (n - 1) as nat);
        c | (opp & shift_spec(c, d))
    }
}

/// Empty squares that end a run of opponent discs starting next to a disc of
/// `side`, in direction `d`.
pub open spec fn moves_in_dir_spec(occ: [u64; 2], side: int, d: int) -> u64 {
    let opp = occ[1 - side] & edge_mask(d);
    !(occ[0] | occ[1]) & shift_spec(chain(occ[side], opp, d, 5), d)
}

/// Legal squares for `side` found in the first `n` directions.
pub open spec fn legal_upto(occ: [u64; 2], side: int, n: int) -> u64
    decreases n,
{
    if n <= 0 {
        0
    } else {
        legal_upto(occ, side, n - 1) | moves_in_dir_spec(occ, side, n - 1)
    }
}

/// The squares where `side` may place a disc.
pub open spec fn legal_moves_spec(occ: [u64; 2], side: int) -> u64 {
    legal_upto(occ, side, 8)
}

/// The squares where the side to move on `b` may place a disc.
pub open spec fn board_moves(b: Board) -> u64 {
    legal_moves_spec(b.occ_squares, b.side_to_move as int)
}

/// The moves of `side`, one for each set bit of `bb` below `n`, in ascending order.
pub open spec fn bits_to_moves(bb: u64, side: usize, n: nat) -> Seq<Move>
    decreases n,
{
    if n == 0 {
        seq![]
    } else {
        let s = bits_to_moves(bb, side, (n - 1) as nat);
        if (bb >> ((n - 1) as u64)) & 1 == 1 {
            s.push(Move { square: (n - 1) as u32, side })
        } else {
            s
        }
    }
}

/// No bit of `bb` below position `n` is set.
pub open spec fn low_bits_clear(bb: u64, n: u32) -> bool {
    if n == 0 {
        true
    } else if n >= 64 {
        bb == 0
    } else {
        bb & (u64::MAX >> ((64 - n) as u32)) == 0
    }
}

/// No legal square is held by either side.
pub proof fn lemma_legal_moves_unoccupied(occ: [u64; 2], side: int)
    ensures
        legal_moves_spec(occ, side) & (occ[0] | occ[1]) == 0,
{
    lemma_legal_upto_unoccupied(occ, side, 8);
}

proof fn lemma_legal_upto_unoccupied(occ: [u64; 2], side: int, n: int)
    ensures
        legal_upto(occ, side, n) & (occ[0] | occ[1]) == 0,
    decreases n,
{
    let o = occ[0] | occ[1];
    if n <= 0 {
        assert(0u64 & o == 0) by (bit_vector);
    } else {
        lemma_legal_upto_unoccupied(occ, side, n - 1);
        let a = legal_upto(occ, side, n - 1);
        let x = shift_spec(chain(occ[side], occ[1 - side] & edge_mask(n - 1), n - 1, 5), n - 1);
        assert((a | (!o & x)) & o == 0) by (bit_vector)
            requires
                a & o == 0,
        ;
    }
}

/// A stateless generator of legal moves.
#[derive(Copy, Clone)]
pub struct MoveGenerator {}

impl MoveGenerator {
    pub fn new() -> (r: MoveGenerator) {
        MoveGenerator {}
    }

    /// The squares where the side to move may place a disc: the union of the
    /// eight directions' moves. None of them is occupied.
    pub fn generate_legal_moves(&self, board: &Board) -> (r: u64)
        requires
            board.wf(),
        ensures
            r == board_moves(*board),
            r & (board.occ_squares[0] | board.occ_squares[1]) == 0,
            forall|sq: u64|
                sq < 64 ==> ((#[trigger] (r >> sq) & 1 == 1) <==> ((board.empty_spec() >> sq) & 1 == 1
                    && captures(board.occ_squares, board.side_to_move as int, sq as int) != 0)),
    {
        let mut legal_moves: u64 = 0;
        let mut direction: usize = 0;
        while direction < 8
            invariant
                direction <= 8,
                board.wf(),
                legal_moves == legal_upto(board.occ_squares, board.side_to_move as int, direction as int),
            decreases 8 - direction,
        {
            legal_moves = legal_moves | self.generate_moves_in_dir(board, direction);
            direction = direction + 1;
        }
        proof {
            lemma_legal_moves_unoccupied(board.occ_squares, board.side_to_move as int);
            assert forall|sq: u64| sq < 64 implies ((#[trigger] (legal_moves >> sq) & 1 == 1) <==> ((
            board.empty_spec() >> sq) & 1 == 1 && captures(
                board.occ_squares,
                board.side_to_move as int,
                sq as int,
            ) != 0)) by {
                lemma_legal_iff_captures(board.occ_squares, board.side_to_move as int, sq);
            }
        }
        legal_moves
    }

    /// The empty squares that end, in `direction`, a run of opponent discs
    /// next to a disc of the side to move.
    pub fn generate_moves_in_dir(&self, board: &Board, direction: usize) -> (r: u64)
        requires
            board.wf(),
        ensures
            r == moves_in_dir_spec(board.occ_squares, board.side_to_move as int, direction as int),
            direction < 8 ==> forall|sq: u64|
                sq < 64 ==> ((#[trigger] (r >> sq) & 1 == 1) <==> ((board.empty_spec() >> sq) & 1 == 1
                    && ray_from(
                    board.occ_squares,
                    board.side_to_move as int,
                    sq,
                    opposite_dir(direction as int),
                ) != 0)),
    {
        let side = board.side_to_move;
        let opp_side = side ^ 1;
        assert(opp_side == 1 - side) by (bit_vector)
            requires
                side < 2,
                opp_side == side ^ 1,
        ;
        let mask: u64 = match direction {
            0 => BIT_BOARD_DOWN,
            1 => BIT_BOARD_RIGHT,
            2 => BIT_BOARD_DOWN_RIGHT,
            3 => BIT_BOARD_DOWN_LEFT,
            4 => BIT_BOARD_UP,
            5 => BIT_BOARD_LEFT,
            6 => BIT_BOARD_UP_RIGHT,
            7 => BIT_BOARD_UP_LEFT,
            _ => 0xFFFF_FFFF_FFFF_FFFF,
        };
        let opp = board.occ_squares[opp_side] & mask;
        let own = board.occ_squares[side];
        let mut p_atts = opp & board.shift_bitboard_in_dir(own, direction);
        p_atts = p_atts | (opp & board.shift_bitboard_in_dir(p_atts, direction));
        p_atts = p_atts | (opp & board.shift_bitboard_in_dir(p_atts, direction));
        p_atts = p_atts | (opp & board.shift_bitboard_in_dir(p_atts, direction));
        p_atts = p_atts | (opp & board.shift_bitboard_in_dir(p_atts, direction));
        p_atts = p_atts | (opp & board.shift_bitboard_in_dir(p_atts, direction));
        proof {
            reveal_with_fuel(chain, 6);
        }
        let r = board.get_empty_squares() & board.shift_bitboard_in_dir(p_atts, direction);
        proof {
            if direction < 8 {
                assert forall|sq: u64| sq < 64 implies ((#[trigger] (r >> sq) & 1 == 1) <==> ((
                board.empty_spec() >> sq) & 1 == 1 && ray_from(
                    board.occ_squares,
                    board.side_to_move as int,
                    sq,
                    opposite_dir(direction as int),
                ) != 0)) by {
                    lemma_dir_link(
                        board.occ_squares,
                        board.side_to_move as int,
                        sq,
                        direction as int,
                        opposite_dir(direction as int),
                    );
                }
            }
        }
        r
    }

    /// One move of `side` for each set bit of `bitboard`, in ascending square order.
    pub fn conv_move_bitboard2vec(&self, bitboard: u64, side: usize) -> (r: Vec<Move>)
        ensures
            r@ == bits_to_moves(bitboard, side, 64),
            r@.len() <= 64,
            bitboard != 0 ==> r@.len() > 0,
            forall|j: int|
                0 <= j < r@.len() ==> (#[trigger] r@[j]).square < 64 && r@[j].side == side && (bitboard
                    >> r@[j].square) & 1 == 1,
    {
        let mut moves: Vec<Move> = Vec::new();
        let mut rest: u64 = bitboard;
        let mut i: u32 = 0;
        assert(bitboard >> 0u32 == bitboard) by (bit_vector);
        while i < 64
            invariant
                i <= 64,
                rest == bitboard >> i,
                moves@ == bits_to_moves(bitboard, side, i as nat),
                moves@.len() <= i,
                moves@.len() == 0 ==> low_bits_clear(bitboard, i),
                forall|j: int|
                    0 <= j < moves@.len() ==> (#[trigger] moves@[j]).square < i && moves@[j].side == side
                        && (bitboard >> moves@[j].square) & 1 == 1,
            decreases 64 - i,
        {
            let b = rest & 1;
            assert(rest >> 1u64 == bitboard >> ((i + 1) as u32)) by (bit_vector)
                requires
                    rest == bitboard >> i,
                    i < 64,
            ;
            assert(b <= 1 && (low_bits_clear(bitboard, i) && b == 0 ==> low_bits_clear(bitboard, (i + 1) as u32)))
                by (bit_vector)
                requires
                    rest == bitboard >> i,
                    b == rest & 1,
                    i < 64,
            ;
            rest = rest >> 1;
            if b == 1 {
                moves.push(Move::new(i, side));
            }
            i = i + 1;
        }
        moves
    }
}

} // verus!
