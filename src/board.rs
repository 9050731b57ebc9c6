//! Moves and the bit-board position.
//!
//! Square `row * 8 + col` is bit `row * 8 + col` of a mask. Directions are
//! numbered 0..8: down, right, down-right, down-left, up, left, up-right, up-left.

use vstd::prelude::*;
use crate::bits::{popcount, count_bits, lemma_popcount_or, lemma_popcount_remove, lemma_popcount_single, lemma_popcount_max};

verus! {

broadcast use vstd::array::group_array_axioms;

/// Discs of side 0 in the standard opening.
pub const W_STD_START_POS: u64 = 0x1008000000;

/// Discs of side 1 in the standard opening.
pub const B_STD_START_POS: u64 = 0x810000000;

/// Square value of the move that stands for "no move".
pub const INVALID_SQUARE: u32 = 128;

/// Side value of the move that stands for "no move".
pub const INVALID_SIDE: usize = 2;

/// A disc placed on `square` by `side`.
#[derive(Copy, Clone, Debug, PartialEq, Eq, Structural)]
pub struct Move {
    pub square: u32,
    pub side: usize,
}

impl Move {
    /// Whether the move names a real square and a real side.
    pub open spec fn is_real(self) -> bool {
        self.square < 64 && self.side < 2
    }

    pub fn new(square: u32, side: usize) -> (r: Move)
        ensures
            r.square == square,
            r.side == side,
    {
        Move { square, side }
    }

    /// The move that stands for "no move".
    pub fn invalid_move() -> (r: Move)
        ensures
            r.square == INVALID_SQUARE,
            r.side == INVALID_SIDE,
    {
        let square: u32 = INVALID_SQUARE;
        let side: usize = INVALID_SIDE;
        Move { square, side }
    }
}

/// Shift of a mask by one step in direction `d` (no shift for other values).
pub open spec fn shift_spec(b: u64, d: int) -> u64 {
    if d == 0 {
        b << 8u64
    } else if d == 1 {
        b << 1u64
    } else if d == 2 {
        b << 9u64
    } else if d == 3 {
        b << 7u64
    } else if d == 4 {
        b >> 8u64
    } else if d == 5 {
        b >> 1u64
    } else if d == 6 {
        b >> 7u64
    } else if d == 7 {
        b >> 9u64
    } else {
        b
    }
}

pub open spec fn min_spec(a: int, b: int) -> int {
    if a < b {
        a
    } else {
        b
    }
}

/// How many steps lead from square `sq` to the board's edge in direction `d`.
pub open spec fn dist_spec(sq: int, d: int) -> int {
    let y = sq / 8;
    let x = sq % 8;
    if d == 0 {
        7 - y
    } else if d == 1 {
        7 - x
    } else if d == 2 {
        min_spec(7 - y, 7 - x)
    } else if d == 3 {
        min_spec(7 - y, x)
    } else if d == 4 {
        y
    } else if d == 5 {
        x
    } else if d == 6 {
        min_spec(y, 7 - x)
    } else {
        min_spec(x, y)
    }
}

/// The discs a walk from `pos` in direction `d` captures: over at most `steps`
/// steps, stop with nothing on an empty square, with what `acc` gathered on one
/// of the mover's own, and gather every other square.
pub open spec fn ray_capture(empty: u64, own: u64, pos: u64, d: int, steps: nat, acc: u64) -> u64
    decreases steps,
{
    if steps == 0 {
        0
    } else {
        let p = shift_spec(pos, d);
        if p & empty != 0 {
            0
        } else if p & own != 0 {
            acc
        } else {
            ray_capture(empty, own, p, d, (steps - 1) as nat, acc | p)
        }
    }
}

/// The discs captured in the first `n` directions by placing a disc of `side` on `sq`.
pub open spec fn captures_upto(occ: [u64; 2], side: int, sq: int, n: int) -> u64
    decreases n,
{
    if n <= 0 {
        0
    } else {
        captures_upto(occ, side, sq, n - 1) | ray_capture(
            !(occ[0] | occ[1]),
            occ[side],
            1u64 << (sq as u64),
            n - 1,
            dist_spec(sq, n - 1) as nat,
            0,
        )
    }
}

/// The discs captured by placing a disc of `side` on `sq`.
pub open spec fn captures(occ: [u64; 2], side: int, sq: int) -> u64 {
    captures_upto(occ, side, sq, 8)
}

/// The position after `side` of `mv` places a disc on `mv.square` of `b`.
pub open spec fn apply_spec(b: Board, mv: Move) -> Board {
    let side = mv.side as int;
    let cap = captures(b.occ_squares, side, mv.square as int);
    let own = b.occ_squares[side] | cap | (1u64 << mv.square);
    let opp = b.occ_squares[1 - side] ^ cap;
    let own_n = (b.num_pieces[side] + popcount(cap) + 1) as i32;
    let opp_n = (b.num_pieces[1 - side] - popcount(cap)) as i32;
    Board {
        occ_squares: if side == 0 {
            [own, opp]
        } else {
            [opp, own]
        },
        num_pieces: if side == 0 {
            [own_n, opp_n]
        } else {
            [opp_n, own_n]
        },
        side_to_move: (1 - b.side_to_move) as usize,
        dist_to_edge: b.dist_to_edge,
    }
}

/// `b` with the turn handed to the other side.
pub open spec fn flip_spec(b: Board) -> Board {
    Board {
        occ_squares: b.occ_squares,
        num_pieces: b.num_pieces,
        side_to_move: (1 - b.side_to_move) as usize,
        dist_to_edge: b.dist_to_edge,
    }
}

/// The symbol of square `i`: `W` for side 0, `B` for side 1, `.` when empty.
pub open spec fn symbol_at(b: Board, i: u64) -> char {
    if (b.occ_squares[0] >> i) & 1 == 1 {
        'W'
    } else if (b.occ_squares[1] >> i) & 1 == 1 {
        'B'
    } else {
        '.'
    }
}

/// An Othello position.
#[derive(Copy, Clone)]
pub struct Board {
    pub occ_squares: [u64; 2],
    pub num_pieces: [i32; 2],
    pub side_to_move: usize,
    pub dist_to_edge: [[usize; 8]; 64],
}

impl Board {
    /// The board's invariant: no square held twice, counts that match the
    /// masks, a real side to move and the fixed table of edge distances.
    pub open spec fn wf(&self) -> bool {
        &&& self.occ_squares[0] & self.occ_squares[1] == 0
        &&& self.num_pieces[0] as int == popcount(self.occ_squares[0])
        &&& self.num_pieces[1] as int == popcount(self.occ_squares[1])
        &&& self.side_to_move < 2
        &&& forall|s: int, d: int|
            0 <= s < 64 && 0 <= d < 8 ==> #[trigger] self.dist_to_edge[s][d] as int == dist_spec(s, d)
    }

    /// The squares that neither side holds.
    pub open spec fn empty_spec(&self) -> u64 {
        !(self.occ_squares[0] | self.occ_squares[1])
    }

    /// Sets up a position from the two sides' discs and the side to move.
    pub fn new(w_start_pos: u64, b_start_pos: u64, side_to_move: usize) -> (r: Board)
        requires
            w_start_pos & b_start_pos == 0,
            side_to_move < 2,
        ensures
            r.wf(),
            r.occ_squares[0] == w_start_pos,
            r.occ_squares[1] == b_start_pos,
            r.side_to_move == side_to_move,
    {
        let occ_squares = [w_start_pos, b_start_pos];
        let num_pieces = [count_bits(w_start_pos) as i32, count_bits(b_start_pos) as i32];
        let mut dist_to_edge = [[0usize; 8]; 64];
        let mut sq: usize = 0;
        while sq < 64
            invariant
                sq <= 64,
                forall|s: int, d: int|
                    0 <= s < sq && 0 <= d < 8 ==> #[trigger] dist_to_edge[s][d] as int == dist_spec(s, d),
            decreases 64 - sq,
        {
            let y: usize = sq / 8;
            let x: usize = sq % 8;
            let mut row = [0usize; 8];
            row[0] = 7 - y;
            row[1] = 7 - x;
            row[2] = min_usize(7 - y, 7 - x);
            row[3] = min_usize(7 - y, x);
            row[4] = y;
            row[5] = x;
            row[6] = min_usize(y, 7 - x);
            row[7] = min_usize(x, y);
            dist_to_edge[sq] = row;
            sq = sq + 1;
        }
        Board { occ_squares, num_pieces, side_to_move, dist_to_edge }
    }

    /// Places a disc of `mv.side` on the empty square `mv.square`, turns the
    /// captured discs over and passes the turn.
    pub fn make_move(&mut self, mv: Move)
        requires
            old(self).wf(),
            mv.is_real(),
            (old(self).occ_squares[0] | old(self).occ_squares[1]) & (1u64 << mv.square) == 0,
        ensures
            final(self).wf(),
            *final(self) == apply_spec(*old(self), mv),
            (old(self).occ_squares[0] | old(self).occ_squares[1]) & !(final(self).occ_squares[0]
                | final(self).occ_squares[1]) == 0,
            captures(old(self).occ_squares, mv.side as int, mv.square as int) & !old(self).occ_squares[1
                - mv.side] == 0,
            final(self).occ_squares[1 - mv.side] == old(self).occ_squares[1 - mv.side] ^ captures(
                old(self).occ_squares,
                mv.side as int,
                mv.square as int,
            ),
            final(self).occ_squares[mv.side as int] == old(self).occ_squares[mv.side as int] | captures(
                old(self).occ_squares,
                mv.side as int,
                mv.square as int,
            ) | (1u64 << mv.square),
            final(self).num_pieces[mv.side as int] == old(self).num_pieces[mv.side as int] + popcount(
                captures(old(self).occ_squares, mv.side as int, mv.square as int),
            ) + 1,
            final(self).num_pieces[1 - mv.side] == old(self).num_pieces[1 - mv.side] - popcount(
                captures(old(self).occ_squares, mv.side as int, mv.square as int),
            ),
            final(self).num_pieces[0] + final(self).num_pieces[1] == old(self).num_pieces[0]
                + old(self).num_pieces[1] + 1,
            final(self).side_to_move == 1 - old(self).side_to_move,
            final(self).dist_to_edge == old(self).dist_to_edge,
    {
        let ghost occ = self.occ_squares;
        let ghost side = mv.side as int;
        let ghost sq = mv.square as int;
        let side_idx: usize = mv.side;
        let opp_idx: usize = mv.side ^ 1;
        assert(opp_idx == 1 - side_idx) by (bit_vector)
            requires
                side_idx < 2,
                opp_idx == side_idx ^ 1,
        ;
        let own = self.occ_squares[side_idx];
        let opp = self.occ_squares[opp_idx];
        let empty = self.get_empty_squares();
        let start: u64 = 1u64 << mv.square;
        assert(empty == !(own | opp) && own & opp == 0 && (own | opp) == (occ[0] | occ[1])) by {
            let a = occ[0];
            let b = occ[1];
            assert(!(a | b) == !(b | a) && a & b == b & a && a | b == b | a) by (bit_vector);
        }
        let mut captured: u64 = 0;
        assert(captured & !opp == 0) by (bit_vector)
            requires
                captured == 0,
        ;
        let mut direction: usize = 0;
        while direction < 8
            invariant
                0 <= direction <= 8,
                self.wf(),
                self.occ_squares == occ,
                self.side_to_move == old(self).side_to_move,
                own == occ[side],
                opp == occ[1 - side],
                empty == !(own | opp),
                empty == !(occ[0] | occ[1]),
                start == 1u64 << (sq as u64),
                0 <= sq < 64,
                sq == mv.square,
                (own | opp) & start == 0,
                captured == captures_upto(occ, side, sq, direction as int),
                captured & !opp == 0,
            decreases 8 - direction,
        {
            let dist = self.dist_to_edge[mv.square as usize][direction];
            assert(self.dist_to_edge[sq][direction as int] as int == dist_spec(sq, direction as int));
            let ghost whole = ray_capture(empty, own, start, direction as int, dist as nat, 0);
            let ghost before = captured;
            let mut piece_pos: u64 = start;
            let mut capture_dir: u64 = 0;
            let mut k: usize = 0;
            let mut done = false;
            assert(capture_dir & !opp == 0) by (bit_vector)
                requires
                    capture_dir == 0,
            ;
            while k < dist && !done
                invariant
                    k <= dist,
                    dist as int == dist_spec(sq, direction as int),
                    direction < 8,
                    own == occ[side],
                    opp == occ[1 - side],
                    empty == !(own | opp),
                    whole == ray_capture(empty, own, start, direction as int, dist as nat, 0),
                    before == captures_upto(occ, side, sq, direction as int),
                    before & !opp == 0,
                    capture_dir & !opp == 0,
                    done ==> captured == before | whole,
                    !done ==> captured == before,
                    !done ==> whole == ray_capture(
                        empty,
                        own,
                        piece_pos,
                        direction as int,
                        (dist - k) as nat,
                        capture_dir,
                    ),
                    captured & !opp == 0,
                decreases dist - k + (if done { 0int } else { 1int }),
            {
                piece_pos = self.shift_bitboard_in_dir(piece_pos, direction);
                if piece_pos & empty != 0 {
                    assert(before | 0 == before) by (bit_vector);
                    done = true;
                } else if piece_pos & own != 0 {
                    captured = captured | capture_dir;
                    assert((before | capture_dir) & !opp == 0) by (bit_vector)
                        requires
                            before & !opp == 0,
                            capture_dir & !opp == 0,
                    ;
                    done = true;
                } else {
                    assert((capture_dir | piece_pos) & !opp == 0) by (bit_vector)
                        requires
                            capture_dir & !opp == 0,
                            piece_pos & empty == 0,
                            piece_pos & own == 0,
                            empty == !(own | opp),
                    ;
                    capture_dir = capture_dir | piece_pos;
                    k = k + 1;
                }
            }
            if !done {
                assert(before | 0 == before) by (bit_vector);
            }
            direction = direction + 1;
        }
        let ghost cap = captured;
        assert(cap == captures(occ, side, sq));
        let bit = start;
        proof {
            assert(opp & cap == cap && (opp ^ cap) & cap == 0) by (bit_vector)
                requires
                    cap & !opp == 0,
            ;
            lemma_popcount_remove(opp, cap);
            assert(own & cap == 0 && (own | cap) & bit == 0 && (opp ^ cap) & ((own | cap) | bit) == 0)
                by (bit_vector)
                requires
                    cap & !opp == 0,
                    own & opp == 0,
                    (own | opp) & bit == 0,
            ;
            lemma_popcount_or(own, cap);
            lemma_popcount_or(own | cap, bit);
            lemma_popcount_single(sq as u64);
            lemma_popcount_max((own | cap) | bit);
            assert((own | opp) & !((opp ^ cap) | ((own | cap) | bit)) == 0 && (own | opp) & !(((own
                | cap) | bit) | (opp ^ cap)) == 0) by (bit_vector)
                requires
                    cap & !opp == 0,
            ;
        }
        let n = count_bits(captured) as i32;
        self.occ_squares[opp_idx] = opp ^ captured;
        self.occ_squares[side_idx] = own | captured | bit;
        self.num_pieces[side_idx] = self.num_pieces[side_idx] + n + 1;
        self.num_pieces[opp_idx] = self.num_pieces[opp_idx] - n;
        self.side_to_move = self.side_to_move ^ 1;
        proof {
            let s = old(self).side_to_move;
            assert(s ^ 1 == 1 - s) by (bit_vector)
                requires
                    s < 2,
            ;
            let a = self.occ_squares[0];
            let b = self.occ_squares[1];
            assert(a & b == b & a) by (bit_vector);
            let r = apply_spec(*old(self), mv);
            assert(self.occ_squares@ =~= r.occ_squares@);
            assert(self.num_pieces@ =~= r.num_pieces@);
            assert(self.occ_squares == r.occ_squares && self.num_pieces == r.num_pieces);
        }
    }

    /// Toggles the bit of `mv.square` in the mask of `mv.side`, and nothing
    /// else: captured discs, counts and the side to move stay as they are, so
    /// this is no undo of `make_move` (searches restore a saved copy instead).
    pub fn unmake_move(&mut self, mv: Move)
        requires
            mv.is_real(),
        ensures
            final(self).occ_squares[mv.side as int] == old(self).occ_squares[mv.side as int] ^ (1u64
                << mv.square),
            final(self).occ_squares[1 - mv.side] == old(self).occ_squares[1 - mv.side],
            final(self).num_pieces == old(self).num_pieces,
            final(self).side_to_move == old(self).side_to_move,
            final(self).dist_to_edge == old(self).dist_to_edge,
    {
        let side = mv.side;
        self.occ_squares[side] = self.occ_squares[side] ^ (1u64 << mv.square);
    }

    /// One symbol per square in row-major order (see `symbol_at`).
    pub fn square_symbols(&self) -> (r: Vec<char>)
        ensures
            r@.len() == 64,
            forall|i: int| 0 <= i < 64 ==> #[trigger] r@[i] == symbol_at(*self, i as u64),
    {
        let mut white_pieces = self.occ_squares[0];
        let mut black_pieces = self.occ_squares[1];
        let mut symbols: Vec<char> = Vec::new();
        let mut i: u64 = 0;
        assert(white_pieces >> 0u64 == white_pieces && black_pieces >> 0u64 == black_pieces)
            by (bit_vector);
        while i < 64
            invariant
                i <= 64,
                white_pieces == self.occ_squares[0] >> i,
                black_pieces == self.occ_squares[1] >> i,
                symbols@.len() == i,
                forall|j: int| 0 <= j < i ==> #[trigger] symbols@[j] == symbol_at(*self, j as u64),
            decreases 64 - i,
        {
            let w = self.occ_squares[0];
            let b = self.occ_squares[1];
            assert(white_pieces >> 1u64 == w >> ((i + 1) as u64) && black_pieces >> 1u64 == b >> ((i
                + 1) as u64)) by (bit_vector)
                requires
                    white_pieces == w >> i,
                    black_pieces == b >> i,
                    i < 64,
            ;
            if white_pieces & 1 == 1 {
                symbols.push('W');
            } else if black_pieces & 1 == 1 {
                symbols.push('B');
            } else {
                symbols.push('.');
            }
            white_pieces = white_pieces >> 1;
            black_pieces = black_pieces >> 1;
            i = i + 1;
        }
        symbols
    }

    /// Hands the turn to the other side without placing a disc.
    pub fn pass_turn(&mut self)
        requires
            old(self).wf(),
        ensures
            final(self).wf(),
            *final(self) == flip_spec(*old(self)),
            final(self).side_to_move == 1 - old(self).side_to_move,
            final(self).occ_squares == old(self).occ_squares,
            final(self).num_pieces == old(self).num_pieces,
            final(self).dist_to_edge == old(self).dist_to_edge,
    {
        let s = self.side_to_move;
        assert(s ^ 1 == 1 - s) by (bit_vector)
            requires
                s < 2,
        ;
        self.side_to_move = s ^ 1;
    }

    /// Shifts a mask by one step in `direction`. Bits may wrap across an edge:
    /// callers bound walks by the edge distances or mask by the edge masks.
    pub fn shift_bitboard_in_dir(&self, bitboard: u64, direction: usize) -> (r: u64)
        ensures
            r == shift_spec(bitboard, direction as int),
    {
        match direction {
            0 => bitboard << 8u64,
            1 => bitboard << 1u64,
            2 => bitboard << 9u64,
            3 => bitboard << 7u64,
            4 => bitboard >> 8u64,
            5 => bitboard >> 1u64,
            6 => bitboard >> 7u64,
            7 => bitboard >> 9u64,
            _ => bitboard,
        }
    }

    /// The squares that either side holds.
    pub fn get_occ_squares(&self) -> (r: u64)
        ensures
            r == self.occ_squares[0] | self.occ_squares[1],
    {
        self.occ_squares[0] | self.occ_squares[1]
    }

    /// The squares that neither side holds.
    pub fn get_empty_squares(&self) -> (r: u64)
        ensures
            r == self.empty_spec(),
    {
        !self.get_occ_squares()
    }
}

fn min_usize(a: usize, b: usize) -> (r: usize)
    ensures
        r as int == min_spec(a as int, b as int),
{
    if a < b {
        a
    } else {
        b
    }
}

} // verus!
