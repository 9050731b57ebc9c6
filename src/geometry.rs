//! The bit-parallel move generator agrees with the square-by-square capture walk:
//! a square is legal exactly when it is empty and placing a disc there captures.

use vstd::prelude::*;
use crate::board::{Board, shift_spec, dist_spec, min_spec, ray_capture, captures_upto, captures};
use crate::movegen::{edge_mask, chain, moves_in_dir_spec, legal_upto, legal_moves_spec};

verus! {

/// The moves of one direction, with the six chain steps written out.
pub open spec fn run_chain(own: u64, opp: u64, d: int) -> u64 {
    let m = opp & edge_mask(d);
    let c1 = m & shift_spec(own, d);
    let c2 = c1 | (m & shift_spec(c1, d));
    let c3 = c2 | (m & shift_spec(c2, d));
    let c4 = c3 | (m & shift_spec(c3, d));
    let c5 = c4 | (m & shift_spec(c4, d));
    let c6 = c5 | (m & shift_spec(c5, d));
    !(own | opp) & shift_spec(c6, d)
}

/// `dist_spec` on machine integers.
pub open spec fn dist_u64(sq: u64, d: int) -> u64 {
    let y = sq / 8;
    let x = sq % 8;
    if d == 0 {
        (7 - y) as u64
    } else if d == 1 {
        (7 - x) as u64
    } else if d == 2 {
        if 7 - y < 7 - x {
            (7 - y) as u64
        } else {
            (7 - x) as u64
        }
    } else if d == 3 {
        if 7 - y < x { (7 - y) as u64 } else { x }
    } else if d == 4 {
        y
    } else if d == 5 {
        x
    } else if d == 6 {
        if y < 7 - x { y } else { (7 - x) as u64 }
    } else {
        if x < y { x } else { y }
    }
}

/// `ray_capture` unrolled to at most k steps.
pub open spec fn walk1(empty: u64, own: u64, pos: u64, d: int, steps: u64, acc: u64) -> u64 {
    if steps == 0 {
        0
    } else {
        let p = shift_spec(pos, d);
        if p & empty != 0 {
            0
        } else if p & own != 0 {
            acc
        } else {
            0
        }
    }
}

pub open spec fn walk2(empty: u64, own: u64, pos: u64, d: int, steps: u64, acc: u64) -> u64 {
    if steps == 0 {
        0
    } else {
        let p = shift_spec(pos, d);
        if p & empty != 0 {
            0
        } else if p & own != 0 {
            acc
        } else {
            walk1(empty, own, p, d, (steps - 1) as u64, acc | p)
        }
    }
}

pub open spec fn walk3(empty: u64, own: u64, pos: u64, d: int, steps: u64, acc: u64) -> u64 {
    if steps == 0 {
        0
    } else {
        let p = shift_spec(pos, d);
        if p & empty != 0 {
            0
        } else if p & own != 0 {
            acc
        } else {
            walk2(empty, own, p, d, (steps - 1) as u64, acc | p)
        }
    }
}

pub open spec fn walk4(empty: u64, own: u64, pos: u64, d: int, steps: u64, acc: u64) -> u64 {
    if steps == 0 {
        0
    } else {
        let p = shift_spec(pos, d);
        if p & empty != 0 {
            0
        } else if p & own != 0 {
            acc
        } else {
            walk3(empty, own, p, d, (steps - 1) as u64, acc | p)
        }
    }
}

pub open spec fn walk5(empty: u64, own: u64, pos: u64, d: int, steps: u64, acc: u64) -> u64 {
    if steps == 0 {
        0
    } else {
        let p = shift_spec(pos, d);
        if p & empty != 0 {
            0
        } else if p & own != 0 {
            acc
        } else {
            walk4(empty, own, p, d, (steps - 1) as u64, acc | p)
        }
    }
}

pub open spec fn walk6(empty: u64, own: u64, pos: u64, d: int, steps: u64, acc: u64) -> u64 {
    if steps == 0 {
        0
    } else {
        let p = shift_spec(pos, d);
        if p & empty != 0 {
            0
        } else if p & own != 0 {
            acc
        } else {
            walk5(empty, own, p, d, (steps - 1) as u64, acc | p)
        }
    }
}

pub open spec fn walk7(empty: u64, own: u64, pos: u64, d: int, steps: u64, acc: u64) -> u64 {
    if steps == 0 {
        0
    } else {
        let p = shift_spec(pos, d);
        if p & empty != 0 {
            0
        } else if p & own != 0 {
            acc
        } else {
            walk6(empty, own, p, d, (steps - 1) as u64, acc | p)
        }
    }
}

proof fn lemma_walk1(empty: u64, own: u64, pos: u64, d: int, steps: u64, acc: u64)
    requires
        steps <= 1,
    ensures
        ray_capture(empty, own, pos, d, steps as nat, acc) == walk1(empty, own, pos, d, steps, acc),
{
    if steps > 0 {
        assert(ray_capture(empty, own, shift_spec(pos, d), d, 0, acc | shift_spec(pos, d)) == 0);
        assert(ray_capture(empty, own, pos, d, steps as nat, acc) == ray_capture(empty, own, pos, d, (steps - 1) as nat + 1, acc));
    }
}

proof fn lemma_walk2(empty: u64, own: u64, pos: u64, d: int, steps: u64, acc: u64)
    requires
        steps <= 2,
    ensures
        ray_capture(empty, own, pos, d, steps as nat, acc) == walk2(empty, own, pos, d, steps, acc),
{
    if steps > 0 {
        lemma_walk1(empty, own, shift_spec(pos, d), d, (steps - 1) as u64, acc | shift_spec(pos, d));
        assert(ray_capture(empty, own, pos, d, steps as nat, acc) == ray_capture(empty, own, pos, d, (steps - 1) as nat + 1, acc));
    }
}

proof fn lemma_walk3(empty: u64, own: u64, pos: u64, d: int, steps: u64, acc: u64)
    requires
        steps <= 3,
    ensures
        ray_capture(empty, own, pos, d, steps as nat, acc) == walk3(empty, own, pos, d, steps, acc),
{
    if steps > 0 {
        lemma_walk2(empty, own, shift_spec(pos, d), d, (steps - 1) as u64, acc | shift_spec(pos, d));
        assert(ray_capture(empty, own, pos, d, steps as nat, acc) == ray_capture(empty, own, pos, d, (steps - 1) as nat + 1, acc));
    }
}

proof fn lemma_walk4(empty: u64, own: u64, pos: u64, d: int, steps: u64, acc: u64)
    requires
        steps <= 4,
    ensures
        ray_capture(empty, own, pos, d, steps as nat, acc) == walk4(empty, own, pos, d, steps, acc),
{
    if steps > 0 {
        lemma_walk3(empty, own, shift_spec(pos, d), d, (steps - 1) as u64, acc | shift_spec(pos, d));
        assert(ray_capture(empty, own, pos, d, steps as nat, acc) == ray_capture(empty, own, pos, d, (steps - 1) as nat + 1, acc));
    }
}

proof fn lemma_walk5(empty: u64, own: u64, pos: u64, d: int, steps: u64, acc: u64)
    requires
        steps <= 5,
    ensures
        ray_capture(empty, own, pos, d, steps as nat, acc) == walk5(empty, own, pos, d, steps, acc),
{
    if steps > 0 {
        lemma_walk4(empty, own, shift_spec(pos, d), d, (steps - 1) as u64, acc | shift_spec(pos, d));
        assert(ray_capture(empty, own, pos, d, steps as nat, acc) == ray_capture(empty, own, pos, d, (steps - 1) as nat + 1, acc));
    }
}

proof fn lemma_walk6(empty: u64, own: u64, pos: u64, d: int, steps: u64, acc: u64)
    requires
        steps <= 6,
    ensures
        ray_capture(empty, own, pos, d, steps as nat, acc) == walk6(empty, own, pos, d, steps, acc),
{
    if steps > 0 {
        lemma_walk5(empty, own, shift_spec(pos, d), d, (steps - 1) as u64, acc | shift_spec(pos, d));
        assert(ray_capture(empty, own, pos, d, steps as nat, acc) == ray_capture(empty, own, pos, d, (steps - 1) as nat + 1, acc));
    }
}

proof fn lemma_walk7(empty: u64, own: u64, pos: u64, d: int, steps: u64, acc: u64)
    requires
        steps <= 7,
    ensures
        ray_capture(empty, own, pos, d, steps as nat, acc) == walk7(empty, own, pos, d, steps, acc),
{
    if steps > 0 {
        lemma_walk6(empty, own, shift_spec(pos, d), d, (steps - 1) as u64, acc | shift_spec(pos, d));
        assert(ray_capture(empty, own, pos, d, steps as nat, acc) == ray_capture(empty, own, pos, d, (steps - 1) as nat + 1, acc));
    }
}

/// In each direction, a square ends a run of opponent discs exactly when the
/// walk from it in the opposite direction captures.
proof fn lemma_directions(own: u64, opp: u64, sq: u64)
    by (bit_vector)
    requires
        own & opp == 0,
        sq < 64,
    ensures
        (run_chain(own, opp, 0) >> sq) & 1 == 1 <==> ((!(own | opp) >> sq) & 1 == 1 && walk7(!(own | opp), own, 1u64 << sq, 4, dist_u64(sq, 4), 0) != 0),
        (run_chain(own, opp, 1) >> sq) & 1 == 1 <==> ((!(own | opp) >> sq) & 1 == 1 && walk7(!(own | opp), own, 1u64 << sq, 5, dist_u64(sq, 5), 0) != 0),
        (run_chain(own, opp, 2) >> sq) & 1 == 1 <==> ((!(own | opp) >> sq) & 1 == 1 && walk7(!(own | opp), own, 1u64 << sq, 7, dist_u64(sq, 7), 0) != 0),
        (run_chain(own, opp, 3) >> sq) & 1 == 1 <==> ((!(own | opp) >> sq) & 1 == 1 && walk7(!(own | opp), own, 1u64 << sq, 6, dist_u64(sq, 6), 0) != 0),
        (run_chain(own, opp, 4) >> sq) & 1 == 1 <==> ((!(own | opp) >> sq) & 1 == 1 && walk7(!(own | opp), own, 1u64 << sq, 0, dist_u64(sq, 0), 0) != 0),
        (run_chain(own, opp, 5) >> sq) & 1 == 1 <==> ((!(own | opp) >> sq) & 1 == 1 && walk7(!(own | opp), own, 1u64 << sq, 1, dist_u64(sq, 1), 0) != 0),
        (run_chain(own, opp, 6) >> sq) & 1 == 1 <==> ((!(own | opp) >> sq) & 1 == 1 && walk7(!(own | opp), own, 1u64 << sq, 3, dist_u64(sq, 3), 0) != 0),
        (run_chain(own, opp, 7) >> sq) & 1 == 1 <==> ((!(own | opp) >> sq) & 1 == 1 && walk7(!(own | opp), own, 1u64 << sq, 2, dist_u64(sq, 2), 0) != 0),
{
}

/// Bits of an eight-way union, and when it is zero.
proof fn lemma_or8(a0: u64, a1: u64, a2: u64, a3: u64, a4: u64, a5: u64, a6: u64, a7: u64, sq: u64)
    by (bit_vector)
    requires
        sq < 64,
    ensures
        ((((((((a0 | a1) | a2) | a3) | a4) | a5) | a6) | a7) >> sq) & 1 == 1 <==> ((a0 >> sq) & 1 == 1
            || (a1 >> sq) & 1 == 1 || (a2 >> sq) & 1 == 1 || (a3 >> sq) & 1 == 1 || (a4 >> sq) & 1 == 1
            || (a5 >> sq) & 1 == 1 || (a6 >> sq) & 1 == 1 || (a7 >> sq) & 1 == 1),
        (((((((a0 | a1) | a2) | a3) | a4) | a5) | a6) | a7) != 0 <==> (a0 != 0 || a1 != 0 || a2 != 0
            || a3 != 0 || a4 != 0 || a5 != 0 || a6 != 0 || a7 != 0),
        (0u64 | a0) == a0,
{
}

/// The direction opposite to `d`.
pub open spec fn opposite_dir(d: int) -> int {
    if d == 0 {
        4
    } else if d == 1 {
        5
    } else if d == 2 {
        7
    } else if d == 3 {
        6
    } else if d == 4 {
        0
    } else if d == 5 {
        1
    } else if d == 6 {
        3
    } else {
        2
    }
}

/// The capture walk from `sq` in direction `o`.
pub open spec fn ray_from(occ: [u64; 2], side: int, sq: u64, o: int) -> u64 {
    ray_capture(!(occ[0] | occ[1]), occ[side], 1u64 << sq, o, dist_spec(sq as int, o) as nat, 0)
}

/// In direction `d`, a square ends a run of opponent discs exactly when it is
/// empty and the walk from it in the opposite direction `o` captures.
pub proof fn lemma_dir_link(occ: [u64; 2], side: int, sq: u64, d: int, o: int)
    requires
        occ[0] & occ[1] == 0,
        0 <= side < 2,
        sq < 64,
        0 <= d < 8,
        o == opposite_dir(d),
    ensures
        (moves_in_dir_spec(occ, side, d) >> sq) & 1 == 1 <==> ((!(occ[0] | occ[1]) >> sq) & 1 == 1
            && ray_from(occ, side, sq, o) != 0),
{
    let own = occ[side];
    let opp = occ[1 - side];
    let a = occ[0];
    let b = occ[1];
    assert(!(a | b) == !(b | a) && a & b == b & a) by (bit_vector);
    assert(own & opp == 0 && !(occ[0] | occ[1]) == !(own | opp));
    reveal_with_fuel(chain, 6);
    assert(moves_in_dir_spec(occ, side, d) == run_chain(own, opp, d));
    lemma_directions(own, opp, sq);
    assert(dist_spec(sq as int, o) == dist_u64(sq, o) as int);
    lemma_walk7(!(own | opp), own, 1u64 << sq, o, dist_u64(sq, o), 0);
}

/// A square is a legal move for `side` exactly when it is empty and placing a
/// disc of `side` there captures at least one disc.
pub proof fn lemma_legal_iff_captures(occ: [u64; 2], side: int, sq: u64)
    requires
        occ[0] & occ[1] == 0,
        0 <= side < 2,
        sq < 64,
    ensures
        (legal_moves_spec(occ, side) >> sq) & 1 == 1 <==> ((!(occ[0] | occ[1]) >> sq) & 1 == 1
            && captures(occ, side, sq as int) != 0),
{
    reveal_with_fuel(legal_upto, 9);
    reveal_with_fuel(captures_upto, 9);
    lemma_dir_link(occ, side, sq, 0, 4);
    lemma_dir_link(occ, side, sq, 1, 5);
    lemma_dir_link(occ, side, sq, 2, 7);
    lemma_dir_link(occ, side, sq, 3, 6);
    lemma_dir_link(occ, side, sq, 4, 0);
    lemma_dir_link(occ, side, sq, 5, 1);
    lemma_dir_link(occ, side, sq, 6, 3);
    lemma_dir_link(occ, side, sq, 7, 2);
    lemma_or8(
        moves_in_dir_spec(occ, side, 0),
        moves_in_dir_spec(occ, side, 1),
        moves_in_dir_spec(occ, side, 2),
        moves_in_dir_spec(occ, side, 3),
        moves_in_dir_spec(occ, side, 4),
        moves_in_dir_spec(occ, side, 5),
        moves_in_dir_spec(occ, side, 6),
        moves_in_dir_spec(occ, side, 7),
        sq,
    );
    lemma_or8(
        ray_from(occ, side, sq, 0),
        ray_from(occ, side, sq, 1),
        ray_from(occ, side, sq, 2),
        ray_from(occ, side, sq, 3),
        ray_from(occ, side, sq, 4),
        ray_from(occ, side, sq, 5),
        ray_from(occ, side, sq, 6),
        ray_from(occ, side, sq, 7),
        sq,
    );
}

} // verus!
