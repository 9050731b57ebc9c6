use othello::{
    engine_turn, game_result, gen_random_games, pass_if_stuck, play_random_game, Board, Move, MoveGenerator,
    Search, B_STD_START_POS, INVALID_SIDE, INVALID_SQUARE, W_STD_START_POS,
};

fn mask(squares: &[u32]) -> u64 {
    let mut m: u64 = 0;
    for s in squares {
        m |= 1u64 << s;
    }
    m
}

fn opening(side_to_move: usize) -> Board {
    Board::new(W_STD_START_POS, B_STD_START_POS, side_to_move)
}

#[test]
fn opening_masks_hold_the_four_centre_squares() {
    assert_eq!(W_STD_START_POS, mask(&[27, 36]));
    assert_eq!(B_STD_START_POS, mask(&[28, 35]));
    let b = opening(1);
    assert_eq!(b.num_pieces, [2, 2]);
    assert_eq!(b.side_to_move, 1);
}

#[test]
fn opening_legal_moves_for_side_one() {
    let b = opening(1);
    let gen = MoveGenerator::new();
    assert_eq!(gen.generate_legal_moves(&b), mask(&[19, 26, 37, 44]));
}

#[test]
fn opening_legal_moves_for_side_zero() {
    let b = opening(0);
    let gen = MoveGenerator::new();
    assert_eq!(gen.generate_legal_moves(&b), mask(&[20, 29, 34, 43]));
}

#[test]
fn applying_a_move_from_the_opening() {
    let mut b = opening(1);
    b.make_move(Move::new(37, 1));
    assert_eq!(b.occ_squares[0], mask(&[27]));
    assert_eq!(b.occ_squares[1], mask(&[28, 35, 36, 37]));
    assert_eq!(b.num_pieces, [1, 4]);
    assert_eq!(b.side_to_move, 0);
}

#[test]
fn applying_a_move_keeps_the_sides_apart_and_adds_one_disc() {
    let gen = MoveGenerator::new();
    let mut b = opening(0);
    for _ in 0..10 {
        let moves = gen.generate_legal_moves(&b);
        if moves == 0 {
            break;
        }
        let list = gen.conv_move_bitboard2vec(moves, b.side_to_move);
        let before = b.num_pieces[0] + b.num_pieces[1];
        b.make_move(list[list.len() / 2]);
        assert_eq!(b.occ_squares[0] & b.occ_squares[1], 0);
        assert_eq!(b.num_pieces[0] + b.num_pieces[1], before + 1);
        assert_eq!(b.num_pieces[0] as u32, b.occ_squares[0].count_ones());
        assert_eq!(b.num_pieces[1] as u32, b.occ_squares[1].count_ones());
    }
}

#[test]
fn a_walk_that_reaches_the_edge_captures_nothing() {
    // Side 0 on 8 and 9, side 1 on 11: from 10 the run to the left ends at the edge.
    let mut b = Board::new(mask(&[8, 9]), mask(&[11]), 1);
    b.make_move(Move::new(10, 1));
    assert_eq!(b.occ_squares[0], mask(&[8, 9]));
    assert_eq!(b.occ_squares[1], mask(&[10, 11]));
    assert_eq!(b.num_pieces, [2, 2]);
}

#[test]
fn a_move_captures_two_lines_at_once() {
    // Side 0 discs on 9 (right of 8) and 17 (below-right of 8); side 1 on 10 and 26.
    let mut b = Board::new(mask(&[9, 17]), mask(&[10, 26]), 1);
    b.make_move(Move::new(8, 1));
    assert_eq!(b.occ_squares[0], 0);
    assert_eq!(b.occ_squares[1], mask(&[8, 9, 10, 17, 26]));
    assert_eq!(b.num_pieces, [0, 5]);
}

#[test]
fn legal_moves_are_never_occupied() {
    let gen = MoveGenerator::new();
    for side in 0..2 {
        let b = opening(side);
        let moves = gen.generate_legal_moves(&b);
        assert_eq!(moves & b.get_occ_squares(), 0);
    }
    let b = Board::new(mask(&[0, 1, 2, 3, 9]), mask(&[4, 10, 18, 27]), 0);
    let moves = gen.generate_legal_moves(&b);
    assert_ne!(moves, 0);
    assert_eq!(moves & b.get_occ_squares(), 0);
}

#[test]
fn moves_do_not_wrap_across_the_edge() {
    // Side 0 on 6 and side 1 on 7: square 8 follows 7 in bit order but lies on
    // the next row, so it does not end the run.
    let gen = MoveGenerator::new();
    let b = Board::new(mask(&[6]), mask(&[7]), 0);
    assert_eq!(gen.generate_legal_moves(&b), 0);
    let b = Board::new(mask(&[62]), mask(&[63]), 0);
    assert_eq!(gen.generate_legal_moves(&b), 0);
    // Own disc on 7, opponent on 8: no line joins them, so 9 is no move.
    let b = Board::new(mask(&[7]), mask(&[8]), 0);
    assert_eq!(gen.generate_legal_moves(&b), 0);
    assert_eq!(gen.generate_moves_in_dir(&b, 1), 0);
    // Its top-to-bottom mirror.
    let b = Board::new(mask(&[63]), mask(&[48]), 0);
    assert_eq!(gen.generate_legal_moves(&b), 0);
    // Own disc on 8, opponent on 7, moving left would wrap onto 6.
    let b = Board::new(mask(&[8]), mask(&[7]), 0);
    assert_eq!(gen.generate_legal_moves(&b), 0);
    // Own disc on 16, opponent on 23: a down-left step from column 0 would wrap onto column 7.
    let b = Board::new(mask(&[16]), mask(&[23]), 0);
    assert_eq!(gen.generate_legal_moves(&b), 0);
}

#[test]
fn moves_in_one_direction() {
    let gen = MoveGenerator::new();
    let b = opening(1);
    // Side 1 on 28 sees side 0 on 27 to its left; 26 ends that run.
    assert_eq!(gen.generate_moves_in_dir(&b, 5), mask(&[26]));
    assert_eq!(gen.generate_moves_in_dir(&b, 1), mask(&[37]));
}

#[test]
fn bit_set_to_moves_in_ascending_order() {
    let gen = MoveGenerator::new();
    let list = gen.conv_move_bitboard2vec(mask(&[63, 1, 3]), 1);
    assert_eq!(list, vec![Move::new(1, 1), Move::new(3, 1), Move::new(63, 1)]);
    assert!(gen.conv_move_bitboard2vec(0, 0).is_empty());
}

#[test]
fn shifts_by_direction() {
    let b = opening(0);
    let one: u64 = 1 << 27;
    assert_eq!(b.shift_bitboard_in_dir(one, 0), 1 << 35);
    assert_eq!(b.shift_bitboard_in_dir(one, 1), 1 << 28);
    assert_eq!(b.shift_bitboard_in_dir(one, 2), 1 << 36);
    assert_eq!(b.shift_bitboard_in_dir(one, 3), 1 << 34);
    assert_eq!(b.shift_bitboard_in_dir(one, 4), 1 << 19);
    assert_eq!(b.shift_bitboard_in_dir(one, 5), 1 << 26);
    assert_eq!(b.shift_bitboard_in_dir(one, 6), 1 << 20);
    assert_eq!(b.shift_bitboard_in_dir(one, 7), 1 << 18);
    assert_eq!(b.shift_bitboard_in_dir(one, 8), one);
}

#[test]
fn edge_distances() {
    let b = opening(0);
    assert_eq!(b.dist_to_edge[0], [7, 7, 7, 0, 0, 0, 0, 0]);
    assert_eq!(b.dist_to_edge[63], [0, 0, 0, 0, 7, 7, 0, 7]);
    // Row 2, column 5.
    assert_eq!(b.dist_to_edge[21], [5, 2, 2, 5, 2, 5, 2, 2]);
}

#[test]
fn occupied_and_empty_squares() {
    let b = opening(0);
    assert_eq!(b.get_occ_squares(), mask(&[27, 28, 35, 36]));
    assert_eq!(b.get_empty_squares(), !mask(&[27, 28, 35, 36]));
}

#[test]
fn passing_flips_only_the_side() {
    let mut b = opening(0);
    b.pass_turn();
    assert_eq!(b.side_to_move, 1);
    assert_eq!(b.occ_squares, [W_STD_START_POS, B_STD_START_POS]);
}

#[test]
fn invalid_move_sentinel() {
    let m = Move::invalid_move();
    assert_eq!(m.square, 128);
    assert_eq!(m.side, 2);
    assert_eq!(INVALID_SQUARE, 128);
    assert_eq!(INVALID_SIDE, 2);
}

#[test]
fn evaluation_is_material_for_the_side_to_move() {
    let b = Board::new(mask(&[0, 1, 2]), mask(&[63]), 1);
    let s = Search::new(b, MoveGenerator::new());
    assert_eq!(s.evaluate_position(), -2);
    assert_eq!(s.best_eval, i32::MIN);
    assert_eq!(s.best_move, Move::invalid_move());
}

#[test]
fn depth_zero_search_is_the_evaluation() {
    let mut b = opening(1);
    b.make_move(Move::new(37, 1));
    let mut s = Search::new(b, MoveGenerator::new());
    let e = s.evaluate_position();
    assert_eq!(e, 1 - 4);
    assert_eq!(s.search_depth(i32::MIN + 1, i32::MAX, 0, 0), e);
    assert_eq!(s.search_depth(-5, 7, 0, 3), e);
    assert_eq!(s.board.occ_squares, b.occ_squares);
}

#[test]
fn double_pass_scores_are_saturated() {
    let ahead = Board::new(mask(&[0, 1]), mask(&[63]), 0);
    let mut s = Search::new(ahead, MoveGenerator::new());
    assert_eq!(s.search_depth(i32::MIN + 1, i32::MAX, 3, 0), i32::MAX);

    let behind = Board::new(mask(&[0, 1]), mask(&[63]), 1);
    let mut s = Search::new(behind, MoveGenerator::new());
    assert_eq!(s.search_depth(i32::MIN + 1, i32::MAX, 3, 0), i32::MIN + 1);

    let tied = Board::new(mask(&[0]), mask(&[63]), 1);
    let mut s = Search::new(tied, MoveGenerator::new());
    assert_eq!(s.search_depth(i32::MIN + 1, i32::MAX, 1, 0), 0);
    assert_eq!(s.board.side_to_move, 1);
}

#[test]
fn single_legal_move_is_committed_at_depth_one() {
    let b = Board::new(mask(&[0]), mask(&[1]), 0);
    let gen = MoveGenerator::new();
    assert_eq!(gen.generate_legal_moves(&b), mask(&[2]));
    let mut s = Search::new(b, gen);
    s.find_best_move(b, 1);
    assert_eq!(s.best_move, Move::new(2, 0));
    let mut after = b;
    after.make_move(Move::new(2, 0));
    let child = Search::new(after, gen);
    assert_eq!(s.best_eval, -child.evaluate_position());
    assert_eq!(s.best_eval, 3);
}

#[test]
fn finished_game_leaves_the_sentinel() {
    let b = Board::new(mask(&[0]), mask(&[63]), 0);
    let mut s = Search::new(b, MoveGenerator::new());
    for depth in 0..4 {
        s.find_best_move(b, depth);
        assert_eq!(s.best_move, Move::invalid_move());
        assert_eq!(s.best_eval, i32::MIN + 1);
    }
}

#[test]
fn depth_zero_target_leaves_the_sentinel() {
    let b = opening(1);
    let mut s = Search::new(b, MoveGenerator::new());
    s.find_best_move(b, 0);
    assert_eq!(s.best_move, Move::invalid_move());
    assert_eq!(s.best_eval, i32::MIN + 1);
}

#[test]
fn search_from_the_opening_picks_a_legal_move() {
    let b = opening(1);
    let gen = MoveGenerator::new();
    let legal = gen.generate_legal_moves(&b);
    let mut s = Search::new(b, gen);
    s.find_best_move(b, 3);
    assert!(s.best_move.square < 64);
    assert_eq!(s.best_move.side, 1);
    assert_ne!(legal & (1u64 << s.best_move.square), 0);
    // All four opening moves are symmetric: the first in square order wins ties.
    assert_eq!(s.best_move.square, 19);
    assert_eq!(s.board.occ_squares, b.occ_squares);
}

#[test]
fn search_prefers_the_larger_capture() {
    // Side 0 to move: square 3 captures two discs, square 56 captures one.
    let b = Board::new(mask(&[0, 40]), mask(&[1, 2, 48]), 0);
    let gen = MoveGenerator::new();
    assert_eq!(gen.generate_legal_moves(&b), mask(&[3, 56]));
    let mut s = Search::new(b, gen);
    s.find_best_move(b, 1);
    assert_eq!(s.best_move, Move::new(3, 0));
    assert_eq!(s.best_eval, 5 - 1);
}

#[test]
fn random_games_end_with_no_moves_for_either_side() {
    let gen = MoveGenerator::new();
    let end = play_random_game(opening(0));
    assert_eq!(gen.generate_legal_moves(&end), 0);
    let mut other = end;
    other.pass_turn();
    assert_eq!(gen.generate_legal_moves(&other), 0);
    assert!(end.num_pieces[0] + end.num_pieces[1] > 4);
    assert_eq!(end.occ_squares[0] & end.occ_squares[1], 0);
}

#[test]
fn random_game_tally_counts_every_game() {
    let (w, b, d) = gen_random_games(5);
    assert_eq!(w + b + d, 5);
    assert_eq!(gen_random_games(0), (0, 0, 0));
}

#[test]
fn counting_bits() {
    assert_eq!(othello::count_bits(0), 0);
    assert_eq!(othello::count_bits(u64::MAX), 64);
    assert_eq!(othello::count_bits(W_STD_START_POS), 2);
}

#[test]
fn depth_one_search_from_the_opening() {
    let b = opening(1);
    let mut s = Search::new(b, MoveGenerator::new());
    assert_eq!(s.search_depth(i32::MIN + 1, i32::MAX, 1, 0), 3);
    assert_eq!(s.best_move_this_iter, Move::new(19, 1));
    assert_eq!(s.best_eval_this_iter, 3);
}

#[test]
fn search_cuts_off_at_beta() {
    let b = opening(1);
    let mut s = Search::new(b, MoveGenerator::new());
    assert_eq!(s.search_depth(i32::MIN + 1, 2, 1, 0), 2);
    assert_eq!(s.best_move_this_iter, Move::invalid_move());
}

#[test]
fn search_keeps_alpha_when_no_move_beats_it() {
    let b = opening(1);
    let mut s = Search::new(b, MoveGenerator::new());
    assert_eq!(s.search_depth(3, i32::MAX, 1, 0), 3);
    assert_eq!(s.best_move_this_iter, Move::invalid_move());
    assert_eq!(s.best_eval_this_iter, i32::MIN);
}

#[test]
fn search_below_the_root_records_nothing() {
    let b = opening(1);
    let mut s = Search::new(b, MoveGenerator::new());
    assert_eq!(s.search_depth(i32::MIN + 1, i32::MAX, 1, 1), 3);
    assert_eq!(s.best_move_this_iter, Move::invalid_move());
}

#[test]
fn single_pass_searches_the_other_side() {
    // Side 1 cannot move; side 0 can take 1 by playing 2.
    let b = Board::new(mask(&[0]), mask(&[1]), 1);
    let mut s = Search::new(b, MoveGenerator::new());
    // One ply: the pass itself, then material is level.
    assert_eq!(s.search_depth(i32::MIN + 1, i32::MAX, 1, 0), 0);
    assert_eq!(s.board.side_to_move, 1);
    // Two plies: side 0 plays 2 and is three discs up.
    assert_eq!(s.search_depth(i32::MIN + 1, i32::MAX, 2, 0), -3);
    // Three plies: neither side can move after that, a lost game for side 1.
    assert_eq!(s.search_depth(i32::MIN + 1, i32::MAX, 3, 0), i32::MIN + 1);
    assert_eq!(s.best_move_this_iter, Move::invalid_move());
}

#[test]
fn passing_when_stuck() {
    let mut b = opening(0);
    assert!(!pass_if_stuck(&mut b));
    assert_eq!(b.side_to_move, 0);

    let mut b = Board::new(mask(&[0]), mask(&[1]), 1);
    assert!(!pass_if_stuck(&mut b));
    assert_eq!(b.side_to_move, 0);

    let mut b = Board::new(mask(&[0]), mask(&[63]), 1);
    assert!(pass_if_stuck(&mut b));
    assert_eq!(b.side_to_move, 0);
}

#[test]
fn engine_turn_plays_the_best_move() {
    let mut b = opening(1);
    let mut bot = Search::new(b, MoveGenerator::new());
    assert!(!engine_turn(&mut bot, &mut b, 1));
    assert_eq!(bot.best_move, Move::new(19, 1));
    assert_eq!(b.occ_squares, [mask(&[36]), mask(&[19, 27, 28, 35])]);
    assert_eq!(b.side_to_move, 0);
}

#[test]
fn engine_turn_on_a_finished_game() {
    let mut b = Board::new(mask(&[0]), mask(&[63]), 1);
    let mut bot = Search::new(b, MoveGenerator::new());
    assert!(engine_turn(&mut bot, &mut b, 2));
    assert_eq!(bot.best_move, Move::invalid_move());
    assert_eq!(b.side_to_move, 0);
}

#[test]
fn square_symbols_of_the_opening() {
    let symbols = opening(0).square_symbols();
    assert_eq!(symbols.len(), 64);
    assert_eq!(symbols[27], 'W');
    assert_eq!(symbols[36], 'W');
    assert_eq!(symbols[28], 'B');
    assert_eq!(symbols[35], 'B');
    assert_eq!(symbols.iter().filter(|c| **c == '.').count(), 60);
}

#[test]
fn unmake_move_only_toggles_the_square() {
    let mut b = opening(1);
    b.unmake_move(Move::new(27, 0));
    assert_eq!(b.occ_squares, [mask(&[36]), B_STD_START_POS]);
    assert_eq!(b.num_pieces, [2, 2]);
    assert_eq!(b.side_to_move, 1);
    b.unmake_move(Move::new(27, 0));
    assert_eq!(b.occ_squares, [W_STD_START_POS, B_STD_START_POS]);
}

#[test]
fn legal_moves_agree_with_captures_on_random_positions() {
    let gen = MoveGenerator::new();
    // Walk a game and compare every empty square against a capture walk.
    let mut b = opening(0);
    for _ in 0..40 {
        let legal = gen.generate_legal_moves(&b);
        for sq in 0..64u32 {
            if b.get_occ_squares() & (1u64 << sq) != 0 {
                continue;
            }
            let mut after = b;
            after.make_move(Move::new(sq, b.side_to_move));
            let captured = after.num_pieces[b.side_to_move] - b.num_pieces[b.side_to_move] - 1;
            assert_eq!(legal & (1u64 << sq) != 0, captured > 0, "square {}", sq);
        }
        if legal == 0 {
            b.pass_turn();
            if gen.generate_legal_moves(&b) == 0 {
                break;
            }
            continue;
        }
        let list = gen.conv_move_bitboard2vec(legal, b.side_to_move);
        b.make_move(list[(list.len() * 7) / 11]);
    }
}

#[test]
fn game_result_is_the_sign_of_the_lead() {
    assert_eq!(game_result(&Board::new(mask(&[0, 1]), mask(&[63]), 0)), 1);
    assert_eq!(game_result(&Board::new(mask(&[0]), mask(&[62, 63]), 0)), -1);
    assert_eq!(game_result(&Board::new(mask(&[0]), mask(&[63]), 1)), 0);
}

#[test]
fn random_games_keep_every_starting_disc() {
    let start = opening(0);
    let end = play_random_game(start);
    assert_eq!(start.get_occ_squares() & !end.get_occ_squares(), 0);
}
