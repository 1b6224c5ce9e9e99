use chess_engine::chess::{ChessMove, PieceRole};
use chess_engine::interface::{ChessEngine, Clock, Limits, Score, SearchHandle, TimeMode};
use chess_engine::rules::{from_fen, is_legal, start_position};
use chess_engine::search::{
    calc_deadline, lmr_reduction, mate_in, move_order_score, score_from_tt, score_to_tt,
    to_score, SearchEngine, HASH_MOVE_SCORE, KILLER_1_SCORE, KILLER_2_SCORE, MATE,
    MATE_THRESHOLD,
};

fn depth_limits(depth: u8) -> Limits {
    Limits { time_mode: TimeMode::Unbound, max_depth: Some(depth), max_nodes: None, restrict_to: None }
}

#[test]
fn mate_scores_become_move_counts() {
    assert_eq!(mate_in(MATE - 1), Some(1));
    assert_eq!(mate_in(MATE - 3), Some(2));
    assert_eq!(mate_in(-(MATE - 2)), Some(-1));
    assert_eq!(mate_in(MATE_THRESHOLD - 1), None);
    assert_eq!(mate_in(0), None);
    assert_eq!(to_score(MATE - 1), Score::Mate(1));
    assert_eq!(to_score(-35), Score::Cp(-35));
}

#[test]
fn tt_scores_round_trip_across_plies() {
    for score in [0, 150, -150, MATE - 7, -(MATE - 7)] {
        assert_eq!(score_from_tt(score_to_tt(score, 5), 5), score);
    }
    // A mate found 3 plies below ply 2 is still 3 plies away read at ply 6.
    let stored = score_to_tt(MATE - 2 - 3, 2);
    assert_eq!(score_from_tt(stored, 6), MATE - 6 - 3);
}

#[test]
fn late_moves_are_reduced_logarithmically() {
    assert_eq!(lmr_reduction(3, 10), 1);
    assert_eq!(lmr_reduction(10, 30), 4);
    assert_eq!(lmr_reduction(20, 60), 6);
    assert_eq!(lmr_reduction(5, 4), 1);
}

#[test]
fn the_engine_finds_a_mate_in_one() {
    let mut engine = SearchEngine::new(1);
    let pos = from_fen("6k1/5ppp/8/8/8/8/8/R5K1 w - - 0 1").unwrap();
    engine.set_position(pos);
    engine.search_handle().set_limits(depth_limits(3));
    let res = engine.search(&mut |_| {});
    let ra8 = ChessMove::Normal { role: PieceRole::Rook, from: 0, capture: None, to: 56, promotion: None };
    assert_eq!(res.best_move, Some(ra8));
    assert_eq!(res.score, Some(Score::Mate(1)));
}

#[test]
fn searchmoves_restrict_the_best_move() {
    let mut engine = SearchEngine::new(1);
    let start = start_position();
    let a3 = ChessMove::Normal { role: PieceRole::Pawn, from: 8, capture: None, to: 16, promotion: None };
    assert!(is_legal(&start, a3));
    let limits = Limits { restrict_to: Some(vec![a3]), ..depth_limits(2) };
    engine.search_handle().set_limits(limits);
    let mut reports = 0;
    let res = engine.search(&mut |_| reports += 1);
    assert_eq!(res.best_move, Some(a3));
    assert!(reports >= 1);
}

#[test]
fn illegal_moves_are_refused() {
    let mut engine = SearchEngine::new(1);
    let bad = ChessMove::Normal { role: PieceRole::Pawn, from: 12, capture: None, to: 36, promotion: None };
    assert!(engine.play_move(bad).is_err());
    assert_eq!(engine.position(), start_position());
    let e4 = ChessMove::Normal { role: PieceRole::Pawn, from: 12, capture: None, to: 28, promotion: None };
    assert!(engine.play_move(e4).is_ok());
    assert_ne!(engine.position(), start_position());
}

#[test]
fn depth_zero_gives_no_move() {
    let mut engine = SearchEngine::new(1);
    engine.search_handle().set_limits(depth_limits(0));
    let res = engine.search(&mut |_| {});
    assert_eq!(res.depth, 0);
    assert!(res.best_move.is_none());
}

#[test]
fn the_handle_is_shared() {
    let engine = SearchEngine::new(1);
    let h: SearchHandle = engine.search_handle();
    let seq = h.limits_seq();
    engine.search_handle().set_limits(depth_limits(4));
    assert_eq!(h.limits_seq(), seq + 1);
    assert_eq!(h.limits().max_depth, Some(4));
    h.stop();
    assert!(engine.search_handle().is_stopped());
    h.reset();
    assert!(!engine.search_handle().is_stopped());
}

#[test]
fn move_ordering_tiers_do_not_overlap() {
    let quiet = ChessMove::Normal { role: PieceRole::Knight, from: 6, capture: None, to: 21, promotion: None };
    let other = ChessMove::Normal { role: PieceRole::Knight, from: 1, capture: None, to: 18, promotion: None };
    let pxq = ChessMove::Normal { role: PieceRole::Pawn, from: 28, capture: Some(PieceRole::Queen), to: 35, promotion: None };
    let qxp = ChessMove::Normal { role: PieceRole::Queen, from: 3, capture: Some(PieceRole::Pawn), to: 51, promotion: None };
    let mut history = vec![0i32; 4096];
    history[6 * 64 + 21] = 1_000_000;
    assert_eq!(move_order_score(quiet, Some(quiet), (None, None), &history), HASH_MOVE_SCORE);
    assert_eq!(move_order_score(pxq, None, (None, None), &history), 100_000 + 9000 - 100);
    assert_eq!(move_order_score(qxp, None, (None, None), &history), 100_000 + 1000 - 900);
    assert!(move_order_score(qxp, None, (None, None), &history) > KILLER_1_SCORE);
    assert_eq!(move_order_score(quiet, None, (Some(quiet), None), &history), KILLER_1_SCORE);
    assert_eq!(move_order_score(quiet, None, (Some(other), Some(quiet)), &history), KILLER_2_SCORE);
    // History is capped below the killers.
    assert_eq!(move_order_score(quiet, None, (None, None), &history), 70_000);
    assert_eq!(move_order_score(other, None, (None, None), &history), 0);
}

#[test]
fn deadlines_follow_the_clock() {
    let fixed = Limits { time_mode: TimeMode::Fixed(2000), ..depth_limits(1) };
    assert_eq!(calc_deadline(&fixed, 500), Some(2500));
    assert_eq!(calc_deadline(&depth_limits(1), 500), None);
    let clock = |remaining, increment, moves_to_go| Limits {
        time_mode: TimeMode::Clock(Clock { remaining, opp_remaining: 0, increment, moves_to_go }),
        ..depth_limits(1)
    };
    // 60 s left, no increment: a 25th of it.
    assert_eq!(calc_deadline(&clock(60_000, 0, None), 0), Some(2400));
    // With moves to go and three quarters of the increment.
    assert_eq!(calc_deadline(&clock(60_000, 1000, Some(10)), 100), Some(100 + 6000 + 750));
    // Never more than half of what is left after a 100 ms reserve.
    assert_eq!(calc_deadline(&clock(1000, 0, Some(1)), 0), Some(450));
    assert_eq!(calc_deadline(&clock(50, 0, Some(1)), 7), Some(7));
}

#[test]
fn a_zero_depth_limit_searches_nothing() {
    let mut engine = SearchEngine::new(1);
    let res = engine.search_with(depth_limits(0), 0, &mut |_| {});
    assert_eq!(res.depth, 0);
    assert_eq!(res.best_move, None);
    assert_eq!(res.score, None);
}

#[test]
fn the_first_iteration_always_gives_a_move() {
    let mut engine = SearchEngine::new(1);
    let mut depths = Vec::new();
    let res = engine.search_with(depth_limits(2), 0, &mut |p| depths.push(p.depth));
    assert_eq!(depths, vec![1, 2]);
    assert_eq!(res.depth, 2);
    let m = res.best_move.unwrap();
    assert!(is_legal(&start_position(), m));
}

#[test]
fn a_mate_in_one_scores_mate_in_one_with_given_limits() {
    let mut engine = SearchEngine::new(1);
    engine.set_position(from_fen("6k1/5ppp/8/8/8/8/8/R5K1 w - - 0 1").unwrap());
    let res = engine.search_with(depth_limits(4), 0, &mut |_| {});
    let ra8 = ChessMove::Normal { role: PieceRole::Rook, from: 0, capture: None, to: 56, promotion: None };
    assert_eq!(res.score, Some(Score::Mate(1)));
    assert_eq!(res.best_move, Some(ra8));
    // A mate ends the deepening after the first iteration.
    assert_eq!(res.depth, 1);
}

#[test]
fn a_move_off_the_board_is_not_legal() {
    let start = start_position();
    let wild = ChessMove::Normal { role: PieceRole::Pawn, from: 200, capture: None, to: 16, promotion: None };
    assert!(!is_legal(&start, wild));
    let wild_to = ChessMove::EnPassant { from: 12, to: 99 };
    assert!(!is_legal(&start, wild_to));
}

#[test]
fn a_refused_move_is_named_in_the_error() {
    let mut engine = SearchEngine::new(1);
    let e5 = ChessMove::Normal { role: PieceRole::Pawn, from: 52, capture: None, to: 36, promotion: None };
    let err = engine.play_move(e5).unwrap_err();
    assert_eq!(err.0, e5);
    let wild = ChessMove::Castle { king: 4, rook: 250 };
    assert_eq!(engine.play_move(wild).unwrap_err().0, wild);
}

#[test]
fn tt_scores_outside_the_search_band_round_trip() {
    assert_eq!(score_to_tt(5000, 10), 5010);
    assert_eq!(score_from_tt(5010, 10), 5000);
    assert_eq!(score_to_tt(-5000, 10), -5010);
    for score in [2_000_000, -2_000_000, 3999, -3999] {
        assert_eq!(score_from_tt(score_to_tt(score, 200), 200), score);
    }
}

#[test]
fn a_root_search_scores_a_mate_in_one_exactly() {
    let mut engine = SearchEngine::new(1);
    let pos = from_fen("6k1/5ppp/8/8/8/8/8/R5K1 w - - 0 1").unwrap();
    assert_eq!(engine.depth_bound_search(&pos, 1), Some(MATE - 1));
    assert_eq!(engine.depth_bound_search(&pos, 2), Some(MATE - 1));
}

#[test]
fn each_report_has_the_next_depth_and_the_result_has_the_last_score() {
    let mut engine = SearchEngine::new(1);
    let mut reports = Vec::new();
    let res = engine.search_with(depth_limits(3), 0, &mut |p| reports.push((p.depth, p.score)));
    assert_eq!(reports.iter().map(|r| r.0).collect::<Vec<_>>(), vec![1, 2, 3]);
    assert_eq!(res.depth, 3);
    assert_eq!(res.score, Some(reports[2].1));
}
