use chess_engine::chess::{PieceRole, Position};
use chess_engine::eval::{evaluate, king_pst, piece_value, KING_EG, KING_MG};
use chess_engine::rules::{from_fen, start_position};

fn pos(fen: &str) -> Position {
    from_fen(fen).unwrap()
}

#[test]
fn start_position_is_symmetric() {
    assert_eq!(evaluate(&start_position()), 0);
}

#[test]
fn central_knight_beats_rim_knight() {
    let central = pos("4k3/8/8/4N3/8/8/8/4K3 w - - 0 1");
    let rim = pos("4k3/8/8/8/8/N7/8/4K3 w - - 0 1");
    assert!(
        evaluate(&central) > evaluate(&rim),
        "central {} should beat rim {}",
        evaluate(&central),
        evaluate(&rim)
    );
}

#[test]
fn king_centralizes_in_the_endgame() {
    let central = pos("8/8/4k3/8/4K3/8/8/8 w - - 0 1");
    let corner = pos("8/8/4k3/8/8/8/8/K7 w - - 0 1");
    assert!(evaluate(&central) > evaluate(&corner));
}

#[test]
fn mirrored_positions_evaluate_to_zero() {
    assert_eq!(evaluate(&pos("4k3/4p3/8/8/8/8/4P3/4K3 w - - 0 1")), 0);
    assert_eq!(evaluate(&pos("r3k3/8/8/8/8/8/8/R3K3 b - - 0 1")), 0);
}

#[test]
fn evaluation_is_relative_to_the_side_to_move() {
    let extra_queen = pos("4k3/8/8/8/8/8/8/3QK3 w - - 0 1");
    assert!(evaluate(&extra_queen) > 800);
    let black_queen = pos("3qk3/8/8/8/8/8/8/4K3 w - - 0 1");
    assert!(evaluate(&black_queen) < -800);
    let black_to_move = pos("3qk3/8/8/8/8/8/8/4K3 b - - 0 1");
    assert_eq!(evaluate(&black_to_move), -evaluate(&black_queen));
}

#[test]
fn piece_values() {
    assert_eq!(piece_value(PieceRole::Pawn), 100);
    assert_eq!(piece_value(PieceRole::Knight), 320);
    assert_eq!(piece_value(PieceRole::Queen), 900);
    assert_eq!(piece_value(PieceRole::King), 0);
}

#[test]
fn king_table_interpolates_between_phases() {
    for idx in [0usize, 27, 63] {
        assert_eq!(king_pst(idx, 24), KING_MG[idx]);
        assert_eq!(king_pst(idx, 0), KING_EG[idx]);
    }
    // Halfway: the average, rounded toward zero.
    let mid = king_pst(0, 12);
    assert_eq!(mid, (KING_MG[0] * 12 + KING_EG[0] * 12) / 24);
}

#[test]
fn a_static_score_never_reaches_the_mate_threshold() {
    // Five queens against a bare king: far more material than 4000.
    let white = pos("k7/8/8/8/8/8/8/1QQQQQK1 w - - 0 1");
    assert_eq!(evaluate(&white), 3999);
    let black = pos("k7/8/8/8/8/8/8/1QQQQQK1 b - - 0 1");
    assert_eq!(evaluate(&black), -3999);
}

#[test]
fn passing_the_move_negates_the_evaluation() {
    // White is a knight up; only the side to move differs.
    let white = pos("rnbqkb1r/pppp1ppp/8/4p3/4P3/5N2/PPPP1PPP/RNBQKB1R w KQkq - 0 3");
    let black = pos("rnbqkb1r/pppp1ppp/8/4p3/4P3/5N2/PPPP1PPP/RNBQKB1R b KQkq - 0 3");
    assert!(evaluate(&white) > 200);
    assert_eq!(evaluate(&black), -evaluate(&white));
}
