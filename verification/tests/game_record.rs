use chess_engine::chess::{ChessMove, Color, KnownOutcome, Position};
use chess_engine::play::{
    civil_from_days, engine_line, movetext, pgn_document, prompt_line, prompt_message,
    result_message, result_text, result_token, to_pgn, Game, Step,
};
use chess_engine::rules::{from_fen, is_legal, legal_moves, play, san_plus, start_position};

/// The legal move of `pos` whose SAN (without its check suffix) is `san`.
fn find_san(pos: &Position, san: &str) -> ChessMove {
    for m in legal_moves(pos) {
        let s = san_plus(pos, m);
        if s.trim_end_matches(['+', '#']) == san {
            return m;
        }
    }
    panic!("no move {san}");
}

/// Play a sequence of SAN moves, returning the SAN history (as the game loop
/// records it) and the final position.
fn play_sans(sans: &[&str]) -> (Vec<String>, Position) {
    let mut pos = start_position();
    let mut history = Vec::new();
    for s in sans {
        let mv = find_san(&pos, s);
        history.push(san_plus(&pos, mv));
        pos = play(&pos, mv);
    }
    (history, pos)
}

#[test]
fn scholars_mate_pgn() {
    let (history, pos) = play_sans(&["e4", "e5", "Bc4", "Nc6", "Qh5", "Nf6", "Qxf7"]);
    assert!(legal_moves(&pos).is_empty());

    let pgn = to_pgn(&history, &pos, Color::White);
    assert!(pgn.contains("[Result \"1-0\"]"), "{pgn}");
    assert!(pgn.contains("[White \"Human\"]"), "{pgn}");
    assert!(pgn.contains("[Black \"Rust Chess Engine\"]"), "{pgn}");
    assert!(pgn.contains("1. e4 e5 2. Bc4 Nc6 3. Qh5 Nf6 4. Qxf7# 1-0"), "{pgn}");
}

#[test]
fn black_perspective_swaps_the_roster() {
    let (history, pos) = play_sans(&["e4", "e5"]);
    let pgn = to_pgn(&history, &pos, Color::Black);
    assert!(pgn.contains("[White \"Rust Chess Engine\"]"), "{pgn}");
    assert!(pgn.contains("[Black \"Human\"]"), "{pgn}");
}

#[test]
fn empty_game_pgn_is_just_the_result() {
    let pgn = to_pgn(&[], &start_position(), Color::White);
    assert!(pgn.trim_end().ends_with('*'), "{pgn}");
}

#[test]
fn movetext_numbers_pairs() {
    let history = ["e4", "e5", "Nf3"].map(String::from);
    assert_eq!(movetext(&history), "1. e4 e5 2. Nf3");
}

#[test]
fn civil_from_days_matches_known_dates() {
    assert_eq!(civil_from_days(0), (1970, 1, 1));
    assert_eq!(civil_from_days(18_628), (2021, 1, 1));
}

#[test]
fn civil_from_days_handles_leap_days_and_the_past() {
    assert_eq!(civil_from_days(11_016), (2000, 2, 29));
    assert_eq!(civil_from_days(-1), (1969, 12, 31));
    assert_eq!(civil_from_days(-719_468), (0, 3, 1));
    assert_eq!(civil_from_days(19_782), (2024, 2, 29));
}

#[test]
fn movetext_wraps_at_eighty_bytes() {
    let history: Vec<String> = (0..40).map(|_| String::from("Nf3")).collect();
    let text = movetext(&history);
    for line in text.lines() {
        assert!(line.len() <= 80, "{line}");
    }
    assert_eq!(text.lines().count(), 3);
    assert!(text.starts_with("1. Nf3 Nf3 2. Nf3 Nf3"));
    // Joining the lines back gives the single-line text.
    let joined = text.replace('\n', " ");
    let mut expected = String::new();
    for i in 0..40 {
        if i % 2 == 0 {
            if i > 0 {
                expected.push(' ');
            }
            expected.push_str(&format!("{}. ", i / 2 + 1));
        } else {
            expected.push(' ');
        }
        expected.push_str("Nf3");
    }
    assert_eq!(joined, expected);
}

#[test]
fn movetext_of_nothing_is_empty() {
    assert_eq!(movetext(&[]), "");
}

#[test]
fn pgn_document_has_the_roster_and_date() {
    let history = ["e4", "e5"].map(String::from);
    let pgn = pgn_document(&history, Some(KnownOutcome::Draw), Color::White, (2024, 3, 7));
    assert_eq!(
        pgn,
        "[Event \"Casual game\"]\n[Site \"Rust Chess TUI\"]\n[Date \"2024.03.07\"]\n[Round \"-\"]\n\
         [White \"Human\"]\n[Black \"Rust Chess Engine\"]\n[Result \"1/2-1/2\"]\n\n1. e4 e5 1/2-1/2\n"
    );
    let early = pgn_document(&[], None, Color::Black, (987, 12, 1));
    assert!(early.contains("[Date \"0987.12.01\"]"), "{early}");
    assert!(early.ends_with("\n\n*\n"), "{early}");
}

#[test]
fn result_tokens() {
    assert_eq!(result_token(Some(KnownOutcome::Decisive { winner: Color::White })), "1-0");
    assert_eq!(result_token(Some(KnownOutcome::Decisive { winner: Color::Black })), "0-1");
    assert_eq!(result_token(Some(KnownOutcome::Draw)), "1/2-1/2");
    assert_eq!(result_token(None), "*");
}

#[test]
fn status_lines() {
    assert_eq!(prompt_message(false, None), "Your move.");
    assert_eq!(
        prompt_message(true, Some("Engine played Qh5+.")),
        "Engine played Qh5+. Your move — you are in check!"
    );
    assert_eq!(engine_line("Engine is thinking…", None), "Engine is thinking…");
    assert_eq!(
        engine_line("Engine is thinking…", Some("You played e4.")),
        "You played e4. Engine is thinking…"
    );
    let win = Some(KnownOutcome::Decisive { winner: Color::Black });
    assert_eq!(result_message(win, Color::Black), "Checkmate — you win! 🎉");
    assert_eq!(result_message(win, Color::White), "Checkmate — the engine wins.");
    assert_eq!(result_message(Some(KnownOutcome::Draw), Color::White), "Draw.");
    assert_eq!(result_message(None, Color::White), "Game over.");
}

#[test]
fn game_alternates_between_human_and_engine() {
    let mut game = Game::new(Color::White);
    match game.next_step() {
        Step::AskHuman(view) => assert_eq!(view.status, "Your move."),
        _ => panic!("the human moves first as White"),
    }
    let e4 = find_san(&game.pos, "e4");
    assert!(is_legal(&game.pos, e4));
    game.play_human(e4);
    assert_eq!(game.history, vec![String::from("e4")]);
    assert_eq!(game.last_note.as_deref(), Some("You played e4."));
    match game.next_step() {
        Step::EngineTurn(view) => {
            assert_eq!(view.status, "You played e4. Engine is thinking…");
            assert_eq!(view.last_move, Some(e4));
        }
        _ => panic!("the engine answers"),
    }
    let e5 = find_san(&game.pos, "e5");
    game.play_engine(e5);
    assert_eq!(game.last_note.as_deref(), Some("Engine played e5."));
    let (view, pgn) = game.finish();
    assert_eq!(view.status, "Game over.");
    assert!(pgn.contains("1. e4 e5 *"), "{pgn}");
}

#[test]
fn a_finished_game_reports_the_result() {
    let mut game = Game::new(Color::Black);
    for s in ["f3", "e5", "g4", "Qh4"] {
        let m = find_san(&game.pos, s);
        game.play_human(m);
    }
    assert!(matches!(game.next_step(), Step::Over));
    let (view, pgn) = game.finish();
    assert_eq!(view.status, "Checkmate — you win! 🎉");
    assert!(pgn.contains("1. f3 e5 2. g4 Qh4# 0-1"), "{pgn}");
}

#[test]
fn the_prompt_warns_of_check() {
    let checked = from_fen("4k3/8/8/8/8/8/8/4KQ2 b - - 0 1").unwrap();
    assert_eq!(prompt_line(&checked, None), "Your move.");
    let in_check = from_fen("4k3/8/8/8/8/8/8/4K2Q b - - 0 1").unwrap();
    assert_eq!(prompt_line(&in_check, Some("Engine played Qh1.")), "Engine played Qh1. Your move.");
    let mated = from_fen("4k3/4Q3/4K3/8/8/8/8/8 b - - 0 1").unwrap();
    assert_eq!(
        prompt_line(&mated, Some("Engine played Qe7#.")),
        "Engine played Qe7#. Your move — you are in check!"
    );
    assert_eq!(result_text(&mated, Color::Black), "Checkmate — the engine wins.");
    assert_eq!(result_text(&mated, Color::White), "Checkmate — you win! 🎉");
    let stalemate = from_fen("k7/2Q5/1K6/8/8/8/8/8 b - - 0 1").unwrap();
    assert_eq!(result_text(&stalemate, Color::White), "Draw.");
}

#[test]
fn the_next_day_number_is_the_next_calendar_day() {
    assert_eq!(civil_from_days(58), (1970, 2, 28));
    assert_eq!(civil_from_days(59), (1970, 3, 1));
    assert_eq!(civil_from_days(11_015), (2000, 2, 28));
    assert_eq!(civil_from_days(11_017), (2000, 3, 1));
    assert_eq!(civil_from_days(10_956), (1999, 12, 31));
    assert_eq!(civil_from_days(10_957), (2000, 1, 1));
}
