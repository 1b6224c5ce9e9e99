use chess_engine::chess::{ChessMove, Color, PieceRole};
use chess_engine::interface::{Clock, Score, SearchProgress, SearchResult, TimeMode};
use chess_engine::rules::{play, start_position, uci_to_move};
use chess_engine::uci::{
    bestmove_line, byte_fields_fit, contains_word, format_progress, parse_trimmed_usize, search_done_line, trim,
    Action, EMessage, Event, GoTime, MessageHandler, UciCommand,
};

fn describe(actions: &[Action]) -> Vec<String> {
    actions
        .iter()
        .map(|a| match a {
            Action::Print(s) => format!("print {s}"),
            Action::Flush => String::from("flush"),
            Action::StopSearch => String::from("stop"),
            Action::ResetStop => String::from("reset"),
            Action::SetLimits(l) => format!("limits {:?} {:?} {:?}", l.time_mode, l.max_depth, l.max_nodes),
            Action::ToEngine(m) => format!("engine {m:?}"),
            Action::Quit => String::from("quit"),
        })
        .collect()
}

fn line(h: &mut MessageHandler, text: &str) -> Vec<String> {
    describe(&h.on_event(Event::Line(String::from(text))))
}

fn e2e4() -> ChessMove {
    ChessMove::Normal { role: PieceRole::Pawn, from: 12, capture: None, to: 28, promotion: None }
}

#[test]
fn uci_introduces_the_engine() {
    let mut h = MessageHandler::new();
    assert_eq!(
        line(&mut h, "uci"),
        vec![
            "print id name Chess-engine",
            "print id author Jesper",
            "print option name Hash type spin default 16 min 1 max 4096",
            "print option name Ponder type check default true",
            "print uciok",
            "flush",
        ]
    );
    assert_eq!(line(&mut h, "isready"), vec!["print readyok", "flush"]);
}

#[test]
fn quit_stops_the_search_and_the_session() {
    let mut h = MessageHandler::new();
    assert_eq!(line(&mut h, "quit"), vec!["stop", "quit"]);
    assert_eq!(line(&mut h, "stop"), vec!["stop"]);
    assert_eq!(line(&mut h, "ucinewgame"), vec!["engine Clear"]);
    assert!(line(&mut h, "xyzzy").is_empty());
}

#[test]
fn hash_option_is_trimmed_and_clamped() {
    let mut h = MessageHandler::new();
    let set = |v: &str| UciCommand::SetOption { name: String::from("Hash"), value: Some(String::from(v)) };
    assert_eq!(describe(&h.handle(&set(" 64 "), "")), vec!["engine SetHashSize(64)"]);
    assert_eq!(describe(&h.handle(&set("0"), "")), vec!["engine SetHashSize(1)"]);
    assert_eq!(describe(&h.handle(&set("100000"), "")), vec!["engine SetHashSize(4096)"]);
    assert!(h.handle(&set("lots"), "").is_empty());
    let other = UciCommand::SetOption { name: String::from("Ponder"), value: Some(String::from("true")) };
    assert!(h.handle(&other, "").is_empty());
    assert_eq!(line(&mut h, "setoption name Hash value 128"), vec!["engine SetHashSize(128)"]);
}

#[test]
fn position_plays_the_moves_until_one_is_illegal() {
    let mut h = MessageHandler::new();
    let out = line(&mut h, "position startpos moves e2e4 e7e5");
    let start = start_position();
    let e4 = uci_to_move(&start, "e2e4").unwrap();
    let after_e4 = play(&start, e4);
    let e5 = uci_to_move(&after_e4, "e7e5").unwrap();
    let expected = play(&after_e4, e5);
    assert_eq!(h.position, expected);
    assert_eq!(out, vec![format!("engine {:?}", EMessage::SetPosition(expected))]);
    // An illegal move ends the list.
    line(&mut h, "position startpos moves e2e4 e2e4 e7e5");
    assert_eq!(h.position, after_e4);
    // A FEN position.
    line(&mut h, "position fen 4k3/8/8/8/8/8/8/4K3 b - - 0 1");
    assert_eq!(h.position.turn(), Color::Black);
}

#[test]
fn go_builds_limits_for_the_side_to_move() {
    let mut h = MessageHandler::new();
    let out = line(&mut h, "go wtime 1000 btime 2000 winc 10 binc 20 movestogo 5");
    let clock = TimeMode::Clock(Clock { remaining: 1000, opp_remaining: 2000, increment: 10, moves_to_go: Some(5) });
    assert_eq!(out, vec![String::from("reset"), format!("limits {clock:?} None None"), String::from("engine Search")]);
    line(&mut h, "position fen 4k3/8/8/8/8/8/8/4K3 b - - 0 1");
    let out = line(&mut h, "go wtime 1000 btime 2000");
    let clock = TimeMode::Clock(Clock { remaining: 2000, opp_remaining: 1000, increment: 0, moves_to_go: None });
    assert_eq!(out[1], format!("limits {clock:?} None None"));
    let out = line(&mut h, "go depth 4 nodes 1000");
    assert_eq!(out[1], "limits Unbound Some(4) Some(1000)");
    let out = line(&mut h, "go movetime 250");
    assert_eq!(out[1], "limits Fixed(250) None None");
}

#[test]
fn ponder_searches_without_a_deadline_until_ponderhit() {
    let mut h = MessageHandler::new();
    let out = line(&mut h, "go ponder wtime 1000 btime 1000");
    assert_eq!(out[1], "limits Unbound None None");
    let out = line(&mut h, "ponderhit");
    let clock = TimeMode::Clock(Clock { remaining: 1000, opp_remaining: 1000, increment: 0, moves_to_go: None });
    assert_eq!(out, vec![format!("limits {clock:?} None None")]);
    // The stored limits are used once.
    assert!(line(&mut h, "ponderhit").is_empty());
}

#[test]
fn go_handles_time_controls_directly() {
    let mut h = MessageHandler::new();
    let cmd = UciCommand::Go { time_control: Some(GoTime::MoveTime(-5)), search_control: None };
    let out = describe(&h.handle(&cmd, "go movetime -5"));
    assert_eq!(out[1], "limits Fixed(0) None None");
    let cmd = UciCommand::Go { time_control: Some(GoTime::Infinite), search_control: None };
    let out = describe(&h.handle(&cmd, "go infinite"));
    assert_eq!(out[1], "limits Unbound None None");
}

#[test]
fn searchmoves_restrict_the_root() {
    let mut h = MessageHandler::new();
    let acts = h.on_event(Event::Line(String::from("go depth 2 searchmoves e2e4 a7a5")));
    match &acts[1] {
        Action::SetLimits(l) => assert_eq!(l.restrict_to, Some(vec![e2e4()])),
        _ => panic!("limits expected"),
    }
}

#[test]
fn engine_lines_are_forwarded() {
    let mut h = MessageHandler::new();
    let out = describe(&h.on_event(Event::Info(String::from("info depth 1"))));
    assert_eq!(out, vec!["print info depth 1", "flush"]);
    let res = SearchResult { best_move: Some(e2e4()), pv: vec![e2e4()], score: None, depth: 1, nodes: 20 };
    let out = describe(&h.on_event(Event::SearchDone(res)));
    assert_eq!(out, vec!["print bestmove e2e4", "flush"]);
}

#[test]
fn bestmove_lines() {
    assert_eq!(bestmove_line(None, None), "bestmove 0000");
    assert_eq!(bestmove_line(Some("e2e4"), Some("e7e5")), "bestmove e2e4 ponder e7e5");
    let e7e5 = ChessMove::Normal { role: PieceRole::Pawn, from: 52, capture: None, to: 36, promotion: None };
    let res = SearchResult { best_move: Some(e2e4()), pv: vec![e2e4(), e7e5], score: Some(Score::Cp(20)), depth: 2, nodes: 50 };
    assert_eq!(search_done_line(&res), "bestmove e2e4 ponder e7e5");
    let none = SearchResult { best_move: None, pv: vec![], score: None, depth: 0, nodes: 0 };
    assert_eq!(search_done_line(&none), "bestmove 0000");
}

#[test]
fn progress_lines() {
    let p = SearchProgress {
        depth: 3,
        seldepth: 3,
        elapsed: 120,
        nodes: 5000,
        pv: vec![e2e4()],
        score: Score::Cp(-15),
        hashfull: 7,
        nodes_per_s: 41666,
    };
    assert_eq!(
        format_progress(&p),
        "info depth 3 seldepth 3 score cp -15 nodes 5000 nps 41666 hashfull 7 time 120 pv e2e4"
    );
    let q = SearchProgress { pv: vec![], score: Score::Mate(-2), ..p };
    assert_eq!(
        format_progress(&q),
        "info depth 3 seldepth 3 score mate -2 nodes 5000 nps 41666 hashfull 7 time 120"
    );
}

#[test]
fn words_and_numbers() {
    assert!(contains_word("go ponder wtime 5", "ponder"));
    assert!(contains_word("ponder", "ponder"));
    assert!(!contains_word("go pondering", "ponder"));
    assert!(!contains_word("go xponder", "ponder"));
    assert_eq!(trim("\t hello \n"), "hello");
    assert_eq!(parse_trimmed_usize(" +12 "), Some(12));
    assert_eq!(parse_trimmed_usize(""), None);
    assert_eq!(parse_trimmed_usize("+"), None);
    assert_eq!(parse_trimmed_usize("12a"), None);
    assert_eq!(parse_trimmed_usize("-3"), None);
    assert_eq!(parse_trimmed_usize("99999999999999999999999"), None);
}

#[test]
fn byte_sized_numbers_are_checked_before_parsing() {
    assert!(byte_fields_fit("go depth 255"));
    assert!(byte_fields_fit("go movestogo 40 wtime 1000"));
    assert!(byte_fields_fit("go nodes 100000"));
    assert!(byte_fields_fit("setoption name Hash value 999"));
    assert!(!byte_fields_fit("go depth 256"));
    assert!(!byte_fields_fit("go DEPTH 999"));
    assert!(!byte_fields_fit("go mate \t 300"));
    assert!(!byte_fields_fit("go wtime 100 movestogo 300"));
    assert!(!byte_fields_fit("info seldepth 400"));
}

#[test]
fn moves_are_written_in_uci_notation() {
    let e7e8q = ChessMove::Normal { role: PieceRole::Pawn, from: 52, capture: None, to: 60, promotion: Some(PieceRole::Queen) };
    assert_eq!(chess_engine::rules::uci_text(e7e8q), "e7e8q");
    let short = ChessMove::Castle { king: 4, rook: 7 };
    assert_eq!(chess_engine::rules::uci_text(short), "e1g1");
    let long = ChessMove::Castle { king: 60, rook: 56 };
    assert_eq!(chess_engine::rules::uci_text(long), "e8c8");
    let ep = ChessMove::EnPassant { from: 36, to: 43 };
    assert_eq!(chess_engine::rules::uci_text(ep), "e5d6");
}
