use chess_engine::chess::{ChessMove, Color, PieceRole, Square};
use chess_engine::play::BoardView;
use chess_engine::render::{render_piece, TerminalRenderer};
use chess_engine::rules::{legal_moves, start_position};
use chess_engine::tui::{
    board_cells, brighten, candidates, file_labels, piece_glyph, promotion_choices,
    promotion_label, rank_label, role_from_char, save_path, shade, side_menu_key, square_bg,
    step, targets_from, Key, MovePicker, PickerEvent, PromotionPicker, Rgb, Shade, SideChoice,
};

fn sq(file: u8, rank: u8) -> Square {
    file + 8 * rank
}

#[test]
fn cursor_moves_in_screen_space_for_white() {
    let e2 = sq(4, 1);
    assert_eq!(step(e2, Color::White, 0, 1), sq(4, 2)); // e3
    assert_eq!(step(e2, Color::White, 1, 0), sq(5, 1)); // f2
    assert_eq!(step(e2, Color::White, -1, 0), sq(3, 1)); // d2
}

#[test]
fn cursor_is_flipped_for_black() {
    let e7 = sq(4, 6);
    assert_eq!(step(e7, Color::Black, 0, 1), sq(4, 5)); // e6
    assert_eq!(step(e7, Color::Black, 1, 0), sq(3, 6)); // d7 (screen-right)
}

#[test]
fn cursor_clamps_at_edges() {
    let a1 = sq(0, 0);
    assert_eq!(step(a1, Color::White, -1, -1), a1);
    let h8 = sq(7, 7);
    assert_eq!(step(h8, Color::White, 1, 1), h8);
}

#[test]
fn targets_from_start_position() {
    let pos = start_position();
    let legal: Vec<ChessMove> = legal_moves(&pos);

    let mut knight = targets_from(&legal, sq(1, 0));
    knight.sort();
    assert_eq!(knight, vec![sq(0, 2), sq(2, 2)]);

    let mut pawn = targets_from(&legal, sq(4, 1));
    pawn.sort();
    assert_eq!(pawn, vec![sq(4, 2), sq(4, 3)]);

    assert!(targets_from(&legal, sq(4, 3)).is_empty());
}

#[test]
fn cursor_lifts_brightness_over_any_base() {
    let view = BoardView {
        pos: start_position(),
        perspective: Color::White,
        last_move: None,
        status: String::new(),
    };
    let target = sq(3, 3);
    let plain = square_bg(target, &view, None, None, &[target]);
    let lit = square_bg(target, &view, Some(target), None, &[target]);
    assert_ne!(plain, lit, "cursor square should be visibly brighter");
}

#[test]
fn backgrounds_layer_selection_targets_and_last_move() {
    let e4 = ChessMove::Normal { role: PieceRole::Pawn, from: sq(4, 1), capture: None, to: sq(4, 3), promotion: None };
    let view = BoardView { pos: start_position(), perspective: Color::White, last_move: Some(e4), status: String::new() };
    assert_eq!(square_bg(sq(0, 0), &view, None, None, &[]), shade(Shade::DarkSquare));
    assert_eq!(square_bg(sq(1, 0), &view, None, None, &[]), shade(Shade::LightSquare));
    assert_eq!(square_bg(sq(4, 1), &view, None, None, &[]), shade(Shade::LastMove));
    assert_eq!(square_bg(sq(4, 3), &view, None, None, &[sq(4, 3)]), shade(Shade::Target));
    assert_eq!(square_bg(sq(4, 3), &view, None, Some(sq(4, 3)), &[sq(4, 3)]), shade(Shade::Selected));
    assert_eq!(
        square_bg(sq(0, 0), &view, Some(sq(0, 0)), None, &[]),
        Rgb { r: 226, g: 181, b: 144 }
    );
}

#[test]
fn brighten_saturates() {
    assert_eq!(brighten(Rgb { r: 250, g: 10, b: 0 }, 45), Rgb { r: 255, g: 55, b: 45 });
}

#[test]
fn glyphs_letters_and_keys() {
    assert_eq!(piece_glyph(PieceRole::King), '\u{265A}');
    assert_eq!(piece_glyph(PieceRole::Pawn), '\u{265F}');
    assert_eq!(role_from_char('Q'), Some(PieceRole::Queen));
    assert_eq!(role_from_char('n'), Some(PieceRole::Knight));
    assert_eq!(role_from_char('k'), None);
}

#[test]
fn board_cells_follow_the_orientation() {
    let view = BoardView { pos: start_position(), perspective: Color::White, last_move: None, status: String::new() };
    let cells = board_cells(&view, None, None, &[]);
    assert_eq!(cells.len(), 64);
    // Top left is a8 for White: a black rook on a light square.
    assert_eq!(cells[0].glyph, '\u{265C}');
    assert_eq!(cells[0].fg, shade(Shade::BlackPiece));
    assert_eq!(cells[0].bg, shade(Shade::LightSquare));
    // Bottom right is h1: a white rook.
    assert_eq!(cells[63].fg, shade(Shade::WhitePiece));
    // The middle of the board is empty.
    assert_eq!(cells[27].glyph, ' ');
    let flipped = BoardView { perspective: Color::Black, ..view };
    let cells = board_cells(&flipped, None, None, &[]);
    // Top left is h1 for Black.
    assert_eq!(cells[0].fg, shade(Shade::WhitePiece));
    assert_eq!(rank_label(0, false), " 8 ");
    assert_eq!(rank_label(0, true), " 1 ");
    assert_eq!(file_labels(false), "    a  b  c  d  e  f  g  h ");
    assert_eq!(file_labels(true), "    h  g  f  e  d  c  b  a ");
}

#[test]
fn side_menu_keys() {
    assert_eq!(side_menu_key(0, Key::Right), SideChoice::Pending(1));
    assert_eq!(side_menu_key(1, Key::Up), SideChoice::Pending(0));
    assert_eq!(side_menu_key(1, Key::Enter), SideChoice::Chosen(Color::Black));
    assert_eq!(side_menu_key(0, Key::Enter), SideChoice::Chosen(Color::White));
    assert_eq!(side_menu_key(1, Key::Char('w')), SideChoice::Chosen(Color::White));
    assert_eq!(side_menu_key(0, Key::Esc), SideChoice::Quit);
    assert_eq!(side_menu_key(1, Key::Char('x')), SideChoice::Pending(1));
}

#[test]
fn move_picker_selects_and_chooses() {
    let legal = legal_moves(&start_position());
    let first_from = legal[0].from().unwrap();
    let mut picker = MovePicker::new(legal, Color::White);
    assert_eq!(picker.cursor, first_from);
    picker.cursor = sq(6, 0); // g1
    assert_eq!(picker.on_key(Key::Enter), PickerEvent::Continue);
    assert_eq!(picker.selected, Some(sq(6, 0)));
    assert_eq!(picker.targets, vec![sq(5, 2), sq(7, 2)]);
    assert_eq!(picker.on_key(Key::Up), PickerEvent::Continue);
    assert_eq!(picker.on_key(Key::Up), PickerEvent::Continue);
    assert_eq!(picker.cursor, sq(6, 2));
    assert_eq!(picker.on_key(Key::Left), PickerEvent::Continue);
    assert_eq!(picker.on_key(Key::Enter), PickerEvent::Chosen { from: sq(6, 0), to: sq(5, 2) });
    assert_eq!(picker.on_key(Key::Backspace), PickerEvent::Continue);
    assert_eq!(picker.selected, None);
    assert!(picker.targets.is_empty());
    // An empty square selects nothing.
    picker.cursor = sq(4, 4);
    assert_eq!(picker.on_key(Key::Enter), PickerEvent::Continue);
    assert_eq!(picker.selected, None);
    assert_eq!(picker.on_key(Key::Char('q')), PickerEvent::Quit);
}

#[test]
fn promotion_choices_are_offered_queen_first() {
    let promo = |role| ChessMove::Normal { role: PieceRole::Pawn, from: sq(0, 6), capture: None, to: sq(0, 7), promotion: Some(role) };
    let all = [promo(PieceRole::Knight), promo(PieceRole::Bishop), promo(PieceRole::Rook), promo(PieceRole::Queen)];
    let c = candidates(&all, sq(0, 6), sq(0, 7));
    assert_eq!(c.len(), 4);
    assert!(candidates(&all, sq(0, 6), sq(1, 7)).is_empty());
    let choices = promotion_choices(&c);
    assert_eq!(choices, vec![promo(PieceRole::Queen), promo(PieceRole::Rook), promo(PieceRole::Bishop), promo(PieceRole::Knight)]);
    assert_eq!(promotion_label(choices[0]), " Q ");
    let mut picker = PromotionPicker::new(choices);
    assert_eq!(picker.on_key(Key::Left), None);
    assert_eq!(picker.idx, 3);
    assert_eq!(picker.on_key(Key::Right), None);
    assert_eq!(picker.idx, 0);
    assert_eq!(picker.on_key(Key::Char('r')), Some(promo(PieceRole::Rook)));
    assert_eq!(picker.on_key(Key::Char('x')), None);
    assert_eq!(picker.on_key(Key::Enter), Some(promo(PieceRole::Queen)));
}

#[test]
fn save_path_defaults_when_blank() {
    assert_eq!(save_path("  "), "game.pgn");
    assert_eq!(save_path(" mygame.pgn\t"), "mygame.pgn");
}

#[test]
fn terminal_renderer_draws_ranks_top_down() {
    assert_eq!(render_piece(Color::White, PieceRole::King), "\x1b[37mK\x1b[39m");
    assert_eq!(render_piece(Color::Black, PieceRole::Pawn), "\x1b[31mP\x1b[39m");
    let lines = TerminalRenderer.board_lines(&start_position());
    assert_eq!(lines.len(), 8);
    assert_eq!(lines[3], ". . . . . . . . ");
    assert!(lines[0].starts_with("\x1b[31mR\x1b[39m "));
    assert!(lines[7].starts_with("\x1b[37mR\x1b[39m "));
}
