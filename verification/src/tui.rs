//! The decisions of the terminal front end: colors, glyphs and labels of the
//! board on screen, cursor movement, and the keyboard-driven pickers for the
//! side, the move and the promotion piece.
//!
//! Drawing and reading keys belong to the program around the library; it
//! hands the pickers plain [`Key`]s and draws the [`Cell`]s it is given.

use vstd::prelude::*;
use crate::chess::{ChessMove, Color, PieceRole, Position, Square};
use crate::play::BoardView;
use crate::text::{decimal, push_char, push_decimal, push_str};

verus! {

// ---------------------------------------------------------------------------
// Palette.

/// A 24-bit terminal color.
#[derive(Clone, Copy, PartialEq, Eq, Structural, Debug)]
pub struct Rgb {
    pub r: u8,
    pub g: u8,
    pub b: u8,
}

/// The colors the board is drawn with.
#[derive(Clone, Copy, PartialEq, Eq, Structural, Debug)]
pub enum Shade {
    LightSquare,
    DarkSquare,
    Selected,
    Target,
    LastMove,
    WhitePiece,
    BlackPiece,
    Label,
}

pub open spec fn palette(s: Shade) -> Rgb {
    match s {
        Shade::LightSquare => Rgb { r: 240, g: 217, b: 181 },
        Shade::DarkSquare => Rgb { r: 181, g: 136, b: 99 },
        Shade::Selected => Rgb { r: 246, g: 231, b: 92 },
        Shade::Target => Rgb { r: 124, g: 172, b: 96 },
        Shade::LastMove => Rgb { r: 206, g: 210, b: 107 },
        Shade::WhitePiece => Rgb { r: 250, g: 250, b: 250 },
        Shade::BlackPiece => Rgb { r: 30, g: 30, b: 30 },
        Shade::Label => Rgb { r: 140, g: 140, b: 140 },
    }
}

/// The color of a shade.
pub fn shade(s: Shade) -> (r: Rgb)
    ensures
        r == palette(s),
{
    match s {
        Shade::LightSquare => Rgb { r: 240, g: 217, b: 181 },
        Shade::DarkSquare => Rgb { r: 181, g: 136, b: 99 },
        Shade::Selected => Rgb { r: 246, g: 231, b: 92 },
        Shade::Target => Rgb { r: 124, g: 172, b: 96 },
        Shade::LastMove => Rgb { r: 206, g: 210, b: 107 },
        Shade::WhitePiece => Rgb { r: 250, g: 250, b: 250 },
        Shade::BlackPiece => Rgb { r: 30, g: 30, b: 30 },
        Shade::Label => Rgb { r: 140, g: 140, b: 140 },
    }
}

/// Amount each RGB channel is brightened for the square under the cursor, so
/// the cursor reads as "the same square, lit up" regardless of what's beneath.
pub const CURSOR_LIFT: u8 = 45;

pub open spec fn sat_add(x: u8, a: u8) -> u8 {
    if x + a > 255 {
        255
    } else {
        (x + a) as u8
    }
}

pub open spec fn spec_brighten(c: Rgb, amount: u8) -> Rgb {
    Rgb { r: sat_add(c.r, amount), g: sat_add(c.g, amount), b: sat_add(c.b, amount) }
}

/// Each channel raised by `amount`, saturating at 255.
pub fn brighten(color: Rgb, amount: u8) -> (r: Rgb)
    ensures
        r == spec_brighten(color, amount),
{
    Rgb {
        r: color.r.saturating_add(amount),
        g: color.g.saturating_add(amount),
        b: color.b.saturating_add(amount),
    }
}

// ---------------------------------------------------------------------------
// Squares and glyphs.

/// The solid chess figure of a role (`U+265A`–`U+265F`); the foreground
/// color tells which side owns the piece.
pub open spec fn glyph_spec(role: PieceRole) -> char {
    match role {
        PieceRole::King => '\u{265A}',
        PieceRole::Queen => '\u{265B}',
        PieceRole::Rook => '\u{265C}',
        PieceRole::Bishop => '\u{265D}',
        PieceRole::Knight => '\u{265E}',
        PieceRole::Pawn => '\u{265F}',
    }
}

/// The Unicode chess glyph for a role.
pub fn piece_glyph(role: PieceRole) -> (r: char)
    ensures
        r == glyph_spec(role),
{
    match role {
        PieceRole::King => '\u{265A}',
        PieceRole::Queen => '\u{265B}',
        PieceRole::Rook => '\u{265C}',
        PieceRole::Bishop => '\u{265D}',
        PieceRole::Knight => '\u{265E}',
        PieceRole::Pawn => '\u{265F}',
    }
}

/// `Role::upper_char`.
pub open spec fn upper_char_spec(role: PieceRole) -> char {
    match role {
        PieceRole::Pawn => 'P',
        PieceRole::Knight => 'N',
        PieceRole::Bishop => 'B',
        PieceRole::Rook => 'R',
        PieceRole::Queen => 'Q',
        PieceRole::King => 'K',
    }
}

/// The upper-case letter of a role.
pub fn upper_char(role: PieceRole) -> (r: char)
    ensures
        r == upper_char_spec(role),
{
    match role {
        PieceRole::Pawn => 'P',
        PieceRole::Knight => 'N',
        PieceRole::Bishop => 'B',
        PieceRole::Rook => 'R',
        PieceRole::Queen => 'Q',
        PieceRole::King => 'K',
    }
}

/// `char::to_ascii_lowercase` then the promotion piece it names, if any.
pub open spec fn role_from_char_spec(c: char) -> Option<PieceRole> {
    if c == 'q' || c == 'Q' {
        Some(PieceRole::Queen)
    } else if c == 'r' || c == 'R' {
        Some(PieceRole::Rook)
    } else if c == 'b' || c == 'B' {
        Some(PieceRole::Bishop)
    } else if c == 'n' || c == 'N' {
        Some(PieceRole::Knight)
    } else {
        None
    }
}

/// The promotion piece a key names, in either case.
pub fn role_from_char(c: char) -> (r: Option<PieceRole>)
    ensures
        r == role_from_char_spec(c),
{
    if c == 'q' || c == 'Q' {
        Some(PieceRole::Queen)
    } else if c == 'r' || c == 'R' {
        Some(PieceRole::Rook)
    } else if c == 'b' || c == 'B' {
        Some(PieceRole::Bishop)
    } else if c == 'n' || c == 'N' {
        Some(PieceRole::Knight)
    } else {
        None
    }
}

/// The square with file and rank `file` and `rank`.
pub open spec fn square_at(file: int, rank: int) -> int {
    file + 8 * rank
}

/// The cursor moved by `(dcol, drow)` in screen space (right and up
/// positive), which runs the other way for Black, clamped to the board.
pub open spec fn spec_step(sq: Square, perspective: Color, dcol: int, drow: int) -> Square {
    let file = sq % 8;
    let rank = sq / 8;
    let (nf, nr) = if perspective == Color::Black {
        (file - dcol, rank - drow)
    } else {
        (file + dcol, rank + drow)
    };
    let cf = if nf < 0 {
        0
    } else if nf > 7 {
        7
    } else {
        nf
    };
    let cr = if nr < 0 {
        0
    } else if nr > 7 {
        7
    } else {
        nr
    };
    square_at(cf, cr) as Square
}

/// Whether moving the cursor by `(dcol, drow)` stays within `i32`.
pub open spec fn step_fits(sq: Square, perspective: Color, dcol: int, drow: int) -> bool {
    let file = sq % 8;
    let rank = sq / 8;
    if perspective == Color::Black {
        i32::MIN <= file - dcol <= i32::MAX && i32::MIN <= rank - drow <= i32::MAX
    } else {
        i32::MIN <= file + dcol <= i32::MAX && i32::MIN <= rank + drow <= i32::MAX
    }
}

/// Move the cursor by `(dcol, drow)` in screen space, respecting the board
/// orientation and clamping at the edges.
pub fn step(sq: Square, perspective: Color, dcol: i32, drow: i32) -> (r: Square)
    requires
        sq < 64,
        step_fits(sq, perspective, dcol as int, drow as int),
    ensures
        r == spec_step(sq, perspective, dcol as int, drow as int),
        r < 64,
{
    let flip = perspective == Color::Black;
    let file = (sq % 8) as i32;
    let rank = (sq / 8) as i32;
    let (nf, nr) = if flip {
        (file - dcol, rank - drow)
    } else {
        (file + dcol, rank + drow)
    };
    let cf: i32 = if nf < 0 {
        0
    } else if nf > 7 {
        7
    } else {
        nf
    };
    let cr: i32 = if nr < 0 {
        0
    } else if nr > 7 {
        7
    } else {
        nr
    };
    (cf + 8 * cr) as u8
}

/// The checkerboard, highlights and cursor lift of a square's background.
pub open spec fn base_bg(
    sq: Square,
    last_move: Option<ChessMove>,
    selected: Option<Square>,
    targets: Seq<Square>,
) -> Rgb {
    if selected == Some(sq) {
        palette(Shade::Selected)
    } else if targets.contains(sq) {
        palette(Shade::Target)
    } else if last_move matches Some(m) && (m.spec_from() == Some(sq) || m.spec_to() == sq) {
        palette(Shade::LastMove)
    } else if (sq % 8 + sq / 8) % 2 == 0 {
        palette(Shade::DarkSquare)
    } else {
        palette(Shade::LightSquare)
    }
}

pub open spec fn spec_square_bg(
    sq: Square,
    last_move: Option<ChessMove>,
    cursor: Option<Square>,
    selected: Option<Square>,
    targets: Seq<Square>,
) -> Rgb {
    let base = base_bg(sq, last_move, selected, targets);
    if cursor == Some(sq) {
        spec_brighten(base, CURSOR_LIFT)
    } else {
        base
    }
}

/// The cursor square is always drawn brighter than it would be without the
/// cursor, whatever lies beneath.
pub proof fn lemma_cursor_lifts_brightness(
    sq: Square,
    last_move: Option<ChessMove>,
    selected: Option<Square>,
    targets: Seq<Square>,
)
    ensures
        spec_square_bg(sq, last_move, Some(sq), selected, targets) != spec_square_bg(
            sq,
            last_move,
            None,
            selected,
            targets,
        ),
{
}

fn contains_square(v: &[Square], sq: Square) -> (r: bool)
    ensures
        r == v@.contains(sq),
{
    let mut i: usize = 0;
    while i < v.len()
        invariant
            i <= v@.len(),
            forall|j: int| 0 <= j < i ==> v@[j] != sq,
        decreases v@.len() - i,
    {
        if v[i] == sq {
            assert(v@[i as int] == sq);
            return true;
        }
        i = i + 1;
    }
    false
}

/// Pick the background color for a square, layering interaction state over
/// the checkerboard and lifting brightness for the cursor square.
pub fn square_bg(
    sq: Square,
    view: &BoardView,
    cursor: Option<Square>,
    selected: Option<Square>,
    targets: &[Square],
) -> (r: Rgb)
    ensures
        r == spec_square_bg(sq, view.last_move, cursor, selected, targets@),
{
    let base = if selected == Some(sq) {
        shade(Shade::Selected)
    } else if contains_square(targets, sq) {
        shade(Shade::Target)
    } else if match view.last_move {
        Some(m) => m.from() == Some(sq) || m.to() == sq,
        None => false,
    } {
        shade(Shade::LastMove)
    } else if (sq % 8 + sq / 8) % 2 == 0 {
        shade(Shade::DarkSquare)
    } else {
        shade(Shade::LightSquare)
    };
    if cursor == Some(sq) {
        brighten(base, CURSOR_LIFT)
    } else {
        base
    }
}

// ---------------------------------------------------------------------------
// Legal targets.

/// Whether some move of `legal` goes from `from` to `to`.
pub open spec fn is_target(legal: Seq<ChessMove>, from: Square, to: Square) -> bool {
    exists|i: int| 0 <= i < legal.len() && legal[i].spec_from() == Some(from) && #[trigger] legal[i].spec_to() == to
}

/// Inserting `to` at its place in a strictly increasing sequence that lacks
/// it keeps the sequence strictly increasing and adds exactly `to`.
proof fn lemma_insert_sorted(s: Seq<Square>, p: int, to: Square)
    requires
        0 <= p <= s.len(),
        forall|a: int, b: int| 0 <= a < b < s.len() ==> s[a] < s[b],
        forall|a: int| 0 <= a < p ==> s[a] < to,
        p == s.len() || s[p] != to,
        p == s.len() || !(s[p] < to),
    ensures
        forall|a: int, b: int| 0 <= a < b < s.insert(p, to).len() ==> s.insert(p, to)[a] < s.insert(
            p,
            to,
        )[b],
        forall|t: Square| s.insert(p, to).contains(t) <==> (s.contains(t) || t == to),
{
    let u = s.insert(p, to);
    assert forall|a: int, b: int| 0 <= a < b < u.len() implies u[a] < u[b] by {
        if b < p {
        } else if a < p && b == p {
        } else if a < p {
            assert(u[b] == s[b - 1]);
            assert(s[p] <= s[b - 1]);
        } else if a == p {
            assert(u[b] == s[b - 1]);
            assert(s[p] <= s[b - 1]);
        } else {
            assert(u[a] == s[a - 1]);
            assert(u[b] == s[b - 1]);
        }
    }
    assert forall|t: Square| u.contains(t) <==> (s.contains(t) || t == to) by {
        if u.contains(t) {
            let k = choose|k: int| 0 <= k < u.len() && u[k] == t;
            if k < p {
                assert(s[k] == t);
            } else if k > p {
                assert(s[k - 1] == t);
            }
        }
        if s.contains(t) {
            let k = choose|k: int| 0 <= k < s.len() && s[k] == t;
            if k < p {
                assert(u[k] == t);
            } else {
                assert(u[k + 1] == t);
            }
        }
        if t == to {
            assert(u[p] == to);
        }
    }
}

/// Legal destination squares for a piece standing on `from`, in increasing
/// order, each once.
#[verifier::spinoff_prover]
pub fn targets_from(legal: &[ChessMove], from: Square) -> (r: Vec<Square>)
    ensures
        forall|i: int, j: int| 0 <= i < j < r@.len() ==> r@[i] < r@[j],
        forall|to: Square| r@.contains(to) <==> is_target(legal@, from, to),
{
    let mut out: Vec<Square> = Vec::new();
    let mut i: usize = 0;
    while i < legal.len()
        invariant
            i <= legal@.len(),
            forall|a: int, b: int| 0 <= a < b < out@.len() ==> out@[a] < out@[b],
            forall|to: Square|
                out@.contains(to) <==> exists|k: int|
                    0 <= k < i && legal@[k].spec_from() == Some(from) && #[trigger] legal@[k].spec_to()
                        == to,
        decreases legal@.len() - i,
    {
        let m = legal[i];
        let ghost prev = out@;
        if m.from() == Some(from) {
            let to = m.to();
            // Find where `to` belongs.
            let mut p: usize = 0;
            while p < out.len() && out[p] < to
                invariant
                    p <= out@.len(),
                    forall|a: int| 0 <= a < p ==> out@[a] < to,
                decreases out@.len() - p,
            {
                p = p + 1;
            }
            if p < out.len() && out[p] == to {
                assert(out@[p as int] == to);
                assert(prev.contains(to));
                assert(forall|t: Square| out@.contains(t) <==> (prev.contains(t) || t == to));
            } else {
                proof {
                    lemma_insert_sorted(out@, p as int, to);
                }
                out.insert(p, to);
            }
            assert(m.spec_to() == to);
        } else {
            assert(out@ == prev);
        }
        assert(forall|t: Square|
            out@.contains(t) <==> (prev.contains(t) || (m.spec_from() == Some(from)
                && m.spec_to() == t)));
        assert forall|t: Square|
            out@.contains(t) <==> exists|k: int|
                0 <= k < i + 1 && legal@[k].spec_from() == Some(from) && #[trigger] legal@[k].spec_to()
                    == t by {
            if exists|k: int|
                0 <= k < i + 1 && legal@[k].spec_from() == Some(from) && #[trigger] legal@[k].spec_to()
                    == t {
                let k = choose|k: int|
                    0 <= k < i + 1 && legal@[k].spec_from() == Some(from) && #[trigger] legal@[k].spec_to()
                        == t;
                if k < i {
                    assert(prev.contains(t));
                } else {
                    assert(legal@[k] == m);
                }
            }
            if out@.contains(t) {
                if prev.contains(t) {
                    let k = choose|k: int|
                        0 <= k < i && legal@[k].spec_from() == Some(from) && #[trigger] legal@[k].spec_to()
                            == t;
                    assert(0 <= k < i + 1);
                } else {
                    assert(legal@[i as int] == m);
                    assert(legal@[i as int].spec_to() == t);
                }
            }
        }
        i = i + 1;
    }
    out
}

// ---------------------------------------------------------------------------
// The board on screen.

/// One square as drawn: its glyph and colors.
#[derive(Clone, Copy, PartialEq, Eq, Structural, Debug)]
pub struct Cell {
    pub glyph: char,
    pub fg: Rgb,
    pub bg: Rgb,
}

/// The square drawn at screen position `idx` (row by row from the top left),
/// the board turned for Black when `flip`.
pub open spec fn display_square(idx: int, flip: bool) -> int {
    let vrow = idx / 8;
    let vcol = idx % 8;
    let rank = if flip {
        vrow
    } else {
        7 - vrow
    };
    let file = if flip {
        7 - vcol
    } else {
        vcol
    };
    square_at(file, rank)
}

/// How square `sq` of `pos` is drawn over background `bg`.
pub open spec fn cell_spec(pos: Position, sq: int, bg: Rgb) -> Cell {
    match pos.piece_at(sq) {
        Some(p) => Cell {
            glyph: glyph_spec(p.role),
            fg: if p.color == Color::White {
                palette(Shade::WhitePiece)
            } else {
                palette(Shade::BlackPiece)
            },
            bg,
        },
        None => Cell { glyph: ' ', fg: palette(Shade::WhitePiece), bg },
    }
}

/// The 64 cells of the board as drawn, row by row from the top left, for the
/// human's perspective, with the cursor, selection, targets and last move
/// highlighted.
pub fn board_cells(
    view: &BoardView,
    cursor: Option<Square>,
    selected: Option<Square>,
    targets: &[Square],
) -> (r: Vec<Cell>)
    ensures
        r@.len() == 64,
        forall|i: int|
            0 <= i < 64 ==> #[trigger] r@[i] == ({
                let sq = display_square(i, view.perspective == Color::Black);
                cell_spec(
                    view.pos,
                    sq,
                    spec_square_bg(sq as Square, view.last_move, cursor, selected, targets@),
                )
            }),
{
    let flip = view.perspective == Color::Black;
    let mut cells: Vec<Cell> = Vec::new();
    let mut idx: u8 = 0;
    while idx < 64
        invariant
            idx <= 64,
            flip == (view.perspective == Color::Black),
            cells@.len() == idx,
            forall|i: int|
                0 <= i < idx ==> #[trigger] cells@[i] == ({
                    let sq = display_square(i, flip);
                    cell_spec(
                        view.pos,
                        sq,
                        spec_square_bg(sq as Square, view.last_move, cursor, selected, targets@),
                    )
                }),
        decreases 64 - idx,
    {
        let vrow = idx / 8;
        let vcol = idx % 8;
        let rank = if flip {
            vrow
        } else {
            7 - vrow
        };
        let file = if flip {
            7 - vcol
        } else {
            vcol
        };
        let sq = file + 8 * rank;
        assert(sq == display_square(idx as int, flip));
        let bg = square_bg(sq, view, cursor, selected, targets);
        let cell = match view.pos.piece_on(sq) {
            Some(piece) => Cell {
                glyph: piece_glyph(piece.role),
                fg: if piece.color == Color::White {
                    shade(Shade::WhitePiece)
                } else {
                    shade(Shade::BlackPiece)
                },
                bg,
            },
            None => Cell { glyph: ' ', fg: shade(Shade::WhitePiece), bg },
        };
        cells.push(cell);
        idx = idx + 1;
    }
    cells
}

/// The label left of screen row `vrow`: the rank's number between spaces.
pub open spec fn rank_label_text(vrow: int, flip: bool) -> Seq<char> {
    let rank = if flip {
        vrow
    } else {
        7 - vrow
    };
    seq![' '] + decimal((rank + 1) as nat) + seq![' ']
}

pub fn rank_label(vrow: u32, flip: bool) -> (r: String)
    requires
        vrow < 8,
    ensures
        r@ == rank_label_text(vrow as int, flip),
{
    let rank = if flip {
        vrow
    } else {
        7 - vrow
    };
    let mut s = String::new();
    push_char(&mut s, ' ');
    push_decimal(&mut s, (rank + 1) as u64);
    push_char(&mut s, ' ');
    assert(s@ =~= rank_label_text(vrow as int, flip));
    s
}

/// `File::char`: the letter of file `f`.
pub open spec fn file_char(f: int) -> char {
    ('a' as int + f) as char
}

/// The file letters under the first `n` screen columns, each between spaces.
pub open spec fn file_labels_text(flip: bool, n: nat) -> Seq<char>
    decreases n,
{
    if n == 0 {
        "   "@
    } else {
        let vcol = n - 1;
        let file = if flip {
            7 - vcol
        } else {
            vcol
        };
        file_labels_text(flip, (n - 1) as nat) + seq![' ', file_char(file), ' ']
    }
}

/// The file letters along the bottom of the board.
pub fn file_labels(flip: bool) -> (r: String)
    ensures
        r@ == file_labels_text(flip, 8),
{
    let mut s = String::new();
    push_str(&mut s, "   ");
    let mut vcol: u32 = 0;
    while vcol < 8
        invariant
            vcol <= 8,
            s@ == file_labels_text(flip, vcol as nat),
        decreases 8 - vcol,
    {
        let file = if flip {
            7 - vcol
        } else {
            vcol
        };
        let c = ((97 + file) as u8) as char;
        assert(c == file_char(file as int));
        push_char(&mut s, ' ');
        push_char(&mut s, c);
        push_char(&mut s, ' ');
        assert(s@ =~= file_labels_text(flip, (vcol + 1) as nat));
        vcol = vcol + 1;
    }
    s
}

// ---------------------------------------------------------------------------
// Keys and pickers.

/// A key press, as the pickers see it.
#[derive(Clone, Copy, PartialEq, Eq, Structural, Debug)]
pub enum Key {
    Left,
    Right,
    Up,
    Down,
    Enter,
    Backspace,
    Esc,
    Char(char),
    /// Any other key.
    Other,
}

/// The state of the side menu after a key.
#[derive(Clone, Copy, PartialEq, Eq, Structural, Debug)]
pub enum SideChoice {
    /// Still choosing; the highlighted option (0 = White, 1 = Black).
    Pending(usize),
    Chosen(Color),
    Quit,
}

pub open spec fn side_menu_spec(choice: usize, key: Key) -> SideChoice {
    match key {
        Key::Left | Key::Up => SideChoice::Pending(0),
        Key::Right | Key::Down => SideChoice::Pending(1),
        Key::Char('w') => SideChoice::Chosen(Color::White),
        Key::Char('b') => SideChoice::Chosen(Color::Black),
        Key::Enter => SideChoice::Chosen(
            if choice == 0 {
                Color::White
            } else {
                Color::Black
            },
        ),
        Key::Char('q') | Key::Esc => SideChoice::Quit,
        _ => SideChoice::Pending(choice),
    }
}

/// The side menu's answer to a key, with option `choice` highlighted.
pub fn side_menu_key(choice: usize, key: Key) -> (r: SideChoice)
    ensures
        r == side_menu_spec(choice, key),
{
    match key {
        Key::Left | Key::Up => SideChoice::Pending(0),
        Key::Right | Key::Down => SideChoice::Pending(1),
        Key::Char('w') => SideChoice::Chosen(Color::White),
        Key::Char('b') => SideChoice::Chosen(Color::Black),
        Key::Enter => SideChoice::Chosen(
            if choice == 0 {
                Color::White
            } else {
                Color::Black
            },
        ),
        Key::Char('q') | Key::Esc => SideChoice::Quit,
        _ => SideChoice::Pending(choice),
    }
}

/// Whether `ts` lists the targets of `from` among `legal`, in increasing
/// order, each once.
pub open spec fn target_list(ts: Seq<Square>, legal: Seq<ChessMove>, from: Square) -> bool {
    &&& forall|i: int, j: int| 0 <= i < j < ts.len() ==> ts[i] < ts[j]
    &&& forall|to: Square| ts.contains(to) <==> is_target(legal, from, to)
}

/// Whether every move of `ms` is on the board.
pub open spec fn all_on_board(ms: Seq<ChessMove>) -> bool {
    forall|i: int| 0 <= i < ms.len() ==> crate::rules::on_board(#[trigger] ms[i])
}

/// The keyboard move picker: a cursor square, and the selected piece's
/// square with its legal targets.
pub struct MovePicker {
    pub legal: Vec<ChessMove>,
    pub perspective: Color,
    pub cursor: Square,
    pub selected: Option<Square>,
    pub targets: Vec<Square>,
}

/// What a key did to the move picker.
#[derive(Clone, Copy, PartialEq, Eq, Structural, Debug)]
pub enum PickerEvent {
    Continue,
    Quit,
    /// The human chose the move from `from` to `to`.
    Chosen { from: Square, to: Square },
}

/// The square the cursor starts on: the first legal move's origin, else e2.
pub open spec fn start_cursor(legal: Seq<ChessMove>) -> Square {
    if legal.len() > 0 && legal[0].spec_from() is Some {
        legal[0].spec_from()->0
    } else {
        12
    }
}

impl MovePicker {
    /// The picker's moves are on the board, and so is its cursor.
    pub open spec fn wf(&self) -> bool {
        &&& all_on_board(self.legal@)
        &&& self.cursor < 64
    }

    /// A picker over the legal moves `legal`, nothing selected.
    pub fn new(legal: Vec<ChessMove>, perspective: Color) -> (r: MovePicker)
        requires
            all_on_board(legal@),
        ensures
            r.wf(),
            r.legal@ == legal@,
            r.perspective == perspective,
            r.cursor == start_cursor(legal@),
            r.selected is None,
            r.targets@.len() == 0,
    {
        let cursor = if legal.len() > 0 {
            match legal[0].from() {
                Some(f) => f,
                None => 12,
            }
        } else {
            12
        };
        proof {
            if legal@.len() > 0 {
                assert(crate::rules::on_board(legal@[0]));
            }
        }
        MovePicker { legal, perspective, cursor, selected: None, targets: Vec::new() }
    }

    /// The picker's answer to a key: arrows move the cursor (in screen
    /// space), Backspace drops the selection, `q` or Esc quits, and Enter
    /// either chooses the move to a highlighted target or selects the piece
    /// under the cursor if it has legal targets.
    pub fn on_key(&mut self, key: Key) -> (r: PickerEvent)
        requires
            old(self).wf(),
        ensures
            final(self).wf(),
            final(self).legal@ == old(self).legal@,
            final(self).perspective == old(self).perspective,
            match key {
                Key::Left => r == PickerEvent::Continue && final(self).cursor == spec_step(
                    old(self).cursor,
                    old(self).perspective,
                    -1,
                    0,
                ) && final(self).selected == old(self).selected && final(self).targets@ == old(
                    self,
                ).targets@,
                Key::Right => r == PickerEvent::Continue && final(self).cursor == spec_step(
                    old(self).cursor,
                    old(self).perspective,
                    1,
                    0,
                ) && final(self).selected == old(self).selected && final(self).targets@ == old(
                    self,
                ).targets@,
                Key::Up => r == PickerEvent::Continue && final(self).cursor == spec_step(
                    old(self).cursor,
                    old(self).perspective,
                    0,
                    1,
                ) && final(self).selected == old(self).selected && final(self).targets@ == old(
                    self,
                ).targets@,
                Key::Down => r == PickerEvent::Continue && final(self).cursor == spec_step(
                    old(self).cursor,
                    old(self).perspective,
                    0,
                    -1,
                ) && final(self).selected == old(self).selected && final(self).targets@ == old(
                    self,
                ).targets@,
                Key::Backspace => r == PickerEvent::Continue && final(self).cursor == old(
                    self,
                ).cursor && final(self).selected is None && final(self).targets@.len() == 0,
                Key::Char('q') | Key::Esc => r == PickerEvent::Quit && final(self).cursor == old(
                    self,
                ).cursor && final(self).selected == old(self).selected && final(self).targets@
                    == old(self).targets@,
                Key::Enter => final(self).cursor == old(self).cursor && if old(
                    self,
                ).selected is Some && old(self).targets@.contains(old(self).cursor) {
                    r == (PickerEvent::Chosen {
                        from: old(self).selected->0,
                        to: old(self).cursor,
                    }) && final(self).selected == old(self).selected && final(self).targets@
                        == old(self).targets@
                } else {
                    r == PickerEvent::Continue && if exists|to: Square|
                        is_target(old(self).legal@, old(self).cursor, to) {
                        final(self).selected == Some(old(self).cursor) && target_list(
                            final(self).targets@,
                            old(self).legal@,
                            old(self).cursor,
                        )
                    } else {
                        final(self).selected == old(self).selected && final(self).targets@
                            == old(self).targets@
                    }
                },
                _ => r == PickerEvent::Continue && final(self).cursor == old(self).cursor
                    && final(self).selected == old(self).selected && final(self).targets@ == old(
                    self,
                ).targets@,
            },
    {
        match key {
            Key::Left => {
                self.cursor = step(self.cursor, self.perspective, -1, 0);
                PickerEvent::Continue
            },
            Key::Right => {
                self.cursor = step(self.cursor, self.perspective, 1, 0);
                PickerEvent::Continue
            },
            Key::Up => {
                self.cursor = step(self.cursor, self.perspective, 0, 1);
                PickerEvent::Continue
            },
            Key::Down => {
                self.cursor = step(self.cursor, self.perspective, 0, -1);
                PickerEvent::Continue
            },
            Key::Backspace => {
                self.selected = None;
                self.targets = Vec::new();
                PickerEvent::Continue
            },
            Key::Char('q') | Key::Esc => PickerEvent::Quit,
            Key::Enter => {
                if let Some(from) = self.selected {
                    if contains_square(self.targets.as_slice(), self.cursor) {
                        return PickerEvent::Chosen { from, to: self.cursor };
                    }
                }
                let ts = targets_from(self.legal.as_slice(), self.cursor);
                if ts.len() > 0 {
                    assert(ts@.contains(ts@[0]));
                    self.selected = Some(self.cursor);
                    self.targets = ts;
                } else {
                    assert forall|to: Square| !is_target(old(self).legal@, old(self).cursor, to) by {
                        if is_target(old(self).legal@, old(self).cursor, to) {
                            assert(ts@.contains(to));
                        }
                    }
                }
                PickerEvent::Continue
            },
            _ => PickerEvent::Continue,
        }
    }
}

/// The moves of `legal` from `from` to `to`, in order.
pub open spec fn matching_moves(legal: Seq<ChessMove>, from: Square, to: Square) -> Seq<ChessMove>
    decreases legal.len(),
{
    if legal.len() == 0 {
        Seq::empty()
    } else {
        let rest = matching_moves(legal.drop_last(), from, to);
        let m = legal.last();
        if m.spec_from() == Some(from) && m.spec_to() == to {
            rest.push(m)
        } else {
            rest
        }
    }
}

/// The legal moves from `from` to `to`: one, or one per promotion piece.
pub fn candidates(legal: &[ChessMove], from: Square, to: Square) -> (r: Vec<ChessMove>)
    ensures
        r@ == matching_moves(legal@, from, to),
{
    let mut out: Vec<ChessMove> = Vec::new();
    let mut i: usize = 0;
    while i < legal.len()
        invariant
            i <= legal@.len(),
            out@ == matching_moves(legal@.take(i as int), from, to),
        decreases legal@.len() - i,
    {
        assert(legal@.take(i as int + 1).drop_last() =~= legal@.take(i as int));
        assert(legal@.take(i as int + 1).last() == legal@[i as int]);
        let m = legal[i];
        if m.from() == Some(from) && m.to() == to {
            out.push(m);
        }
        i = i + 1;
    }
    assert(legal@.take(legal@.len() as int) =~= legal@);
    out
}

/// The promotion pieces in the order they are offered.
pub open spec fn promotion_order() -> Seq<PieceRole> {
    seq![PieceRole::Queen, PieceRole::Rook, PieceRole::Bishop, PieceRole::Knight]
}

/// The first move of `c` promoting to `role`, if any.
pub open spec fn first_promoting(c: Seq<ChessMove>, role: PieceRole) -> Option<ChessMove>
    decreases c.len(),
{
    if c.len() == 0 {
        None
    } else if c[0].spec_promotion() == Some(role) {
        Some(c[0])
    } else {
        first_promoting(c.drop_first(), role)
    }
}

/// The choices offered for a promotion: for each piece in the order queen,
/// rook, bishop, knight, the first candidate promoting to it.
pub open spec fn promotion_choices_spec(c: Seq<ChessMove>, n: nat) -> Seq<ChessMove>
    decreases n,
{
    if n == 0 {
        Seq::empty()
    } else {
        let rest = promotion_choices_spec(c, (n - 1) as nat);
        match first_promoting(c, promotion_order()[n - 1]) {
            Some(m) => rest.push(m),
            None => rest,
        }
    }
}

fn find_promoting(c: &[ChessMove], role: PieceRole) -> (r: Option<ChessMove>)
    ensures
        r == first_promoting(c@, role),
{
    let mut i: usize = 0;
    assert(c@.skip(0) =~= c@);
    while i < c.len()
        invariant
            i <= c@.len(),
            first_promoting(c@, role) == first_promoting(c@.skip(i as int), role),
        decreases c@.len() - i,
    {
        assert(c@.skip(i as int)[0] == c@[i as int]);
        assert(c@.skip(i as int).drop_first() =~= c@.skip(i as int + 1));
        if c[i].promotion() == Some(role) {
            return Some(c[i]);
        }
        i = i + 1;
    }
    assert(c@.skip(i as int) =~= Seq::<ChessMove>::empty());
    None
}

fn order_role(k: usize) -> (r: PieceRole)
    requires
        k < 4,
    ensures
        r == promotion_order()[k as int],
{
    if k == 0 {
        PieceRole::Queen
    } else if k == 1 {
        PieceRole::Rook
    } else if k == 2 {
        PieceRole::Bishop
    } else {
        PieceRole::Knight
    }
}

/// The promotion choices among the candidates of one move.
pub fn promotion_choices(candidates: &[ChessMove]) -> (r: Vec<ChessMove>)
    ensures
        r@ == promotion_choices_spec(candidates@, 4),
{
    let mut out: Vec<ChessMove> = Vec::new();
    let mut k: usize = 0;
    while k < 4
        invariant
            k <= 4,
            out@ == promotion_choices_spec(candidates@, k as nat),
        decreases 4 - k,
    {
        if let Some(m) = find_promoting(candidates, order_role(k)) {
            out.push(m);
        }
        k = k + 1;
    }
    out
}

/// The index of the first choice promoting to `role`, if any.
pub open spec fn choice_index(c: Seq<ChessMove>, role: PieceRole) -> Option<int> {
    if exists|i: int| 0 <= i < c.len() && #[trigger] c[i].spec_promotion() == Some(role) {
        Some(
            choose|i: int|
                0 <= i < c.len() && #[trigger] c[i].spec_promotion() == Some(role) && forall|j: int|
                    0 <= j < i ==> c[j].spec_promotion() != Some(role),
        )
    } else {
        None
    }
}

/// The promotion picker: the choices and the highlighted one.
pub struct PromotionPicker {
    pub choices: Vec<ChessMove>,
    pub idx: usize,
}

impl PromotionPicker {
    pub open spec fn wf(&self) -> bool {
        self.idx < self.choices@.len()
    }

    /// A picker over non-empty `choices`, the first highlighted.
    pub fn new(choices: Vec<ChessMove>) -> (r: PromotionPicker)
        requires
            choices@.len() > 0,
        ensures
            r.wf(),
            r.choices@ == choices@,
            r.idx == 0,
    {
        PromotionPicker { choices, idx: 0 }
    }

    /// The picker's answer to a key: arrows cycle through the choices, Enter
    /// takes the highlighted one, and a piece letter takes the first choice
    /// promoting to that piece.
    pub fn on_key(&mut self, key: Key) -> (r: Option<ChessMove>)
        requires
            old(self).wf(),
        ensures
            final(self).wf(),
            final(self).choices@ == old(self).choices@,
            match key {
                Key::Left | Key::Up => r is None && final(self).idx == if old(self).idx == 0 {
                    old(self).choices@.len() - 1
                } else {
                    old(self).idx - 1
                },
                Key::Right | Key::Down => r is None && final(self).idx == if old(self).idx + 1
                    == old(self).choices@.len() {
                    0
                } else {
                    old(self).idx + 1
                },
                Key::Enter => r == Some(old(self).choices@[old(self).idx as int]) && final(self).idx
                    == old(self).idx,
                Key::Char(c) => final(self).idx == old(self).idx && r == match role_from_char_spec(
                    c,
                ) {
                    Some(role) => match choice_index(old(self).choices@, role) {
                        Some(i) => Some(old(self).choices@[i]),
                        None => None,
                    },
                    None => None,
                },
                _ => r is None && final(self).idx == old(self).idx,
            },
    {
        let n = self.choices.len();
        match key {
            Key::Left | Key::Up => {
                self.idx = if self.idx == 0 {
                    n - 1
                } else {
                    self.idx - 1
                };
                None
            },
            Key::Right | Key::Down => {
                self.idx = if self.idx + 1 == n {
                    0
                } else {
                    self.idx + 1
                };
                None
            },
            Key::Enter => Some(self.choices[self.idx]),
            Key::Char(c) => {
                match role_from_char(c) {
                    Some(role) => {
                        let mut i: usize = 0;
                        while i < n
                            invariant
                                n == self.choices@.len(),
                                i <= n,
                                self.idx == old(self).idx,
                                self.choices@ == old(self).choices@,
                                self.idx < n,
                                role_from_char_spec(c) == Some(role),
                                key == Key::Char(c),
                                forall|j: int|
                                    0 <= j < i ==> self.choices@[j].spec_promotion() != Some(role),
                            decreases n - i,
                        {
                            if self.choices[i].promotion() == Some(role) {
                                assert(choice_index(self.choices@, role) == Some(i as int)) by {
                                    let w = choose|k: int|
                                        0 <= k < self.choices@.len()
                                            && #[trigger] self.choices@[k].spec_promotion() == Some(
                                            role,
                                        ) && forall|j: int|
                                            0 <= j < k ==> self.choices@[j].spec_promotion()
                                                != Some(role);
                                    assert(self.choices@[i as int].spec_promotion() == Some(role));
                                    if w < i {
                                    } else if w > i {
                                    }
                                }
                                let chosen = self.choices[i];
                                assert(role_from_char_spec(c) == Some(role));
                                assert(chosen == old(self).choices@[i as int]);
                                return Some(chosen);
                            }
                            i = i + 1;
                        }
                        assert(choice_index(self.choices@, role) is None);
                        None
                    },
                    None => None,
                }
            },
            _ => None,
        }
    }
}

/// The label of a promotion choice: its piece letter between spaces (a
/// queen when the move promotes to nothing).
pub open spec fn promotion_label_text(m: ChessMove) -> Seq<char> {
    let role = match m.spec_promotion() {
        Some(r) => r,
        None => PieceRole::Queen,
    };
    seq![' ', upper_char_spec(role), ' ']
}

pub fn promotion_label(m: ChessMove) -> (r: String)
    ensures
        r@ == promotion_label_text(m),
{
    let role = match m.promotion() {
        Some(r) => r,
        None => PieceRole::Queen,
    };
    let mut s = String::new();
    push_char(&mut s, ' ');
    push_char(&mut s, upper_char(role));
    push_char(&mut s, ' ');
    assert(s@ =~= promotion_label_text(m));
    s
}

/// The file name a PGN is saved under: the name typed, trimmed, or
/// `game.pgn` when that leaves nothing.
pub open spec fn save_path_text(name: Seq<char>) -> Seq<char> {
    let t = crate::uci::trim_spec(name);
    if t.len() == 0 {
        "game.pgn"@
    } else {
        t
    }
}

pub fn save_path(name: &str) -> (r: String)
    ensures
        r@ == save_path_text(name@),
{
    let t = crate::uci::trim(name);
    if t.unicode_len() == 0 {
        crate::text::string_of("game.pgn")
    } else {
        crate::text::string_of(t)
    }
}

} // verus!
