//! A plain-text board: one line per rank, White's pieces in white and
//! Black's in red, empty squares as dots.

use vstd::prelude::*;
use owo_colors::OwoColorize;
use crate::chess::{Color, PieceRole, Position};
use crate::text::{push_char, push_str};
use crate::tui::{upper_char, upper_char_spec};

verus! {

/// Draws boards as colored text on a terminal.
pub struct TerminalRenderer;

/// `OwoColorize::white` then `to_string`: the text between the escape codes
/// for a white foreground and for the default foreground.
#[verifier::external_body]
fn paint_white(s: &str) -> (r: String)
    ensures
        r@ == "\x1b[37m"@ + s@ + "\x1b[39m"@,
{
    s.white().to_string()
}

/// `OwoColorize::red` then `to_string`: the text between the escape codes
/// for a red foreground and for the default foreground.
#[verifier::external_body]
fn paint_red(s: &str) -> (r: String)
    ensures
        r@ == "\x1b[31m"@ + s@ + "\x1b[39m"@,
{
    s.red().to_string()
}

/// A piece as drawn: its letter, white for White and red for Black.
pub open spec fn piece_text(color: Color, role: PieceRole) -> Seq<char> {
    (if color == Color::White {
        "\x1b[37m"@
    } else {
        "\x1b[31m"@
    }) + seq![upper_char_spec(role)] + "\x1b[39m"@
}

pub fn render_piece(color: Color, role: PieceRole) -> (r: String)
    ensures
        r@ == piece_text(color, role),
{
    let mut letter = String::new();
    push_char(&mut letter, upper_char(role));
    match color {
        Color::White => paint_white(letter.as_str()),
        Color::Black => paint_red(letter.as_str()),
    }
}

/// The first `n` squares of rank `rank` as drawn, each followed by a space.
pub open spec fn rank_text(pos: Position, rank: int, n: nat) -> Seq<char>
    decreases n,
{
    if n == 0 {
        Seq::empty()
    } else {
        let sq = (n - 1) + 8 * rank;
        rank_text(pos, rank, (n - 1) as nat) + match pos.piece_at(sq) {
            Some(p) => piece_text(p.color, p.role),
            None => seq!['.'],
        } + seq![' ']
    }
}

impl TerminalRenderer {
    /// The board's lines, from rank 8 down to rank 1.
    pub fn board_lines(&self, pos: &Position) -> (r: Vec<String>)
        ensures
            r@.len() == 8,
            forall|k: int| 0 <= k < 8 ==> #[trigger] r@[k]@ == rank_text(*pos, 7 - k, 8),
    {
        let mut lines: Vec<String> = Vec::new();
        let mut k: u8 = 0;
        while k < 8
            invariant
                k <= 8,
                lines@.len() == k,
                forall|j: int| 0 <= j < k ==> #[trigger] lines@[j]@ == rank_text(*pos, 7 - j, 8),
            decreases 8 - k,
        {
            let rank = 7 - k;
            let mut line = String::new();
            let mut file: u8 = 0;
            while file < 8
                invariant
                    file <= 8,
                    rank < 8,
                    line@ == rank_text(*pos, rank as int, file as nat),
                decreases 8 - file,
            {
                let sq = file + 8 * rank;
                match pos.piece_on(sq) {
                    Some(piece) => {
                        let p = render_piece(piece.color, piece.role);
                        push_str(&mut line, p.as_str());
                    },
                    None => push_char(&mut line, '.'),
                }
                push_char(&mut line, ' ');
                assert(line@ =~= rank_text(*pos, rank as int, (file + 1) as nat));
                file = file + 1;
            }
            lines.push(line);
            k = k + 1;
        }
        lines
    }
}

} // verus!
