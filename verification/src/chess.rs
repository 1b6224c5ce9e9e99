//! Plain-value model of chess positions and moves.
//!
//! A [`Position`] holds exactly what a chess position consists of, as plain
//! integers: one occupancy bitboard per role and per color (bit `sq` set means
//! square `sq`, with a1 = 0 and h8 = 63), the side to move, the castling rights
//! (as the bitboard of the rooks that may still castle), the en passant square
//! and the move counters. Every `Position` is one that the rules accept
//! (see [`crate::rules::chess_valid`]); that is its type invariant.

use vstd::prelude::*;

verus! {

/// A square index, `file + 8 * rank` (a1 = 0, h8 = 63).
pub type Square = u8;

#[derive(Clone, Copy, PartialEq, Eq, Structural, Debug)]
pub enum Color {
    White,
    Black,
}

impl Color {
    pub open spec fn spec_other(self) -> Color {
        match self {
            Color::White => Color::Black,
            Color::Black => Color::White,
        }
    }

    #[verifier::when_used_as_spec(spec_other)]
    pub fn other(self) -> (r: Color)
        ensures
            r == self.spec_other(),
    {
        match self {
            Color::White => Color::Black,
            Color::Black => Color::White,
        }
    }
}

#[derive(Clone, Copy, PartialEq, Eq, Structural, Debug)]
pub enum PieceRole {
    Pawn,
    Knight,
    Bishop,
    Rook,
    Queen,
    King,
}

#[derive(Clone, Copy, PartialEq, Eq, Structural, Debug)]
pub struct Piece {
    pub color: Color,
    pub role: PieceRole,
}

/// A move, with the same four shapes as the rules crate uses.
#[derive(Clone, Copy, PartialEq, Eq, Structural, Debug)]
pub enum ChessMove {
    /// A normal move, e.g. `Bd3xh7`.
    Normal { role: PieceRole, from: Square, capture: Option<PieceRole>, to: Square, promotion: Option<PieceRole> },
    /// An en passant capture, e.g. `e5xd6`.
    EnPassant { from: Square, to: Square },
    /// Castling, given by the king's and the rook's squares.
    Castle { king: Square, rook: Square },
    /// A piece drop (never legal in standard chess).
    Put { role: PieceRole, to: Square },
}

/// How a finished game ended.
#[derive(Clone, Copy, PartialEq, Eq, Structural, Debug)]
pub enum KnownOutcome {
    Decisive { winner: Color },
    Draw,
}

impl ChessMove {
    pub open spec fn spec_role(self) -> PieceRole {
        match self {
            ChessMove::Normal { role, .. } => role,
            ChessMove::Put { role, .. } => role,
            ChessMove::EnPassant { .. } => PieceRole::Pawn,
            ChessMove::Castle { .. } => PieceRole::King,
        }
    }

    /// The role of the moved piece.
    #[verifier::when_used_as_spec(spec_role)]
    pub fn role(self) -> (r: PieceRole)
        ensures
            r == self.spec_role(),
    {
        match self {
            ChessMove::Normal { role, .. } => role,
            ChessMove::Put { role, .. } => role,
            ChessMove::EnPassant { .. } => PieceRole::Pawn,
            ChessMove::Castle { .. } => PieceRole::King,
        }
    }

    pub open spec fn spec_from(self) -> Option<Square> {
        match self {
            ChessMove::Normal { from, .. } => Some(from),
            ChessMove::EnPassant { from, .. } => Some(from),
            ChessMove::Castle { king, .. } => Some(king),
            ChessMove::Put { .. } => None,
        }
    }

    /// The origin square, `None` for drops.
    #[verifier::when_used_as_spec(spec_from)]
    pub fn from(self) -> (r: Option<Square>)
        ensures
            r == self.spec_from(),
    {
        match self {
            ChessMove::Normal { from, .. } => Some(from),
            ChessMove::EnPassant { from, .. } => Some(from),
            ChessMove::Castle { king, .. } => Some(king),
            ChessMove::Put { .. } => None,
        }
    }

    pub open spec fn spec_to(self) -> Square {
        match self {
            ChessMove::Normal { to, .. } => to,
            ChessMove::EnPassant { to, .. } => to,
            ChessMove::Put { to, .. } => to,
            ChessMove::Castle { rook, .. } => rook,
        }
    }

    /// The target square; for castling, the rook's square.
    #[verifier::when_used_as_spec(spec_to)]
    pub fn to(self) -> (r: Square)
        ensures
            r == self.spec_to(),
    {
        match self {
            ChessMove::Normal { to, .. } => to,
            ChessMove::EnPassant { to, .. } => to,
            ChessMove::Put { to, .. } => to,
            ChessMove::Castle { rook, .. } => rook,
        }
    }

    pub open spec fn spec_capture(self) -> Option<PieceRole> {
        match self {
            ChessMove::Normal { capture, .. } => capture,
            ChessMove::EnPassant { .. } => Some(PieceRole::Pawn),
            _ => None,
        }
    }

    /// The role of the captured piece, if any.
    #[verifier::when_used_as_spec(spec_capture)]
    pub fn capture(self) -> (r: Option<PieceRole>)
        ensures
            r == self.spec_capture(),
    {
        match self {
            ChessMove::Normal { capture, .. } => capture,
            ChessMove::EnPassant { .. } => Some(PieceRole::Pawn),
            _ => None,
        }
    }

    pub open spec fn spec_promotion(self) -> Option<PieceRole> {
        match self {
            ChessMove::Normal { promotion, .. } => promotion,
            _ => None,
        }
    }

    /// The role promoted to, if any.
    #[verifier::when_used_as_spec(spec_promotion)]
    pub fn promotion(self) -> (r: Option<PieceRole>)
        ensures
            r == self.spec_promotion(),
    {
        match self {
            ChessMove::Normal { promotion, .. } => promotion,
            _ => None,
        }
    }

    pub open spec fn spec_is_conversion(self) -> bool {
        match self {
            ChessMove::Normal { capture, promotion, .. } => capture is Some || promotion is Some,
            ChessMove::EnPassant { .. } => true,
            ChessMove::Put { .. } => true,
            ChessMove::Castle { .. } => false,
        }
    }

    /// Whether the move changes the material on the board (capture,
    /// promotion or drop).
    #[verifier::when_used_as_spec(spec_is_conversion)]
    pub fn is_conversion(self) -> (r: bool)
        ensures
            r == self.spec_is_conversion(),
    {
        match self {
            ChessMove::Normal { capture, promotion, .. } => capture.is_some() || promotion.is_some(),
            ChessMove::EnPassant { .. } => true,
            ChessMove::Put { .. } => true,
            ChessMove::Castle { .. } => false,
        }
    }
}

/// A chess position as plain values.
#[derive(Clone, Copy, PartialEq, Eq, Structural, Debug)]
pub struct Position {
    pub(crate) pawns: u64,
    pub(crate) knights: u64,
    pub(crate) bishops: u64,
    pub(crate) rooks: u64,
    pub(crate) queens: u64,
    pub(crate) kings: u64,
    pub(crate) white: u64,
    pub(crate) black: u64,
    pub(crate) turn: Color,
    pub(crate) castling_rights: u64,
    pub(crate) ep_square: Option<Square>,
    pub(crate) halfmoves: u32,
    pub(crate) fullmoves: u32,
}

/// Whether bit `sq` of `bb` is set.
pub open spec fn bit(bb: u64, sq: int) -> bool {
    (bb >> (sq as u64)) & 1u64 == 1u64
}

impl Position {
    /// The position's side to move.
    pub closed spec fn spec_turn(&self) -> Color {
        self.turn
    }

    /// The en passant square recorded in the position.
    pub closed spec fn spec_ep_square(&self) -> Option<Square> {
        self.ep_square
    }

    /// The piece standing on square `sq` (meaningful for `0 <= sq < 64`).
    pub closed spec fn piece_at(self, sq: int) -> Option<Piece> {
        let color = if bit(self.white, sq) {
            Some(Color::White)
        } else if bit(self.black, sq) {
            Some(Color::Black)
        } else {
            None
        };
        match color {
            None => None,
            Some(c) => {
                let role = if bit(self.pawns, sq) {
                    PieceRole::Pawn
                } else if bit(self.knights, sq) {
                    PieceRole::Knight
                } else if bit(self.bishops, sq) {
                    PieceRole::Bishop
                } else if bit(self.rooks, sq) {
                    PieceRole::Rook
                } else if bit(self.queens, sq) {
                    PieceRole::Queen
                } else {
                    PieceRole::King
                };
                Some(Piece { color: c, role })
            },
        }
    }

    /// The board, square by square.
    pub closed spec fn board(self) -> Seq<Option<Piece>> {
        Seq::new(64, |sq: int| self.piece_at(sq))
    }

    /// The board has 64 squares, square `sq` holding `piece_at(sq)`.
    pub proof fn lemma_board(self)
        ensures
            self.board().len() == 64,
            forall|sq: int| 0 <= sq < 64 ==> #[trigger] self.board()[sq] == self.piece_at(sq),
    {
    }

    /// The initial position of a game: White to move, all castling rights,
    /// counters at 0 and 1.
    pub closed spec fn initial() -> Position {
    Position {
        pawns: 0x00ff_0000_0000_ff00,
        knights: 0x4200_0000_0000_0042,
        bishops: 0x2400_0000_0000_0024,
        rooks: 0x8100_0000_0000_0081,
        queens: 0x0800_0000_0000_0008,
        kings: 0x1000_0000_0000_0010,
        white: 0xffff,
        black: 0xffff_0000_0000_0000,
        turn: Color::White,
        castling_rights: 0x8100_0000_0000_0081,
        ep_square: None,
        halfmoves: 0,
        fullmoves: 1,
    }
    }

    /// What every position the rules hand out satisfies: counters and the en
    /// passant square in range, a position the rules accept, and (as the
    /// rules' validation refuses a missing or extra king) one king per side.
    #[verifier::type_invariant]
    pub closed spec fn inv(self) -> bool {
        &&& self.fullmoves >= 1
        &&& (self.ep_square matches Some(s) ==> s < 64)
        &&& crate::rules::chess_valid(self)
        &&& crate::eval::one_king_each(self)
    }

    /// The position is one the rules hand out: its type invariant, which
    /// every position value has (`use_type_invariant`).
    pub open spec fn well_formed(self) -> bool {
        self.inv()
    }

    /// Such a position has one king per side.
    pub proof fn lemma_well_formed_kings(self)
        requires
            self.well_formed(),
        ensures
            crate::eval::one_king_each(self),
    {
    }

    /// The side to move.
    #[verifier::when_used_as_spec(spec_turn)]
    pub fn turn(&self) -> (r: Color)
        ensures
            r == self.spec_turn(),
    {
        self.turn
    }

    /// The piece on square `sq`, if any.
    pub fn piece_on(&self, sq: u8) -> (r: Option<Piece>)
        requires
            sq < 64,
        ensures
            r == self.piece_at(sq as int),
    {
        let s = sq as u64;
        let color = if (self.white >> s) & 1u64 == 1u64 {
            Color::White
        } else if (self.black >> s) & 1u64 == 1u64 {
            Color::Black
        } else {
            return None;
        };
        let role = if (self.pawns >> s) & 1u64 == 1u64 {
            PieceRole::Pawn
        } else if (self.knights >> s) & 1u64 == 1u64 {
            PieceRole::Knight
        } else if (self.bishops >> s) & 1u64 == 1u64 {
            PieceRole::Bishop
        } else if (self.rooks >> s) & 1u64 == 1u64 {
            PieceRole::Rook
        } else if (self.queens >> s) & 1u64 == 1u64 {
            PieceRole::Queen
        } else {
            PieceRole::King
        };
        Some(Piece { color, role })
    }
}

} // verus!
