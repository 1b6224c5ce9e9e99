//! The chess rules, as provided by the `shakmaty` crate.
//!
//! Everything the engine knows about legal moves, making moves, check, game
//! end, hashing and notation goes through the trusted items of this module.
//! Each converts a plain [`Position`] into a `shakmaty::Chess`, asks it, and
//! converts the answer back. What `shakmaty` computes is given a name (an
//! uninterpreted spec function of the arguments); the short facts that its
//! source shows plainly (the effect of a move on the board, that the game is
//! over when no legal move is left, ...) are stated beside the name.

use vstd::prelude::*;
use crate::chess::{Color, PieceRole, Piece, ChessMove, Position, KnownOutcome, Square};
use shakmaty::Position as _;
use shakmaty::FromSetup as _;
use shakmaty::Square as Sq;
use shakmaty::{Bitboard as B, ByColor, ByRole};

verus! {

#[verifier::external_type_specification]
#[verifier::external_body]
pub struct ExChess(shakmaty::Chess);

#[verifier::external_type_specification]
#[verifier::external_body]
pub struct ExBoard(shakmaty::Board);

#[verifier::external_type_specification]
#[verifier::external_body]
pub struct ExMove(shakmaty::Move);

#[verifier::external_type_specification]
#[verifier::external_body]
pub struct ExRole(shakmaty::Role);

// ---------------------------------------------------------------------------
// Names for what the rules compute.

/// `shakmaty::Chess::from_setup` accepts the position (standard castling).
pub uninterp spec fn chess_valid(p: Position) -> bool;

/// `Position::legal_moves`, in the order the rules generate them.
pub uninterp spec fn chess_legal_moves(p: Position) -> Seq<ChessMove>;

/// The position after `Position::play_unchecked`.
pub uninterp spec fn chess_play(p: Position, m: ChessMove) -> Position;

/// `Position::is_check`.
pub uninterp spec fn chess_is_check(p: Position) -> bool;

/// `Position::is_game_over`.
pub uninterp spec fn chess_is_game_over(p: Position) -> bool;

/// `Position::outcome`, `None` while the game is not over.
pub uninterp spec fn chess_outcome(p: Position) -> Option<KnownOutcome>;

/// `Position::zobrist_hash::<Zobrist64>(EnPassantMode::Legal)`.
pub uninterp spec fn chess_zobrist(p: Position) -> u64;

/// `Position::swap_turn` (a "null move"); `None` when the rules refuse it.
pub uninterp spec fn chess_swap_turn(p: Position) -> Option<Position>;

/// `SanPlus::from_move(p, m)`, written out (`Nf3`, `exd5`, `Qxf7#`, `O-O`, ...).
pub uninterp spec fn chess_san_plus(p: Position, m: ChessMove) -> Seq<char>;

/// A square's name: its file letter, then its rank digit (`e4`).
pub open spec fn square_text(sq: int) -> Seq<char> {
    seq![('a' as int + sq % 8) as char, ('1' as int + sq / 8) as char]
}

/// The lower-case letter of a role (`n` for a knight).
pub open spec fn role_letter(r: PieceRole) -> char {
    match r {
        PieceRole::Pawn => 'p',
        PieceRole::Knight => 'n',
        PieceRole::Bishop => 'b',
        PieceRole::Rook => 'r',
        PieceRole::Queen => 'q',
        PieceRole::King => 'k',
    }
}

/// The upper-case letter of a role (`N` for a knight).
pub open spec fn role_upper_letter(r: PieceRole) -> char {
    match r {
        PieceRole::Pawn => 'P',
        PieceRole::Knight => 'N',
        PieceRole::Bishop => 'B',
        PieceRole::Rook => 'R',
        PieceRole::Queen => 'Q',
        PieceRole::King => 'K',
    }
}

/// `m.to_uci(CastlingMode::Standard).to_string()`: the origin and target
/// squares and the promotion letter (`e2e4`, `e7e8q`); castling as the
/// king's move to the g- or c-file (`e1g1`); a drop as `Q@f7`.
pub open spec fn chess_uci(m: ChessMove) -> Seq<char> {
    match m {
        ChessMove::Normal { from, to, promotion, .. } => square_text(from as int) + square_text(
            to as int,
        ) + match promotion {
            Some(r) => seq![role_letter(r)],
            None => Seq::empty(),
        },
        ChessMove::EnPassant { from, to } => square_text(from as int) + square_text(to as int),
        ChessMove::Castle { king, rook } => square_text(king as int) + square_text(
            (if king < rook {
                6int
            } else {
                2int
            }) + 8 * ((king as int) / 8),
        ),
        ChessMove::Put { role, to } => seq![role_upper_letter(role), '@'] + square_text(to as int),
    }
}

/// A UCI move text (`e2e4`) read as a legal move of `p`: `UciMove` parsing
/// followed by `UciMove::to_move`.
pub uninterp spec fn chess_uci_to_move(p: Position, text: Seq<char>) -> Option<ChessMove>;

/// A FEN text read as a position (`Fen` parsing and `into_position`).
pub uninterp spec fn chess_from_fen(text: Seq<char>) -> Option<Position>;

// ---------------------------------------------------------------------------
// What the rules' source shows of legal moves and of making a move.

/// The square of the pawn taken by an en passant capture from `from` to `to`.
pub open spec fn ep_victim_square(from: Square, to: Square) -> int {
    (to as int) % 8 + 8 * ((from as int) / 8)
}

/// The squares the king and the rook land on when castling.
pub open spec fn castle_targets(king: Square, rook: Square) -> (int, int) {
    let rank_base = 8 * ((king as int) / 8);
    if (rook as int) < (king as int) {
        (rank_base + 2, rank_base + 3)
    } else {
        (rank_base + 6, rank_base + 5)
    }
}

/// The shape every legal move has in `p`: it moves a piece of the side to
/// move from where it stands, and names the piece it captures, never a king
/// (a position where the side not to move is in check is no valid position).
pub open spec fn legal_shape(p: Position, m: ChessMove) -> bool {
    let b = p.board();
    let us = p.spec_turn();
    match m {
        ChessMove::Normal { role, from, capture, to, promotion } => {
            &&& from < 64 && to < 64 && from != to
            &&& b[from as int] == Some(Piece { color: us, role })
            &&& match b[to as int] {
                None => capture is None,
                Some(pc) => pc.color != us && capture == Some(pc.role) && pc.role
                    != PieceRole::King,
            }
            &&& (promotion matches Some(r) ==> role == PieceRole::Pawn && r != PieceRole::Pawn && r
                != PieceRole::King)
        },
        ChessMove::EnPassant { from, to } => {
            &&& from < 64 && to < 64
            &&& b[from as int] == Some(Piece { color: us, role: PieceRole::Pawn })
            &&& b[to as int] is None
            &&& 0 <= ep_victim_square(from, to) < 64
            &&& b[ep_victim_square(from, to)] == Some(
                Piece { color: us.spec_other(), role: PieceRole::Pawn },
            )
        },
        ChessMove::Castle { king, rook } => {
            &&& king < 64 && rook < 64 && king != rook && (king as int) / 8 == (rook as int) / 8
            &&& b[king as int] == Some(Piece { color: us, role: PieceRole::King })
            &&& b[rook as int] == Some(Piece { color: us, role: PieceRole::Rook })
        },
        ChessMove::Put { .. } => false,
    }
}

/// Whether a move's squares are on the board (as `Square::new` and UCI
/// notation need).
pub open spec fn on_board(m: ChessMove) -> bool {
    &&& (m.spec_from() matches Some(f) ==> f < 64)
    &&& m.spec_to() < 64
}

/// The board after playing `m` in `p`.
pub open spec fn board_after(p: Position, m: ChessMove) -> Seq<Option<Piece>> {
    let b = p.board();
    let us = p.spec_turn();
    match m {
        ChessMove::Normal { role, from, to, promotion, .. } => {
            let placed = match promotion {
                Some(r) => r,
                None => role,
            };
            b.update(from as int, None).update(to as int, Some(Piece { color: us, role: placed }))
        },
        ChessMove::EnPassant { from, to } => b.update(ep_victim_square(from, to), None).update(
            from as int,
            None,
        ).update(to as int, Some(Piece { color: us, role: PieceRole::Pawn })),
        ChessMove::Castle { king, rook } => {
            let (king_to, rook_to) = castle_targets(king, rook);
            b.update(king as int, None).update(rook as int, None).update(
                rook_to,
                Some(Piece { color: us, role: PieceRole::Rook }),
            ).update(king_to, Some(Piece { color: us, role: PieceRole::King }))
        },
        ChessMove::Put { role, to } => b.update(to as int, Some(Piece { color: us, role })),
    }
}

// ---------------------------------------------------------------------------
// Conversions between the plain model and the rules crate's types.

/// The `shakmaty::Role` of a role; a conversion the wrappers below use.
#[verifier::external_body]
fn role_to(r: PieceRole) -> shakmaty::Role {
    match r {
        PieceRole::Pawn => shakmaty::Role::Pawn,
        PieceRole::Knight => shakmaty::Role::Knight,
        PieceRole::Bishop => shakmaty::Role::Bishop,
        PieceRole::Rook => shakmaty::Role::Rook,
        PieceRole::Queen => shakmaty::Role::Queen,
        PieceRole::King => shakmaty::Role::King,
    }
}

/// The role of a `shakmaty::Role`; a conversion the wrappers below use.
#[verifier::external_body]
fn role_of(r: shakmaty::Role) -> PieceRole {
    match r {
        shakmaty::Role::Pawn => PieceRole::Pawn,
        shakmaty::Role::Knight => PieceRole::Knight,
        shakmaty::Role::Bishop => PieceRole::Bishop,
        shakmaty::Role::Rook => PieceRole::Rook,
        shakmaty::Role::Queen => PieceRole::Queen,
        shakmaty::Role::King => PieceRole::King,
    }
}

/// The `shakmaty::Move` of a move (squares through `Square::new`, which
/// panics off the board); a conversion the wrappers below use.
#[verifier::external_body]
fn move_to(m: ChessMove) -> shakmaty::Move
    requires
        on_board(m),
{
    match m {
        ChessMove::Normal { role, from, capture, to, promotion } => shakmaty::Move::Normal {
            role: role_to(role),
            from: Sq::new(from as u32),
            capture: capture.map(role_to),
            to: Sq::new(to as u32),
            promotion: promotion.map(role_to),
        },
        ChessMove::EnPassant { from, to } => shakmaty::Move::EnPassant { from: Sq::new(from as u32), to: Sq::new(to as u32) },
        ChessMove::Castle { king, rook } => shakmaty::Move::Castle { king: Sq::new(king as u32), rook: Sq::new(rook as u32) },
        ChessMove::Put { role, to } => shakmaty::Move::Put { role: role_to(role), to: Sq::new(to as u32) },
    }
}

/// The move of a `shakmaty::Move`; a conversion the wrappers below use.
#[verifier::external_body]
fn move_of(m: shakmaty::Move) -> ChessMove {
    match m {
        shakmaty::Move::Normal { role, from, capture, to, promotion } => ChessMove::Normal {
            role: role_of(role),
            from: u8::from(from),
            capture: capture.map(role_of),
            to: u8::from(to),
            promotion: promotion.map(role_of),
        },
        shakmaty::Move::EnPassant { from, to } => ChessMove::EnPassant { from: u8::from(from), to: u8::from(to) },
        shakmaty::Move::Castle { king, rook } => ChessMove::Castle { king: u8::from(king), rook: u8::from(rook) },
        shakmaty::Move::Put { role, to } => ChessMove::Put { role: role_of(role), to: u8::from(to) },
    }
}

/// `Board::try_from_bitboards` of the position's bitboards; a conversion the
/// wrappers below use (the position's invariant makes it succeed).
#[verifier::external_body]
fn board_of(p: &Position) -> shakmaty::Board {
    let by_role = ByRole {
        pawn: B(p.pawns), knight: B(p.knights), bishop: B(p.bishops),
        rook: B(p.rooks), queen: B(p.queens), king: B(p.kings),
    };
    let by_color = ByColor { white: B(p.white), black: B(p.black) };
    shakmaty::Board::try_from_bitboards(by_role, by_color).unwrap()
}

/// The `shakmaty` position that `p` describes.
#[verifier::external_body]
fn chess_of(p: &Position) -> shakmaty::Chess {
    let turn = match p.turn { Color::White => shakmaty::Color::White, Color::Black => shakmaty::Color::Black };
    let setup = shakmaty::Setup {
        board: board_of(p), promoted: shakmaty::Bitboard::EMPTY, pockets: None, turn,
        castling_rights: shakmaty::Bitboard(p.castling_rights),
        ep_square: p.ep_square.map(|s| shakmaty::Square::new(s as u32)),
        remaining_checks: None, halfmoves: p.halfmoves,
        fullmoves: core::num::NonZeroU32::new(p.fullmoves).unwrap(),
    };
    shakmaty::Chess::from_setup(setup, shakmaty::CastlingMode::Standard).unwrap()
}

/// The plain description of a `shakmaty` position.
#[verifier::external_body]
fn position_of(c: &shakmaty::Chess) -> Position {
    let s = c.to_setup(shakmaty::EnPassantMode::Always);
    let (r, k) = s.board.into_bitboards();
    let turn = match s.turn { shakmaty::Color::White => Color::White, shakmaty::Color::Black => Color::Black };
    Position {
        pawns: r.pawn.0, knights: r.knight.0, bishops: r.bishop.0, rooks: r.rook.0,
        queens: r.queen.0, kings: r.king.0, white: k.white.0, black: k.black.0, turn,
        castling_rights: s.castling_rights.0, ep_square: s.ep_square.map(u8::from),
        halfmoves: s.halfmoves, fullmoves: s.fullmoves.get(),
    }
}

// ---------------------------------------------------------------------------
// The rules.

/// `Chess::default()`: the initial position (White to move, all castling
/// rights, counters at 0 and 1).
#[verifier::external_body]
pub fn start_position() -> (r: Position)
    ensures
        r == Position::initial(),
        chess_valid(r),
{
    position_of(&shakmaty::Chess::default())
}

/// `Position::legal_moves`: every legal move of `p`, each with the shape of a
/// legal move.
#[verifier::external_body]
pub fn legal_moves(p: &Position) -> (r: Vec<ChessMove>)
    ensures
        r@ == chess_legal_moves(*p),
        forall|i: int| 0 <= i < r@.len() ==> legal_shape(*p, #[trigger] r@[i]),
{
    chess_of(p).legal_moves().iter().map(|m| move_of(*m)).collect()
}

/// `Position::is_legal` of a move on the board: whether `m` is one of the
/// legal moves.
#[verifier::external_body]
fn is_legal_on_board(p: &Position, m: ChessMove) -> (r: bool)
    requires
        on_board(m),
    ensures
        r == chess_legal_moves(*p).contains(m),
{
    chess_of(p).is_legal(move_to(m))
}

/// Whether `m` is one of the legal moves of `p`. A move off the board is
/// none of them (every legal move has the shape of one).
pub fn is_legal(p: &Position, m: ChessMove) -> (r: bool)
    ensures
        r == chess_legal_moves(*p).contains(m),
{
    let on = (match m.from() {
        Some(f) => f < 64,
        None => true,
    }) && m.to() < 64;
    if on {
        is_legal_on_board(p, m)
    } else {
        let moves = legal_moves(p);
        proof {
            if chess_legal_moves(*p).contains(m) {
                let i = choose|i: int| 0 <= i < moves@.len() && moves@[i] == m;
                assert(legal_shape(*p, moves@[i]));
            }
        }
        false
    }
}

/// `Position::play_unchecked` of a legal move: the board changes as the move
/// says, the other side is to move, and the result is again a position the
/// rules accept.
#[verifier::external_body]
pub fn play(p: &Position, m: ChessMove) -> (r: Position)
    requires
        chess_legal_moves(*p).contains(m),
    ensures
        r == chess_play(*p, m),
        r.board() == board_after(*p, m),
        r.spec_turn() == p.spec_turn().spec_other(),
        chess_valid(r),
{
    let mut c = chess_of(p);
    c.play_unchecked(move_to(m));
    position_of(&c)
}

/// `Position::is_check`.
#[verifier::external_body]
pub fn is_check(p: &Position) -> (r: bool)
    ensures
        r == chess_is_check(*p),
{
    chess_of(p).is_check()
}

/// `Position::is_game_over`: true at least when no legal move is left.
#[verifier::external_body]
pub fn is_game_over(p: &Position) -> (r: bool)
    ensures
        r == chess_is_game_over(*p),
        chess_legal_moves(*p).len() == 0 ==> r,
{
    chess_of(p).is_game_over()
}

/// `Position::outcome().known()`: known exactly when the game is over; with no
/// legal move left it is a win for the other side if in check, else a draw;
/// with moves left it can only be a draw (insufficient material).
#[verifier::external_body]
pub fn outcome(p: &Position) -> (r: Option<KnownOutcome>)
    ensures
        r == chess_outcome(*p),
        (r is Some) == chess_is_game_over(*p),
        chess_legal_moves(*p).len() == 0 ==> r == (if chess_is_check(*p) {
            Some(KnownOutcome::Decisive { winner: p.spec_turn().spec_other() })
        } else {
            Some(KnownOutcome::Draw)
        }),
        chess_legal_moves(*p).len() > 0 ==> (r is None || r == Some(KnownOutcome::Draw)),
{
    match chess_of(p).outcome().known() {
        Some(shakmaty::KnownOutcome::Decisive { winner: shakmaty::Color::White }) => Some(KnownOutcome::Decisive { winner: Color::White }),
        Some(shakmaty::KnownOutcome::Decisive { winner: shakmaty::Color::Black }) => Some(KnownOutcome::Decisive { winner: Color::Black }),
        Some(shakmaty::KnownOutcome::Draw) => Some(KnownOutcome::Draw),
        None => None,
    }
}

/// `Position::zobrist_hash::<Zobrist64>(EnPassantMode::Legal)`.
#[verifier::external_body]
pub fn zobrist(p: &Position) -> (r: u64)
    ensures
        r == chess_zobrist(*p),
{
    chess_of(p).zobrist_hash::<shakmaty::zobrist::Zobrist64>(shakmaty::EnPassantMode::Legal).0
}

/// `Position::swap_turn`: the same board with the other side to move.
#[verifier::external_body]
pub fn swap_turn(p: &Position) -> (r: Option<Position>)
    ensures
        r == chess_swap_turn(*p),
        r matches Some(q) ==> q.board() == p.board() && q.spec_turn() == p.spec_turn().spec_other()
            && chess_valid(q),
{
    chess_of(p).swap_turn().ok().map(|c| position_of(&c))
}

/// `SanPlus::from_move(p, m).to_string()`: the move in standard algebraic
/// notation with its check or mate suffix.
#[verifier::external_body]
pub fn san_plus(p: &Position, m: ChessMove) -> (r: String)
    requires
        chess_legal_moves(*p).contains(m),
    ensures
        r@ == chess_san_plus(*p, m),
{
    shakmaty::san::SanPlus::from_move(chess_of(p), move_to(m)).to_string()
}

/// `m.to_uci(CastlingMode::Standard).to_string()`: the move as UCI writes it.
#[verifier::external_body]
pub fn uci_text(m: ChessMove) -> (r: String)
    requires
        m.spec_from() matches Some(f) ==> f < 64,
        m.spec_to() < 64,
    ensures
        r@ == chess_uci(m),
{
    move_to(m).to_uci(shakmaty::CastlingMode::Standard).to_string()
}

/// `UciMove` parsing then `UciMove::to_move`: the legal move of `p` that a UCI
/// move text denotes, if any.
#[verifier::external_body]
pub fn uci_to_move(p: &Position, text: &str) -> (r: Option<ChessMove>)
    ensures
        r == chess_uci_to_move(*p, text@),
        r matches Some(m) ==> chess_legal_moves(*p).contains(m),
{
    let uci: shakmaty::uci::UciMove = text.parse().ok()?;
    uci.to_move(&chess_of(p)).ok().map(move_of)
}

/// `Fen` parsing then `Fen::into_position(CastlingMode::Standard)`.
#[verifier::external_body]
pub fn from_fen(text: &str) -> (r: Option<Position>)
    ensures
        r == chess_from_fen(text@),
        r matches Some(q) ==> chess_valid(q),
{
    let fen: shakmaty::fen::Fen = text.parse().ok()?;
    let c: shakmaty::Chess = fen.into_position(shakmaty::CastlingMode::Standard).ok()?;
    Some(position_of(&c))
}

} // verus!
