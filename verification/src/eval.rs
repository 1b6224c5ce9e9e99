//! Static evaluation: material plus piece-square tables, with a king table
//! tapered between middlegame and endgame by the material left on the board.

use vstd::prelude::*;
use crate::chess::{Color, PieceRole, Piece, Position};

verus! {

pub open spec fn spec_piece_value(role: PieceRole) -> int {
    match role {
        PieceRole::Pawn => 100,
        PieceRole::Knight => 320,
        PieceRole::Bishop => 330,
        PieceRole::Rook => 500,
        PieceRole::Queen => 900,
        PieceRole::King => 0,
    }
}

/// The classical material values: a pawn 100, a knight 320, a bishop 330, a
/// rook 500, a queen 900 and the king 0 (it is never traded), so a rook
/// outvalues a bishop, which outvalues a knight.
pub proof fn lemma_piece_values()
    ensures
        spec_piece_value(PieceRole::Pawn) == 100,
        spec_piece_value(PieceRole::Knight) == 320,
        spec_piece_value(PieceRole::Bishop) == 330,
        spec_piece_value(PieceRole::Rook) == 500,
        spec_piece_value(PieceRole::Queen) == 900,
        spec_piece_value(PieceRole::King) == 0,
        spec_piece_value(PieceRole::Knight) < spec_piece_value(PieceRole::Bishop) < spec_piece_value(
            PieceRole::Rook,
        ) < spec_piece_value(PieceRole::Queen),
{
}

/// The classical material value of a piece, in centipawns.
pub fn piece_value(role: PieceRole) -> (r: i32)
    ensures
        role == PieceRole::Pawn ==> r == 100,
        role == PieceRole::Knight ==> r == 320,
        role == PieceRole::Bishop ==> r == 330,
        role == PieceRole::Rook ==> r == 500,
        role == PieceRole::Queen ==> r == 900,
        role == PieceRole::King ==> r == 0,
        r == spec_piece_value(role),
{
    match role {
        PieceRole::Pawn => 100,
        PieceRole::Knight => 320,
        PieceRole::Bishop => 330,
        PieceRole::Rook => 500,
        PieceRole::Queen => 900,
        PieceRole::King => 0,
    }
}

/// The table index of square `sq` for a piece of `color`: the tables are
/// written from White's side with rank 8 first, so a White piece has its rank
/// flipped and a Black piece reads its own square (the vertical mirror).
pub open spec fn spec_pst_index(sq: int, color: Color) -> int {
    match color {
        Color::White => 8 * (7 - sq / 8) + sq % 8,
        Color::Black => sq,
    }
}

/// Map a board square to an index into the piece-square tables.
fn pst_index(sq: u8, color: Color) -> (r: usize)
    requires
        sq < 64,
    ensures
        r == spec_pst_index(sq as int, color),
        r < 64,
{
    match color {
        Color::White => {
            let r = (sq as usize) ^ 56;
            assert(((sq as usize) ^ 56) == 8 * (7 - (sq as usize) / 8) + (sq as usize) % 8
                && ((sq as usize) ^ 56) < 64) by (bit_vector)
                requires
                    sq < 64,
            ;
            r
        },
        Color::Black => sq as usize,
    }
}

/// The piece-square bonus of `role` at table index `idx` (0 for the king,
/// whose table is tapered separately).
pub open spec fn spec_pst(role: PieceRole, idx: int) -> int {
    match role {
        PieceRole::Pawn => PAWN@[idx] as int,
        PieceRole::Knight => KNIGHT@[idx] as int,
        PieceRole::Bishop => BISHOP@[idx] as int,
        PieceRole::Rook => ROOK@[idx] as int,
        PieceRole::Queen => QUEEN@[idx] as int,
        PieceRole::King => 0,
    }
}

fn pst(role: PieceRole, idx: usize) -> (r: i32)
    requires
        idx < 64,
    ensures
        r == spec_pst(role, idx as int),
        -50 <= r <= 50,
{
    proof {
        lemma_tables_bounded(idx as int);
    }
    match role {
        PieceRole::Pawn => PAWN[idx],
        PieceRole::Knight => KNIGHT[idx],
        PieceRole::Bishop => BISHOP[idx],
        PieceRole::Rook => ROOK[idx],
        PieceRole::Queen => QUEEN[idx],
        PieceRole::King => 0,
    }
}

/// Total phase units at the start of the game (see `phase_weight`).
pub const TOTAL_PHASE: i32 = 24;

/// Division rounding toward zero, as Rust's `/` on integers does.
pub open spec fn div_toward_zero(n: int, d: int) -> int {
    if n >= 0 {
        n / d
    } else {
        -((-n) / d)
    }
}

/// The king's table value at `idx`, interpolated between the middlegame and
/// endgame tables by `phase` (from 24, all pieces on, down to 0).
pub open spec fn spec_king_pst(idx: int, phase: int) -> int {
    div_toward_zero(
        KING_MG@[idx] as int * phase + KING_EG@[idx] as int * (TOTAL_PHASE - phase),
        TOTAL_PHASE as int,
    )
}

/// Interpolate the king's PST between midgame and endgame.
pub fn king_pst(idx: usize, phase: i32) -> (r: i32)
    requires
        idx < 64,
        0 <= phase <= TOTAL_PHASE,
    ensures
        r == spec_king_pst(idx as int, phase as int),
        -50 <= r <= 50,
{
    proof {
        lemma_tables_bounded(idx as int);
        assert(-50 * phase <= KING_MG@[idx as int] * phase <= 50 * phase) by (nonlinear_arith)
            requires
                -50 <= KING_MG@[idx as int] <= 50,
                0 <= phase,
        ;
        assert(-50 * (24 - phase) <= KING_EG@[idx as int] * (24 - phase) <= 50 * (24 - phase))
            by (nonlinear_arith)
            requires
                -50 <= KING_EG@[idx as int] <= 50,
                phase <= 24,
        ;
    }
    (KING_MG[idx] * phase + KING_EG[idx] * (TOTAL_PHASE - phase)) / TOTAL_PHASE
}

pub open spec fn spec_phase_weight(role: PieceRole) -> int {
    match role {
        PieceRole::Knight | PieceRole::Bishop => 1,
        PieceRole::Rook => 2,
        PieceRole::Queen => 4,
        _ => 0,
    }
}

/// How much each piece contributes to the game phase (24 at the start).
fn phase_weight(role: PieceRole) -> (r: i32)
    ensures
        r == spec_phase_weight(role),
{
    match role {
        PieceRole::Knight | PieceRole::Bishop => 1,
        PieceRole::Rook => 2,
        PieceRole::Queen => 4,
        _ => 0,
    }
}

/// What the piece on `sq` adds to the evaluation from White's point of view:
/// material plus table bonus, negated for Black; kings add nothing here.
pub open spec fn piece_term(pc: Option<Piece>, sq: int) -> int {
    match pc {
        None => 0,
        Some(pc) => if pc.role == PieceRole::King {
            0
        } else {
            let v = spec_piece_value(pc.role) + spec_pst(pc.role, spec_pst_index(sq, pc.color));
            if pc.color == Color::White {
                v
            } else {
                -v
            }
        },
    }
}

/// Sum of `piece_term` over the squares below `n`.
pub open spec fn material_sum(p: Position, n: int) -> int
    decreases n,
{
    if n <= 0 {
        0
    } else {
        material_sum(p, n - 1) + piece_term(p.piece_at(n - 1), n - 1)
    }
}

/// Sum of the phase weights of the pieces on the squares below `n`.
pub open spec fn phase_sum(p: Position, n: int) -> int
    decreases n,
{
    if n <= 0 {
        0
    } else {
        phase_sum(p, n - 1) + match p.piece_at(n - 1) {
            None => 0,
            Some(pc) => spec_phase_weight(pc.role),
        }
    }
}

/// The highest square below `n` holding a king of `color`, if any.
pub open spec fn king_square(p: Position, color: Color, n: int) -> Option<int>
    decreases n,
{
    if n <= 0 {
        None
    } else if p.piece_at(n - 1) == Some(Piece { color, role: PieceRole::King }) {
        Some(n - 1)
    } else {
        king_square(p, color, n - 1)
    }
}

/// The king table term of `color`'s king (0 when it has none).
pub open spec fn king_term(p: Position, color: Color, phase: int) -> int {
    match king_square(p, color, 64) {
        None => 0,
        Some(sq) => spec_king_pst(spec_pst_index(sq, color), phase),
    }
}

/// The game phase: the summed phase weights, at most 24.
pub open spec fn game_phase(p: Position) -> int {
    if phase_sum(p, 64) < TOTAL_PHASE {
        phase_sum(p, 64)
    } else {
        TOTAL_PHASE as int
    }
}

/// The evaluation from White's point of view.
pub open spec fn white_score(p: Position) -> int {
    material_sum(p, 64) + king_term(p, Color::White, game_phase(p)) - king_term(
        p,
        Color::Black,
        game_phase(p),
    )
}

/// Largest magnitude of an evaluation: one below the forced-mate threshold,
/// so that a static score is never taken for a mate.
pub const EVAL_BOUND: i32 = 3999;

/// `x` kept within `[-EVAL_BOUND, EVAL_BOUND]`.
pub open spec fn clamp_eval(x: int) -> int {
    if x > EVAL_BOUND {
        EVAL_BOUND as int
    } else if x < -EVAL_BOUND {
        -EVAL_BOUND
    } else {
        x
    }
}

/// White's score seen from the side to move.
pub open spec fn side_score(p: Position) -> int {
    if p.spec_turn() == Color::White {
        white_score(p)
    } else {
        -white_score(p)
    }
}

/// The evaluation relative to the side to move, kept inside the band of
/// ordinary scores.
pub open spec fn spec_evaluate(p: Position) -> int {
    clamp_eval(side_score(p))
}

/// Static evaluation of `pos`, in centipawns, relative to the side to move
/// (positive = good for whoever is to move). It never reaches the
/// forced-mate threshold: material beyond it is cut off at `EVAL_BOUND`.
pub fn evaluate(pos: &Position) -> (r: i32)
    ensures
        r == spec_evaluate(*pos),
        -EVAL_BOUND <= r <= EVAL_BOUND,
        -4000 < r < 4000,
{
    // White's point of view; flipped for the side to move at the very end.
    let mut score: i32 = 0;
    let mut phase: i32 = 0;
    let mut white_king: Option<u8> = None;
    let mut black_king: Option<u8> = None;
    let mut sq: u8 = 0;
    while sq < 64
        invariant
            sq <= 64,
            score == material_sum(*pos, sq as int),
            phase == phase_sum(*pos, sq as int),
            -950 * sq <= score <= 950 * sq,
            0 <= phase <= 4 * sq,
            match king_square(*pos, Color::White, sq as int) {
                None => white_king is None,
                Some(s) => white_king == Some(s as u8),
            },
            match king_square(*pos, Color::Black, sq as int) {
                None => black_king is None,
                Some(s) => black_king == Some(s as u8),
            },
            king_square(*pos, Color::White, sq as int) matches Some(s) ==> 0 <= s < sq,
            king_square(*pos, Color::Black, sq as int) matches Some(s) ==> 0 <= s < sq,
        decreases 64 - sq,
    {
        match pos.piece_on(sq) {
            None => {},
            Some(piece) => {
                if piece.role == PieceRole::King {
                    // Kings carry no material value and their table depends on
                    // the phase, so they are handled once the phase is known.
                    match piece.color {
                        Color::White => white_king = Some(sq),
                        Color::Black => black_king = Some(sq),
                    }
                } else {
                    let idx = pst_index(sq, piece.color);
                    let value = piece_value(piece.role) + pst(piece.role, idx);
                    score = if piece.color == Color::White {
                        score + value
                    } else {
                        score - value
                    };
                    phase = phase + phase_weight(piece.role);
                }
            },
        }
        sq = sq + 1;
    }
    let phase = if phase < TOTAL_PHASE {
        phase
    } else {
        TOTAL_PHASE
    };
    if let Some(k) = white_king {
        score = score + king_pst(pst_index(k, Color::White), phase);
    }
    if let Some(k) = black_king {
        score = score - king_pst(pst_index(k, Color::Black), phase);
    }
    let relative = if pos.turn() == Color::White {
        score
    } else {
        -score
    };
    if relative > EVAL_BOUND {
        EVAL_BOUND
    } else if relative < -EVAL_BOUND {
        -EVAL_BOUND
    } else {
        relative
    }
}

// ---------------------------------------------------------------------------
// Colour symmetry.

/// The square on the same file and the mirrored rank (e2 for e7).
pub open spec fn mirror_square(sq: int) -> int {
    8 * (7 - sq / 8) + sq % 8
}

/// The same piece owned by the other side.
pub open spec fn flip_piece(pc: Option<Piece>) -> Option<Piece> {
    match pc {
        Some(x) => Some(Piece { color: x.color.spec_other(), role: x.role }),
        None => None,
    }
}

/// `q`'s board is `p`'s with the colours swapped and the ranks mirrored.
pub open spec fn mirrored(p: Position, q: Position) -> bool {
    forall|sq: int| 0 <= sq < 64 ==> #[trigger] q.piece_at(sq) == flip_piece(p.piece_at(mirror_square(sq)))
}

/// Each side has at most one king.
pub open spec fn one_king_each(p: Position) -> bool {
    forall|s: int, t: int|
        #![trigger p.piece_at(s), p.piece_at(t)]
        0 <= s < 64 && 0 <= t < 64 && p.piece_at(s) == p.piece_at(t) && is_king(p.piece_at(s))
            ==> s == t
}

/// Whether a square holds a king.
pub open spec fn is_king(pc: Option<Piece>) -> bool {
    pc matches Some(x) && x.role == PieceRole::King
}

proof fn lemma_mirror_square(sq: int)
    requires
        0 <= sq < 64,
    ensures
        0 <= mirror_square(sq) < 64,
        mirror_square(mirror_square(sq)) == sq,
        spec_pst_index(sq, Color::White) == mirror_square(sq),
        spec_pst_index(sq, Color::Black) == sq,
{
}

proof fn lemma_term_mirror(p: Position, q: Position, sq: int)
    requires
        mirrored(p, q),
        0 <= sq < 64,
    ensures
        piece_term(q.piece_at(sq), sq) == -piece_term(
            p.piece_at(mirror_square(sq)),
            mirror_square(sq),
        ),
        phase_sum(q, sq + 1) - phase_sum(q, sq) == phase_sum(p, mirror_square(sq) + 1)
            - phase_sum(p, mirror_square(sq)),
{
    lemma_mirror_square(sq);
    lemma_mirror_square(mirror_square(sq));
    assert(q.piece_at(sq) == flip_piece(p.piece_at(mirror_square(sq))));
}

/// The first `f` squares of rank `r` of `q` add up to minus the same squares
/// of the mirrored rank of `p` (and to the same phase).
proof fn lemma_rank_mirror(p: Position, q: Position, r: int, f: int)
    requires
        mirrored(p, q),
        0 <= r < 8,
        0 <= f <= 8,
    ensures
        material_sum(q, 8 * r + f) - material_sum(q, 8 * r) == -(material_sum(p, 8 * (7 - r) + f)
            - material_sum(p, 8 * (7 - r))),
        phase_sum(q, 8 * r + f) - phase_sum(q, 8 * r) == phase_sum(p, 8 * (7 - r) + f) - phase_sum(
            p,
            8 * (7 - r),
        ),
    decreases f,
{
    if f > 0 {
        lemma_rank_mirror(p, q, r, f - 1);
        lemma_term_mirror(p, q, 8 * r + f - 1);
        assert(mirror_square(8 * r + f - 1) == 8 * (7 - r) + f - 1);
    }
}

/// The first `k` ranks of `q` add up to minus the last `k` ranks of `p`
/// (and to the same phase).
proof fn lemma_sums_mirror(p: Position, q: Position, k: int)
    requires
        mirrored(p, q),
        0 <= k <= 8,
    ensures
        material_sum(q, 8 * k) == -(material_sum(p, 64) - material_sum(p, 64 - 8 * k)),
        phase_sum(q, 8 * k) == phase_sum(p, 64) - phase_sum(p, 64 - 8 * k),
    decreases k,
{
    if k > 0 {
        lemma_sums_mirror(p, q, k - 1);
        lemma_rank_mirror(p, q, k - 1, 8);
        assert(8 * (7 - (k - 1)) + 8 == 64 - 8 * (k - 1));
        assert(8 * (7 - (k - 1)) == 64 - 8 * k);
    }
}

/// With exactly one king of `c` on `s`, the search for the highest king
/// square below `n` finds it once `n` passes it.
proof fn lemma_king_square_unique(x: Position, c: Color, s: int, n: int)
    requires
        one_king_each(x),
        0 <= s < 64,
        x.piece_at(s) == Some(Piece { color: c, role: PieceRole::King }),
        0 <= n <= 64,
    ensures
        king_square(x, c, n) == (if s < n {
            Some(s)
        } else {
            None
        }),
    decreases n,
{
    if n > 0 {
        lemma_king_square_unique(x, c, s, n - 1);
        if x.piece_at(n - 1) == Some(Piece { color: c, role: PieceRole::King }) {
            assert(n - 1 == s);
        }
    }
}

/// Without a king of `c` on the board, none is found.
proof fn lemma_king_square_none(x: Position, c: Color, n: int)
    requires
        forall|t: int| 0 <= t < 64 ==> #[trigger] x.piece_at(t) != Some(
            Piece { color: c, role: PieceRole::King },
        ),
        0 <= n <= 64,
    ensures
        king_square(x, c, n) is None,
    decreases n,
{
    if n > 0 {
        lemma_king_square_none(x, c, n - 1);
    }
}

proof fn lemma_king_term_mirror(p: Position, q: Position, c: Color, phase: int)
    requires
        mirrored(p, q),
        one_king_each(p),
    ensures
        king_term(q, c, phase) == king_term(p, c.spec_other(), phase),
{
    let kq = Piece { color: c, role: PieceRole::King };
    let kp = Piece { color: c.spec_other(), role: PieceRole::King };
    assert(one_king_each(q)) by {
        assert forall|s: int, t: int|
            #![trigger q.piece_at(s), q.piece_at(t)]
            0 <= s < 64 && 0 <= t < 64 && q.piece_at(s) == q.piece_at(t) && is_king(q.piece_at(s))
                implies s == t by {
            lemma_mirror_square(s);
            lemma_mirror_square(t);
            assert(q.piece_at(s) == flip_piece(p.piece_at(mirror_square(s))));
            assert(q.piece_at(t) == flip_piece(p.piece_at(mirror_square(t))));
            assert(p.piece_at(mirror_square(s)) == p.piece_at(mirror_square(t)));
            assert(mirror_square(s) == mirror_square(t));
        }
    }
    if exists|s: int| 0 <= s < 64 && #[trigger] p.piece_at(s) == Some(kp) {
        let s = choose|s: int| 0 <= s < 64 && #[trigger] p.piece_at(s) == Some(kp);
        lemma_mirror_square(s);
        let t = mirror_square(s);
        lemma_mirror_square(t);
        assert(q.piece_at(t) == flip_piece(p.piece_at(s)));
        lemma_king_square_unique(p, c.spec_other(), s, 64);
        lemma_king_square_unique(q, c, t, 64);
    } else {
        assert forall|t: int| 0 <= t < 64 implies #[trigger] q.piece_at(t) != Some(kq) by {
            lemma_mirror_square(t);
            assert(q.piece_at(t) == flip_piece(p.piece_at(mirror_square(t))));
            if q.piece_at(t) == Some(kq) {
                assert(p.piece_at(mirror_square(t)) == Some(kp));
            }
        }
        lemma_king_square_none(p, c.spec_other(), 64);
        lemma_king_square_none(q, c, 64);
    }
}

/// Colour symmetry of the evaluation: swapping the colours and mirroring the
/// ranks negates White's score (a black piece on e7 scores like a white
/// piece on e2), so with the other side to move the evaluation is the same.
pub proof fn lemma_evaluate_mirror(p: Position, q: Position)
    requires
        mirrored(p, q),
        one_king_each(p),
    ensures
        white_score(q) == -white_score(p),
        q.spec_turn() == p.spec_turn().spec_other() ==> spec_evaluate(q) == spec_evaluate(p),
{
    lemma_sums_mirror(p, q, 8);
    assert(material_sum(p, 0) == 0);
    assert(phase_sum(p, 0) == 0);
    assert(game_phase(q) == game_phase(p));
    lemma_king_term_mirror(p, q, Color::White, game_phase(p));
    lemma_king_term_mirror(p, q, Color::Black, game_phase(p));
}

/// The colour mirror of a position the rules hand out: it has one king per
/// side, so the mirror law holds without further premise.
pub proof fn lemma_evaluate_mirror_legal(p: Position, q: Position)
    requires
        p.well_formed(),
        mirrored(p, q),
    ensures
        white_score(q) == -white_score(p),
        q.spec_turn() == p.spec_turn().spec_other() ==> spec_evaluate(q) == spec_evaluate(p),
{
    p.lemma_well_formed_kings();
    lemma_evaluate_mirror(p, q);
}

/// Two positions with the same pieces on the same squares add up alike.
proof fn lemma_same_board_sums(p: Position, q: Position, n: int)
    requires
        0 <= n <= 64,
        forall|sq: int| 0 <= sq < 64 ==> #[trigger] q.piece_at(sq) == p.piece_at(sq),
    ensures
        material_sum(q, n) == material_sum(p, n),
        phase_sum(q, n) == phase_sum(p, n),
        king_square(q, Color::White, n) == king_square(p, Color::White, n),
        king_square(q, Color::Black, n) == king_square(p, Color::Black, n),
    decreases n,
{
    if n > 0 {
        lemma_same_board_sums(p, q, n - 1);
        assert(q.piece_at(n - 1) == p.piece_at(n - 1));
    }
}

/// Passing the move to the other side (the same board) negates the
/// evaluation: it is relative to the side to move.
pub proof fn lemma_evaluate_turn_swap(p: Position, q: Position)
    requires
        q.board() == p.board(),
        q.spec_turn() == p.spec_turn().spec_other(),
    ensures
        spec_evaluate(q) == -spec_evaluate(p),
{
    p.lemma_board();
    q.lemma_board();
    assert forall|sq: int| 0 <= sq < 64 implies #[trigger] q.piece_at(sq) == p.piece_at(sq) by {
        assert(q.board()[sq] == p.board()[sq]);
    }
    lemma_same_board_sums(p, q, 64);
    assert(white_score(q) == white_score(p));
}

/// A perfectly symmetric position (its own colour mirror) evaluates to 0.
pub proof fn lemma_symmetric_is_zero(p: Position)
    requires
        mirrored(p, p),
        one_king_each(p),
    ensures
        spec_evaluate(p) == 0,
{
    lemma_evaluate_mirror(p, p);
}

/// Every table entry lies within 50 centipawns of zero.
proof fn lemma_tables_bounded(i: int)
    requires
        0 <= i < 64,
    ensures
        -50 <= PAWN@[i] <= 50,
        -50 <= KNIGHT@[i] <= 50,
        -50 <= BISHOP@[i] <= 50,
        -50 <= ROOK@[i] <= 50,
        -50 <= QUEEN@[i] <= 50,
        -50 <= KING_MG@[i] <= 50,
        -50 <= KING_EG@[i] <= 50,
{
    assert(PAWN@ =~= seq![
         0i32,  0i32,  0i32,  0i32,  0i32,  0i32,  0i32,  0i32,
        50i32, 50i32, 50i32, 50i32, 50i32, 50i32, 50i32, 50i32,
        10i32, 10i32, 20i32, 30i32, 30i32, 20i32, 10i32, 10i32,
         5i32,  5i32, 10i32, 25i32, 25i32, 10i32,  5i32,  5i32,
         0i32,  0i32,  0i32, 20i32, 20i32,  0i32,  0i32,  0i32,
         5i32, -5i32,-10i32,  0i32,  0i32,-10i32, -5i32,  5i32,
         5i32, 10i32, 10i32,-20i32,-20i32, 10i32, 10i32,  5i32,
         0i32,  0i32,  0i32,  0i32,  0i32,  0i32,  0i32,  0i32,
    ]);
    assert(KNIGHT@ =~= seq![
        -50i32,-40i32,-30i32,-30i32,-30i32,-30i32,-40i32,-50i32,
        -40i32,-20i32,  0i32,  0i32,  0i32,  0i32,-20i32,-40i32,
        -30i32,  0i32, 10i32, 15i32, 15i32, 10i32,  0i32,-30i32,
        -30i32,  5i32, 15i32, 20i32, 20i32, 15i32,  5i32,-30i32,
        -30i32,  0i32, 15i32, 20i32, 20i32, 15i32,  0i32,-30i32,
        -30i32,  5i32, 10i32, 15i32, 15i32, 10i32,  5i32,-30i32,
        -40i32,-20i32,  0i32,  5i32,  5i32,  0i32,-20i32,-40i32,
        -50i32,-40i32,-30i32,-30i32,-30i32,-30i32,-40i32,-50i32,
    ]);
    assert(BISHOP@ =~= seq![
        -20i32,-10i32,-10i32,-10i32,-10i32,-10i32,-10i32,-20i32,
        -10i32,  0i32,  0i32,  0i32,  0i32,  0i32,  0i32,-10i32,
        -10i32,  0i32,  5i32, 10i32, 10i32,  5i32,  0i32,-10i32,
        -10i32,  5i32,  5i32, 10i32, 10i32,  5i32,  5i32,-10i32,
        -10i32,  0i32, 10i32, 10i32, 10i32, 10i32,  0i32,-10i32,
        -10i32, 10i32, 10i32, 10i32, 10i32, 10i32, 10i32,-10i32,
        -10i32,  5i32,  0i32,  0i32,  0i32,  0i32,  5i32,-10i32,
        -20i32,-10i32,-10i32,-10i32,-10i32,-10i32,-10i32,-20i32,
    ]);
    assert(ROOK@ =~= seq![
         0i32,  0i32,  0i32,  0i32,  0i32,  0i32,  0i32,  0i32,
         5i32, 10i32, 10i32, 10i32, 10i32, 10i32, 10i32,  5i32,
        -5i32,  0i32,  0i32,  0i32,  0i32,  0i32,  0i32, -5i32,
        -5i32,  0i32,  0i32,  0i32,  0i32,  0i32,  0i32, -5i32,
        -5i32,  0i32,  0i32,  0i32,  0i32,  0i32,  0i32, -5i32,
        -5i32,  0i32,  0i32,  0i32,  0i32,  0i32,  0i32, -5i32,
        -5i32,  0i32,  0i32,  0i32,  0i32,  0i32,  0i32, -5i32,
         0i32,  0i32,  0i32,  5i32,  5i32,  0i32,  0i32,  0i32,
    ]);
    assert(QUEEN@ =~= seq![
        -20i32,-10i32,-10i32, -5i32, -5i32,-10i32,-10i32,-20i32,
        -10i32,  0i32,  0i32,  0i32,  0i32,  0i32,  0i32,-10i32,
        -10i32,  0i32,  5i32,  5i32,  5i32,  5i32,  0i32,-10i32,
         -5i32,  0i32,  5i32,  5i32,  5i32,  5i32,  0i32, -5i32,
          0i32,  0i32,  5i32,  5i32,  5i32,  5i32,  0i32, -5i32,
        -10i32,  5i32,  5i32,  5i32,  5i32,  5i32,  0i32,-10i32,
        -10i32,  0i32,  5i32,  0i32,  0i32,  0i32,  0i32,-10i32,
        -20i32,-10i32,-10i32, -5i32, -5i32,-10i32,-10i32,-20i32,
    ]);
    assert(KING_MG@ =~= seq![
        -30i32,-40i32,-40i32,-50i32,-50i32,-40i32,-40i32,-30i32,
        -30i32,-40i32,-40i32,-50i32,-50i32,-40i32,-40i32,-30i32,
        -30i32,-40i32,-40i32,-50i32,-50i32,-40i32,-40i32,-30i32,
        -30i32,-40i32,-40i32,-50i32,-50i32,-40i32,-40i32,-30i32,
        -20i32,-30i32,-30i32,-40i32,-40i32,-30i32,-30i32,-20i32,
        -10i32,-20i32,-20i32,-20i32,-20i32,-20i32,-20i32,-10i32,
         20i32, 20i32,  0i32,  0i32,  0i32,  0i32, 20i32, 20i32,
         20i32, 30i32, 10i32,  0i32,  0i32, 10i32, 30i32, 20i32,
    ]);
    assert(KING_EG@ =~= seq![
        -50i32,-40i32,-30i32,-20i32,-20i32,-30i32,-40i32,-50i32,
        -30i32,-20i32,-10i32,  0i32,  0i32,-10i32,-20i32,-30i32,
        -30i32,-10i32, 20i32, 30i32, 30i32, 20i32,-10i32,-30i32,
        -30i32,-10i32, 30i32, 40i32, 40i32, 30i32,-10i32,-30i32,
        -30i32,-10i32, 30i32, 40i32, 40i32, 30i32,-10i32,-30i32,
        -30i32,-10i32, 20i32, 30i32, 30i32, 20i32,-10i32,-30i32,
        -30i32,-30i32,  0i32,  0i32,  0i32,  0i32,-30i32,-30i32,
        -50i32,-30i32,-30i32,-30i32,-30i32,-30i32,-30i32,-50i32,
    ]);
}

// --- Piece-square tables (Michniewski "Simplified Evaluation"), a8 = index 0 ---

pub const PAWN: [i32; 64] = [
     0,  0,  0,  0,  0,  0,  0,  0,
    50, 50, 50, 50, 50, 50, 50, 50,
    10, 10, 20, 30, 30, 20, 10, 10,
     5,  5, 10, 25, 25, 10,  5,  5,
     0,  0,  0, 20, 20,  0,  0,  0,
     5, -5,-10,  0,  0,-10, -5,  5,
     5, 10, 10,-20,-20, 10, 10,  5,
     0,  0,  0,  0,  0,  0,  0,  0,
];

pub const KNIGHT: [i32; 64] = [
    -50,-40,-30,-30,-30,-30,-40,-50,
    -40,-20,  0,  0,  0,  0,-20,-40,
    -30,  0, 10, 15, 15, 10,  0,-30,
    -30,  5, 15, 20, 20, 15,  5,-30,
    -30,  0, 15, 20, 20, 15,  0,-30,
    -30,  5, 10, 15, 15, 10,  5,-30,
    -40,-20,  0,  5,  5,  0,-20,-40,
    -50,-40,-30,-30,-30,-30,-40,-50,
];

pub const BISHOP: [i32; 64] = [
    -20,-10,-10,-10,-10,-10,-10,-20,
    -10,  0,  0,  0,  0,  0,  0,-10,
    -10,  0,  5, 10, 10,  5,  0,-10,
    -10,  5,  5, 10, 10,  5,  5,-10,
    -10,  0, 10, 10, 10, 10,  0,-10,
    -10, 10, 10, 10, 10, 10, 10,-10,
    -10,  5,  0,  0,  0,  0,  5,-10,
    -20,-10,-10,-10,-10,-10,-10,-20,
];

pub const ROOK: [i32; 64] = [
     0,  0,  0,  0,  0,  0,  0,  0,
     5, 10, 10, 10, 10, 10, 10,  5,
    -5,  0,  0,  0,  0,  0,  0, -5,
    -5,  0,  0,  0,  0,  0,  0, -5,
    -5,  0,  0,  0,  0,  0,  0, -5,
    -5,  0,  0,  0,  0,  0,  0, -5,
    -5,  0,  0,  0,  0,  0,  0, -5,
     0,  0,  0,  5,  5,  0,  0,  0,
];

pub const QUEEN: [i32; 64] = [
    -20,-10,-10, -5, -5,-10,-10,-20,
    -10,  0,  0,  0,  0,  0,  0,-10,
    -10,  0,  5,  5,  5,  5,  0,-10,
     -5,  0,  5,  5,  5,  5,  0, -5,
      0,  0,  5,  5,  5,  5,  0, -5,
    -10,  5,  5,  5,  5,  5,  0,-10,
    -10,  0,  5,  0,  0,  0,  0,-10,
    -20,-10,-10, -5, -5,-10,-10,-20,
];

pub const KING_MG: [i32; 64] = [
    -30,-40,-40,-50,-50,-40,-40,-30,
    -30,-40,-40,-50,-50,-40,-40,-30,
    -30,-40,-40,-50,-50,-40,-40,-30,
    -30,-40,-40,-50,-50,-40,-40,-30,
    -20,-30,-30,-40,-40,-30,-30,-20,
    -10,-20,-20,-20,-20,-20,-20,-10,
     20, 20,  0,  0,  0,  0, 20, 20,
     20, 30, 10,  0,  0, 10, 30, 20,
];

pub const KING_EG: [i32; 64] = [
    -50,-40,-30,-20,-20,-30,-40,-50,
    -30,-20,-10,  0,  0,-10,-20,-30,
    -30,-10, 20, 30, 30, 20,-10,-30,
    -30,-10, 30, 40, 40, 30,-10,-30,
    -30,-10, 30, 40, 40, 30,-10,-30,
    -30,-10, 20, 30, 30, 20,-10,-30,
    -30,-30,  0,  0,  0,  0,-30,-30,
    -50,-30,-30,-30,-30,-30,-30,-50,
];

} // verus!
