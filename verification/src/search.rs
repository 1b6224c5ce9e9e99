//! The search: iterative deepening over a negamax alpha-beta search with a
//! transposition table, quiescence search, null-move pruning, late move
//! reductions, check extensions and killer/history move ordering.

use vstd::prelude::*;
use crate::chess::{Color, PieceRole, Piece, ChessMove, Position, KnownOutcome};
use crate::rules::{
    chess_legal_moves, chess_play, chess_is_game_over, legal_shape, board_after,
    ep_victim_square, legal_moves, play, is_check, is_game_over, outcome, zobrist, swap_turn,
    is_legal, chess_outcome, chess_is_check, on_board,
};
use crate::eval::{evaluate, piece_value, spec_piece_value, spec_evaluate, div_toward_zero, EVAL_BOUND};
use crate::tt::{Tt, Bound, TtEntry};
use crate::interface::{
    ChessEngine, SearchHandle, SearchProgress, SearchResult, IllegalMove, Limits, LimitsView,
    TimeMode, Clock, Score,
};
use std::time::Instant;

verus! {

/// The score of a checkmate delivered at the root.
pub const MATE: i32 = 1_000_000;

/// Scores at least this large are forced mates: the total material of a full
/// board (8 pawns, 2 knights, 2 bishops, 2 rooks, a queen), which no ordinary
/// evaluation reaches.
pub const MATE_THRESHOLD: i32 = 4000;

/// `MATE_THRESHOLD` is the material of one side's full army.
pub proof fn lemma_mate_threshold()
    ensures
        MATE_THRESHOLD == spec_piece_value(PieceRole::Pawn) * 8 + spec_piece_value(PieceRole::Knight)
            * 2 + spec_piece_value(PieceRole::Bishop) * 2 + spec_piece_value(PieceRole::Rook) * 2
            + spec_piece_value(PieceRole::Queen),
{
}

/// How many nodes pass between two looks at the clock and the stop flag.
pub const CHECK_STOP_AFTER: u64 = 2000;

/// The deepest ply with its own killer slots, and the ply up to which checks
/// extend the search.
pub const MAX_PLY: usize = 128;

/// The deepest iteration: with every check extension its plies still fit the
/// `u8` ply counter.
pub const MAX_DEPTH: u8 = 127;

// ---------------------------------------------------------------------------
// Clock.

#[verifier::external_type_specification]
#[verifier::external_body]
pub struct ExInstant(std::time::Instant);

/// `Instant::now`.
#[verifier::external_body]
fn now() -> Instant {
    Instant::now()
}

/// `Instant::elapsed`, in whole milliseconds (saturating).
#[verifier::external_body]
fn elapsed_ms(start: &Instant) -> u64 {
    u64::try_from(start.elapsed().as_millis()).unwrap_or(u64::MAX)
}

// ---------------------------------------------------------------------------
// Scores.

/// The scores a node at `ply` can return: no mate is closer than the node.
pub open spec fn in_band(s: int, ply: int) -> bool {
    -(MATE + 1 - ply) <= s <= MATE + 1 - ply
}

pub open spec fn spec_score_to_tt(score: int, ply: int) -> int {
    if score >= MATE_THRESHOLD {
        score + ply
    } else if score <= -MATE_THRESHOLD {
        score - ply
    } else {
        score
    }
}

pub open spec fn spec_score_from_tt(score: int, ply: int) -> int {
    if score >= MATE_THRESHOLD {
        score - ply
    } else if score <= -MATE_THRESHOLD {
        score + ply
    } else {
        score
    }
}

/// Store: a node-relative mate score becomes root-relative (absolute).
pub fn score_to_tt(score: i32, ply: u8) -> (r: i32)
    requires
        score >= MATE_THRESHOLD ==> score + ply <= i32::MAX,
        score <= -MATE_THRESHOLD ==> score - ply >= i32::MIN,
    ensures
        r == spec_score_to_tt(score as int, ply as int),
        in_band(score as int, ply as int) ==> -(MATE + 1) <= r <= MATE + 1,
{
    if score >= MATE_THRESHOLD {
        score + ply as i32
    } else if score <= -MATE_THRESHOLD {
        score - ply as i32
    } else {
        score
    }
}

/// Probe: a stored mate score becomes relative to the probing node.
pub fn score_from_tt(score: i32, ply: u8) -> (r: i32)
    ensures
        r == spec_score_from_tt(score as int, ply as int),
        -(MATE + 1) <= score <= MATE + 1 ==> in_band(r as int, ply as int),
{
    if score >= MATE_THRESHOLD {
        score - ply as i32
    } else if score <= -MATE_THRESHOLD {
        score + ply as i32
    } else {
        score
    }
}

/// Reading back a score stored at the same ply gives the score that was stored.
pub proof fn lemma_tt_score_roundtrip(score: int, ply: int)
    requires
        0 <= ply,
    ensures
        spec_score_from_tt(spec_score_to_tt(score, ply), ply) == score,
{
}

/// A mate found `d` plies below a node keeps that distance when the stored
/// score is read back at another ply: "mate in 3 from here" stays correct.
pub proof fn lemma_tt_mate_distance(d: int, ply1: int, ply2: int)
    requires
        0 <= ply1 <= 255,
        0 <= ply2 <= 255,
        0 <= d <= 255,
    ensures
        spec_score_from_tt(spec_score_to_tt(MATE - ply1 - d, ply1), ply2) == MATE - ply2 - d,
        spec_score_from_tt(spec_score_to_tt(-(MATE - ply1 - d), ply1), ply2) == -(MATE - ply2
            - d),
{
}

pub open spec fn spec_mate_in(score: int) -> Option<int> {
    if score >= MATE_THRESHOLD {
        Some(div_toward_zero(MATE - score + 1, 2))
    } else if score <= -MATE_THRESHOLD {
        Some(-div_toward_zero(MATE + score + 1, 2))
    } else {
        None
    }
}

/// A mate `ply` plies away scores `MATE - ply`; read back it is mate in
/// `(ply + 1) / 2` moves, negative for the side being mated.
pub proof fn lemma_mate_in_plies(ply: int)
    requires
        1 <= ply <= MATE - MATE_THRESHOLD,
    ensures
        spec_mate_in(MATE - ply) == Some((ply + 1) / 2),
        spec_mate_in(-(MATE - ply)) == Some(-((ply + 1) / 2)),
{
}

/// If `score` is a forced-mate score, the mate distance in moves: positive if
/// the side to move is delivering mate, negative if being mated.
pub fn mate_in(score: i32) -> (r: Option<i32>)
    ensures
        r == match spec_mate_in(score as int) {
            Some(n) => Some(n as i32),
            None => None,
        },
{
    if score >= MATE_THRESHOLD {
        Some((MATE - score + 1) / 2)
    } else if score <= -MATE_THRESHOLD {
        Some(-((MATE + score + 1) / 2))
    } else {
        None
    }
}

/// A raw search score as a [`Score`]: a mate distance for mate scores, else
/// centipawns.
pub open spec fn spec_to_score(score: i32) -> Score {
    match spec_mate_in(score as int) {
        Some(n) => Score::Mate(n as i32),
        None => Score::Cp(score),
    }
}

/// A raw search score as a [`Score`]: a mate distance for mate scores, else
/// centipawns.
pub fn to_score(score: i32) -> (r: Score)
    ensures
        r == spec_to_score(score),
{
    match mate_in(score) {
        Some(n) => Score::Mate(n),
        None => Score::Cp(score),
    }
}

// ---------------------------------------------------------------------------
// Lines of play.

/// `moves` can be played one after the other from `pos`, each legal.
pub open spec fn is_line(pos: Position, moves: Seq<ChessMove>) -> bool
    decreases moves.len(),
{
    if moves.len() == 0 {
        true
    } else {
        chess_legal_moves(pos).contains(moves[0]) && is_line(
            chess_play(pos, moves[0]),
            moves.drop_first(),
        )
    }
}

proof fn lemma_line_cons(pos: Position, m: ChessMove, rest: Seq<ChessMove>)
    requires
        chess_legal_moves(pos).contains(m),
        is_line(chess_play(pos, m), rest),
    ensures
        is_line(pos, seq![m] + rest),
{
    assert((seq![m] + rest).drop_first() =~= rest);
}

// ---------------------------------------------------------------------------
// Material, which every capture or promotion lowers.

/// A pawn weighs 2, any other piece 1: captures remove a piece, promotions
/// turn a pawn into a piece, and both lower the total.
pub open spec fn weight(pc: Option<Piece>) -> int {
    match pc {
        None => 0,
        Some(p) => if p.role == PieceRole::Pawn {
            2
        } else {
            1
        },
    }
}

pub open spec fn material(b: Seq<Option<Piece>>) -> int
    decreases b.len(),
{
    if b.len() == 0 {
        0
    } else {
        material(b.drop_last()) + weight(b.last())
    }
}

/// Material is never negative.
pub proof fn lemma_material_nonneg(b: Seq<Option<Piece>>)
    ensures
        material(b) >= 0,
    decreases b.len(),
{
    if b.len() > 0 {
        lemma_material_nonneg(b.drop_last());
    }
}

proof fn lemma_material_update(b: Seq<Option<Piece>>, i: int, v: Option<Piece>)
    requires
        0 <= i < b.len(),
    ensures
        material(b.update(i, v)) == material(b) - weight(b[i]) + weight(v),
    decreases b.len(),
{
    if i < b.len() - 1 {
        lemma_material_update(b.drop_last(), i, v);
        assert(b.update(i, v).drop_last() =~= b.drop_last().update(i, v));
    } else {
        assert(b.update(i, v).drop_last() =~= b.drop_last());
    }
}

/// A legal capture or promotion lowers the material.
proof fn lemma_conversion_lowers_material(p: Position, m: ChessMove)
    requires
        legal_shape(p, m),
        m.spec_is_conversion(),
    ensures
        material(board_after(p, m)) < material(p.board()),
{
    let b = p.board();
    p.lemma_board();
    match m {
        ChessMove::Normal { role, from, capture, to, promotion } => {
            let placed = match promotion {
                Some(r) => r,
                None => role,
            };
            let b1 = b.update(from as int, None);
            lemma_material_update(b, from as int, None);
            lemma_material_update(b1, to as int, Some(Piece { color: p.spec_turn(), role: placed }));
        },
        ChessMove::EnPassant { from, to } => {
            let v = ep_victim_square(from, to);
            let b1 = b.update(v, None);
            let b2 = b1.update(from as int, None);
            lemma_material_update(b, v, None);
            lemma_material_update(b1, from as int, None);
            lemma_material_update(
                b2,
                to as int,
                Some(Piece { color: p.spec_turn(), role: PieceRole::Pawn }),
            );
        },
        _ => {},
    }
}

// ---------------------------------------------------------------------------
// Deadlines.

pub open spec fn spec_calc_deadline(limits: LimitsView, now: u64) -> Option<u64> {
    match limits.time_mode {
        TimeMode::Unbound => None,
        TimeMode::Fixed(d) => Some(sat_add(now as int, d as int)),
        TimeMode::Clock(c) => {
            let per_move = match c.moves_to_go {
                Some(m) => c.remaining / (if m < 1 {
                    1u32
                } else {
                    m
                }) as u64,
                None => c.remaining / 25,
            } + c.increment * 3 / 4;
            let cap = (if c.remaining < 100 {
                0
            } else {
                c.remaining - 100
            }) / 2;
            Some(sat_add(now as int, if per_move < cap { per_move } else { cap }))
        },
    }
}

/// On a clock, a move never gets more than half of what is left after a
/// 100 ms reserve.
pub proof fn lemma_deadline_cap(limits: LimitsView, now: u64)
    requires
        limits.time_mode is Clock,
    ensures
        ({
            let c = limits.time_mode->Clock_0;
            let cap = (if c.remaining < 100 {
                0
            } else {
                c.remaining - 100
            }) / 2;
            spec_calc_deadline(limits, now) matches Some(d) && d <= now + cap
        }),
{
}

/// The time a move may take on clock `c`: the remaining time shared over
/// the moves to go (at least one; 25 when unknown), plus three quarters of
/// the increment, but at most half of what is left after a 100 ms reserve.
pub open spec fn clock_budget(c: Clock) -> int {
    let moves: int = match c.moves_to_go {
        Some(m) => if m >= 1 {
            m as int
        } else {
            1
        },
        None => 25,
    };
    let share = (c.remaining as int) / moves + (3 * c.increment) / 4;
    let cap = if c.remaining >= 100 {
        (c.remaining - 100) / 2
    } else {
        0int
    };
    if share <= cap {
        share
    } else {
        cap
    }
}

/// On a clock the deadline is `now` plus `clock_budget`: the increment
/// counts whether or not the number of moves to go is known.
pub proof fn lemma_clock_deadline(limits: LimitsView, now: u64)
    requires
        limits.time_mode is Clock,
    ensures
        spec_calc_deadline(limits, now) == Some(sat_add(now as int, clock_budget(limits.time_mode->Clock_0))),
{
}

/// The increment always adds to a move's time until the cap: more increment
/// never gives an earlier deadline, and below the cap, with the moves to go
/// unknown, the deadline is exactly `now + remaining / 25 + 3/4 increment`.
pub proof fn lemma_increment_counts(limits: LimitsView, now: u64, c: Clock, inc2: u64)
    requires
        limits.time_mode == TimeMode::Clock(c),
        c.increment <= inc2,
    ensures
        spec_calc_deadline(limits, now)->Some_0 <= spec_calc_deadline(
            LimitsView { time_mode: TimeMode::Clock(Clock { increment: inc2, ..c }), ..limits },
            now,
        )->Some_0,
        c.moves_to_go is None && (c.remaining as int) / 25 + (3 * c.increment) / 4 <= (if c.remaining
            >= 100 {
            (c.remaining - 100) / 2
        } else {
            0int
        }) && now + (c.remaining as int) / 25 + (3 * c.increment) / 4 <= u64::MAX ==> spec_calc_deadline(
            limits,
            now,
        ) == Some((now + (c.remaining as int) / 25 + (3 * c.increment) / 4) as u64),
{
    lemma_clock_deadline(limits, now);
    lemma_clock_deadline(
        LimitsView { time_mode: TimeMode::Clock(Clock { increment: inc2, ..c }), ..limits },
        now,
    );
}

/// Addition capped at `u64::MAX`.
pub open spec fn sat_add(a: int, b: int) -> u64 {
    if a + b > u64::MAX {
        u64::MAX
    } else {
        (a + b) as u64
    }
}

/// When a search started at `now` (ms) must stop: never without a time limit,
/// after the fixed time, or, on a clock, after the remaining time divided over
/// the moves to go (25 if unknown) plus three quarters of the increment, but
/// never more than half of what is left after a 100 ms reserve.
pub fn calc_deadline(limits: &Limits, now: u64) -> (r: Option<u64>)
    ensures
        limits@.time_mode == TimeMode::Unbound ==> r is None,
        limits@.time_mode matches TimeMode::Fixed(d) ==> r == Some(sat_add(now as int, d as int)),
        limits@.time_mode matches TimeMode::Clock(c) ==> r == Some(
            sat_add(now as int, clock_budget(c)),
        ),
        r == spec_calc_deadline(limits@, now),
{
    match limits.time_mode {
        TimeMode::Unbound => None,
        TimeMode::Fixed(duration) => Some(now.saturating_add(duration)),
        TimeMode::Clock(clock) => {
            let base: u128 = match clock.moves_to_go {
                Some(m) => (clock.remaining / (if m < 1 { 1 } else { m }) as u64) as u128,
                None => (clock.remaining / 25) as u128,
            } + clock.increment as u128 * 3 / 4;
            let cap: u64 = clock.remaining.saturating_sub(100) / 2;
            let budget: u64 = if base < cap as u128 {
                base as u64
            } else {
                cap
            };
            Some(now.saturating_add(budget))
        },
    }
}

// ---------------------------------------------------------------------------
// Move ordering.

/// Move-ordering score tiers, from most to least promising. The gaps keep the
/// tiers from overlapping: captures/promotions always outrank killers, which
/// always outrank history-ordered quiets.
pub const HASH_MOVE_SCORE: i32 = 1_000_000;
pub const CAPTURE_BASE: i32 = 100_000;
pub const KILLER_1_SCORE: i32 = 90_000;
pub const KILLER_2_SCORE: i32 = 80_000;
pub const HISTORY_MAX: i32 = 70_000;

/// Two killer moves per ply, most recent first.
pub type Killers = (Option<ChessMove>, Option<ChessMove>);

pub open spec fn history_index(from: int, to: int) -> int {
    from * 64 + to
}

pub open spec fn spec_move_order_score(
    m: ChessMove,
    hash_move: Option<ChessMove>,
    killers: Killers,
    history: Seq<i32>,
) -> int {
    if Some(m) == hash_move {
        HASH_MOVE_SCORE as int
    } else {
        let capture_score = match m.spec_capture() {
            Some(victim) => CAPTURE_BASE + 10 * spec_piece_value(victim) - spec_piece_value(
                m.spec_role(),
            ),
            None => 0,
        };
        let tactical = match m.spec_promotion() {
            Some(promo) => (if capture_score > CAPTURE_BASE {
                capture_score
            } else {
                CAPTURE_BASE as int
            }) + 10 * spec_piece_value(promo),
            None => capture_score,
        };
        if tactical != 0 {
            tactical
        } else if Some(m) == killers.0 {
            KILLER_1_SCORE as int
        } else if Some(m) == killers.1 {
            KILLER_2_SCORE as int
        } else {
            match m.spec_from() {
                Some(from) => {
                    let h = history[history_index(from as int, m.spec_to() as int)] as int;
                    if h < HISTORY_MAX {
                        h
                    } else {
                        HISTORY_MAX as int
                    }
                },
                None => 0,
            }
        }
    }
}

proof fn lemma_piece_value_range(r: PieceRole)
    ensures
        0 <= spec_piece_value(r) <= 900,
        r != PieceRole::King ==> spec_piece_value(r) >= 100,
{
}

/// The ordering tiers never overlap: the hash move scores above every
/// capture or promotion, which score above the first killer, which scores
/// above the second, which scores above every quiet move ordered by history.
pub proof fn lemma_move_order_tiers(
    m: ChessMove,
    hash_move: Option<ChessMove>,
    killers: Killers,
    history: Seq<i32>,
)
    ensures
        Some(m) == hash_move ==> spec_move_order_score(m, hash_move, killers, history)
            == HASH_MOVE_SCORE,
        Some(m) != hash_move && (m.spec_capture() is Some || m.spec_promotion() is Some) ==> {
            let s = spec_move_order_score(m, hash_move, killers, history);
            KILLER_1_SCORE < s < HASH_MOVE_SCORE
        },
        Some(m) != hash_move && (m.spec_capture() is Some || m.spec_promotion() is Some)
            && m.spec_capture() != Some(PieceRole::King) && m.spec_promotion() != Some(
            PieceRole::King,
        ) && (m.spec_promotion() is Some ==> m.spec_role() == PieceRole::Pawn) ==> {
            let s = spec_move_order_score(m, hash_move, killers, history);
            CAPTURE_BASE < s <= 117_900
        },
        Some(m) != hash_move && m.spec_capture() is None && m.spec_promotion() is None ==> {
            let s = spec_move_order_score(m, hash_move, killers, history);
            if Some(m) == killers.0 {
                s == KILLER_1_SCORE
            } else if Some(m) == killers.1 {
                s == KILLER_2_SCORE
            } else {
                s <= HISTORY_MAX < KILLER_2_SCORE
            }
        },
{
    lemma_piece_value_range(m.spec_role());
    if let Some(v) = m.spec_capture() {
        lemma_piece_value_range(v);
    }
    if let Some(pr) = m.spec_promotion() {
        lemma_piece_value_range(pr);
    }
}

/// A legal move never takes a king, so a capture or promotion that is not
/// the hash move scores above `CAPTURE_BASE` and at most 117,900 (a pawn
/// taking a queen while promoting to one).
pub proof fn lemma_legal_tactical_bound(
    p: Position,
    m: ChessMove,
    hash_move: Option<ChessMove>,
    killers: Killers,
    history: Seq<i32>,
)
    requires
        legal_shape(p, m),
        Some(m) != hash_move,
        m.spec_capture() is Some || m.spec_promotion() is Some,
    ensures
        CAPTURE_BASE < spec_move_order_score(m, hash_move, killers, history) <= 117_900,
{
    lemma_move_order_tiers(m, hash_move, killers, history);
}

/// The ordering score of a move: the hash move first, then captures by
/// MVV-LVA and promotions, then the two killers, then quiet moves by history.
pub fn move_order_score(
    m: ChessMove,
    hash_move: Option<ChessMove>,
    killers: Killers,
    history: &Vec<i32>,
) -> (r: i32)
    requires
        history@.len() == 4096,
        m.spec_from() matches Some(f) ==> f < 64,
        m.spec_to() < 64,
    ensures
        r == spec_move_order_score(m, hash_move, killers, history@),
{
    if Some(m) == hash_move {
        return HASH_MOVE_SCORE;
    }
    // Captures and promotions form the "tactical" tier.
    let mut tactical: i32 = 0;
    if let Some(victim) = m.capture() {
        // MVV-LVA: most valuable victim, least valuable attacker.
        tactical = CAPTURE_BASE + 10 * piece_value(victim) - piece_value(m.role());
    }
    if let Some(promo) = m.promotion() {
        tactical = (if tactical > CAPTURE_BASE {
            tactical
        } else {
            CAPTURE_BASE
        }) + 10 * piece_value(promo);
    }
    if tactical != 0 {
        return tactical;
    }
    // Quiet moves: killers first, then the history table orders the rest.
    if Some(m) == killers.0 {
        return KILLER_1_SCORE;
    }
    if Some(m) == killers.1 {
        return KILLER_2_SCORE;
    }
    match m.from() {
        Some(from) => {
            let h = history[from as usize * 64 + m.to() as usize];
            if h < HISTORY_MAX {
                h
            } else {
                HISTORY_MAX
            }
        },
        None => 0,
    }
}

/// Keys never increase along `s`.
pub open spec fn sorted_desc(s: Seq<(i32, ChessMove)>) -> bool {
    forall|i: int, j: int| 0 <= i < j < s.len() ==> s[i].0 >= s[j].0
}

/// Insert `item` after every entry whose key is at least its key.
fn insert_sorted(v: &mut Vec<(i32, ChessMove)>, item: (i32, ChessMove)) -> (at: usize)
    requires
        sorted_desc(old(v)@),
    ensures
        sorted_desc(final(v)@),
        final(v)@.to_multiset() == old(v)@.to_multiset().insert(item),
        final(v)@.len() == old(v)@.len() + 1,
        at <= old(v)@.len(),
        final(v)@ == old(v)@.insert(at as int, item),
{
    let mut pos = v.len();
    while pos > 0 && v[pos - 1].0 < item.0
        invariant
            pos <= v@.len(),
            v@ == old(v)@,
            sorted_desc(v@),
            forall|k: int| pos <= k < v@.len() ==> v@[k].0 < item.0,
        decreases pos,
    {
        pos = pos - 1;
    }
    let ghost before = v@;
    v.insert(pos, item);
    proof {
        before.insert_ensures(pos as int, item);
        assert(v@ == before.insert(pos as int, item));
        assert(v@.remove(pos as int) =~= before);
        v@.to_multiset_ensures();
        assert(v@.to_multiset().remove(item) == before.to_multiset());
        assert(v@.to_multiset() =~= before.to_multiset().insert(item));
    }
    pos
}

/// The moves of keyed entries, in order.
pub open spec fn moves_of(keyed: Seq<(i32, ChessMove)>) -> Seq<ChessMove> {
    keyed.map_values(|x: (i32, ChessMove)| x.1)
}

/// Inserting into a sequence adds the item to its multiset.
proof fn lemma_insert_multiset<A>(s: Seq<A>, i: int, a: A)
    requires
        0 <= i <= s.len(),
    ensures
        s.insert(i, a).to_multiset() == s.to_multiset().insert(a),
{
    s.insert_ensures(i, a);
    assert(s.insert(i, a).remove(i) =~= s);
    s.insert(i, a).to_multiset_ensures();
    assert(s.insert(i, a).to_multiset() =~= s.to_multiset().insert(a));
}

/// Some entry of `keyed` carries move `m`.
pub open spec fn appears(keyed: Seq<(i32, ChessMove)>, m: ChessMove) -> bool {
    exists|k: int| 0 <= k < keyed.len() && (#[trigger] keyed[k]).1 == m
}

/// All legal moves of `pos`, best guess first: sorted by descending
/// `move_order_score`, moves of equal score in generation order.
fn ordered_moves(
    pos: &Position,
    hash_move: Option<ChessMove>,
    killers: Killers,
    history: &Vec<i32>,
) -> (r: Vec<ChessMove>)
    requires
        history@.len() == 4096,
    ensures
        r@.len() == chess_legal_moves(*pos).len(),
        r@.to_multiset() == chess_legal_moves(*pos).to_multiset(),
        forall|i: int| 0 <= i < r@.len() ==> chess_legal_moves(*pos).contains(#[trigger] r@[i]),
        forall|i: int| 0 <= i < r@.len() ==> legal_shape(*pos, #[trigger] r@[i]),
        forall|m: ChessMove| chess_legal_moves(*pos).contains(m) ==> r@.contains(m),
        forall|i: int, j: int|
            0 <= i < j < r@.len() ==> spec_move_order_score(#[trigger] r@[i], hash_move, killers, history@)
                >= spec_move_order_score(#[trigger] r@[j], hash_move, killers, history@),
{
    let moves = legal_moves(pos);
    let mut keyed: Vec<(i32, ChessMove)> = Vec::new();
    let mut i: usize = 0;
    assert(moves_of(keyed@) =~= moves@.subrange(0, 0));
    while i < moves.len()
        invariant
            i <= moves@.len(),
            moves@ == chess_legal_moves(*pos),
            forall|k: int| 0 <= k < moves@.len() ==> legal_shape(*pos, #[trigger] moves@[k]),
            history@.len() == 4096,
            sorted_desc(keyed@),
            keyed@.len() == i,
            moves_of(keyed@).to_multiset() == moves@.subrange(0, i as int).to_multiset(),
            forall|k: int|
                0 <= k < keyed@.len() ==> moves@.subrange(0, i as int).contains(
                    (#[trigger] keyed@[k]).1,
                ),
            forall|t: int| 0 <= t < i ==> appears(keyed@, #[trigger] moves@[t]),
            forall|k: int|
                0 <= k < keyed@.len() ==> (#[trigger] keyed@[k]).0 == spec_move_order_score(
                    keyed@[k].1,
                    hash_move,
                    killers,
                    history@,
                ),
        decreases moves@.len() - i,
    {
        let m = moves[i];
        assert(legal_shape(*pos, moves@[i as int]));
        let item = (move_order_score(m, hash_move, killers, history), m);
        let ghost old_keyed = keyed@;
        let at = insert_sorted(&mut keyed, item);
        proof {
            assert(moves_of(keyed@) =~= moves_of(old_keyed).insert(at as int, m));
            lemma_insert_multiset(moves_of(old_keyed), at as int, m);
            assert(moves@.subrange(0, i + 1) =~= moves@.subrange(0, i as int).push(m));
            moves@.subrange(0, i as int).to_multiset_ensures();
            keyed@.to_multiset_ensures();
            old_keyed.to_multiset_ensures();
            assert forall|k: int| 0 <= k < keyed@.len() implies moves@.subrange(
                0,
                i + 1,
            ).contains((#[trigger] keyed@[k]).1) by {
                let x = keyed@[k];
                assert(keyed@.contains(x));
                assert(keyed@.to_multiset().count(x) > 0);
                if x == item {
                    assert(moves@.subrange(0, i + 1)[i as int] == m);
                } else {
                    assert(old_keyed.to_multiset().count(x) > 0);
                    assert(old_keyed.contains(x));
                    let j = choose|j: int| 0 <= j < old_keyed.len() && old_keyed[j] == x;
                    assert(moves@.subrange(0, i as int).contains(old_keyed[j].1));
                    let t = choose|t: int|
                        0 <= t < i && moves@.subrange(0, i as int)[t] == old_keyed[j].1;
                    assert(moves@.subrange(0, i + 1)[t] == x.1);
                }
            }
            assert forall|k: int| 0 <= k < keyed@.len() implies (#[trigger] keyed@[k]).0
                == spec_move_order_score(keyed@[k].1, hash_move, killers, history@) by {
                let x = keyed@[k];
                assert(keyed@.contains(x));
                assert(keyed@.to_multiset().count(x) > 0);
                if x != item {
                    assert(old_keyed.to_multiset().count(x) > 0);
                    assert(old_keyed.contains(x));
                    let j = choose|j: int| 0 <= j < old_keyed.len() && old_keyed[j] == x;
                    assert(old_keyed[j].0 == spec_move_order_score(
                        old_keyed[j].1,
                        hash_move,
                        killers,
                        history@,
                    ));
                }
            }
            assert forall|t: int| 0 <= t < i + 1 implies appears(keyed@, #[trigger] moves@[t]) by {
                if t == i {
                    assert(keyed@.to_multiset().count(item) > 0);
                    assert(keyed@.contains(item));
                    let k = choose|k: int| 0 <= k < keyed@.len() && keyed@[k] == item;
                    assert(keyed@[k].1 == moves@[t]);
                } else {
                    assert(appears(old_keyed, moves@[t]));
                    let k0 = choose|k: int| 0 <= k < old_keyed.len() && (#[trigger] old_keyed[k]).1
                        == moves@[t];
                    let x = old_keyed[k0];
                    assert(old_keyed.contains(x));
                    assert(old_keyed.to_multiset().count(x) > 0);
                    assert(keyed@.to_multiset().count(x) > 0);
                    assert(keyed@.contains(x));
                    let k = choose|k: int| 0 <= k < keyed@.len() && keyed@[k] == x;
                    assert(keyed@[k].1 == moves@[t]);
                }
            }
        }
        i = i + 1;
    }
    assert(moves@.subrange(0, moves@.len() as int) =~= moves@);
    let mut out: Vec<ChessMove> = Vec::new();
    let mut j: usize = 0;
    while j < keyed.len()
        invariant
            j <= keyed@.len(),
            keyed@.len() == moves@.len(),
            moves@ == chess_legal_moves(*pos),
            out@.len() == j,
            forall|k: int|
                0 <= k < keyed@.len() ==> moves@.subrange(0, moves@.len() as int).contains(
                    (#[trigger] keyed@[k]).1,
                ),
            forall|k: int| 0 <= k < j ==> out@[k] == (#[trigger] keyed@[k]).1,
            moves_of(keyed@).to_multiset() == moves@.to_multiset(),
            forall|t: int| 0 <= t < moves@.len() ==> appears(keyed@, #[trigger] moves@[t]),
            forall|k: int| 0 <= k < moves@.len() ==> legal_shape(*pos, #[trigger] moves@[k]),
            sorted_desc(keyed@),
            forall|k: int|
                0 <= k < keyed@.len() ==> (#[trigger] keyed@[k]).0 == spec_move_order_score(
                    keyed@[k].1,
                    hash_move,
                    killers,
                    history@,
                ),
        decreases keyed@.len() - j,
    {
        out.push(keyed[j].1);
        j = j + 1;
    }
    proof {
        assert(moves@.subrange(0, moves@.len() as int) =~= moves@);
        assert(out@ =~= moves_of(keyed@));
        assert forall|k: int| 0 <= k < out@.len() implies chess_legal_moves(*pos).contains(
            #[trigger] out@[k],
        ) by {
            assert(out@[k] == keyed@[k].1);
        }
        assert forall|a: int, b: int| 0 <= a < b < out@.len() implies spec_move_order_score(
            #[trigger] out@[a],
            hash_move,
            killers,
            history@,
        ) >= spec_move_order_score(#[trigger] out@[b], hash_move, killers, history@) by {
            assert(out@[a] == keyed@[a].1);
            assert(out@[b] == keyed@[b].1);
            assert(keyed@[a].0 >= keyed@[b].0);
        }
    }
    out
}

fn is_quiet(m: ChessMove) -> (r: bool)
    ensures
        r == (m.spec_capture() is None && m.spec_promotion() is None),
{
    m.capture().is_none() && m.promotion().is_none()
}

pub open spec fn has_piece_beyond_pawns(pos: Position, n: int) -> bool {
    exists|sq: int|
        0 <= sq < n && (#[trigger] pos.piece_at(sq) matches Some(p) && p.color == pos.spec_turn()
            && p.role != PieceRole::Pawn && p.role != PieceRole::King)
}

/// Whether the side to move has any piece beyond pawns and the king. Used to
/// disable null-move pruning in likely-zugzwang (pawn-only) positions.
fn has_non_pawn_material(pos: &Position) -> (r: bool)
    ensures
        r == has_piece_beyond_pawns(*pos, 64),
{
    let turn = pos.turn();
    let mut sq: u8 = 0;
    while sq < 64
        invariant
            sq <= 64,
            turn == pos.spec_turn(),
            !has_piece_beyond_pawns(*pos, sq as int),
        decreases 64 - sq,
    {
        if let Some(p) = pos.piece_on(sq) {
            if p.color == turn && p.role != PieceRole::Pawn && p.role != PieceRole::King {
                assert(pos.piece_at(sq as int) matches Some(p) && p.color == pos.spec_turn()
                    && p.role != PieceRole::Pawn && p.role != PieceRole::King);
                return true;
            }
        }
        sq = sq + 1;
    }
    false
}

/// How many plies to shave off a late quiet move: at least 1, and small enough
/// that the reduced search keeps at least one ply.
pub fn lmr_reduction(depth: u8, move_count: usize) -> (r: u8)
    requires
        depth >= 3,
    ensures
        1 <= r <= depth - 2,
        r == ({
            let s = crate::lmr::spec_reduction(depth as int, move_count as int);
            if s < 1 {
                1
            } else if s > depth - 2 {
                depth - 2
            } else {
                s
            }
        }),
{
    let r = crate::lmr::reduction_of(depth, move_count);
    if r < 1 {
        1
    } else if r > depth - 2 {
        depth - 2
    } else {
        r
    }
}

/// The score of a finished game at `ply`: a win for the side to move is
/// `MATE - ply` (faster mates score higher), a loss its negation, a draw 0.
pub open spec fn spec_leaf_score(pos: Position, ply: int) -> int {
    match chess_outcome(pos) {
        Some(KnownOutcome::Decisive { winner }) => if winner == pos.spec_turn() {
            MATE - ply
        } else {
            -(MATE - ply)
        },
        Some(KnownOutcome::Draw) => 0,
        None => spec_evaluate(pos),
    }
}

fn leaf_score(pos: &Position, ply: u8) -> (r: i32)
    ensures
        chess_outcome(*pos) == Some(KnownOutcome::Draw) ==> r == 0,
        chess_outcome(*pos) == Some(KnownOutcome::Decisive { winner: pos.spec_turn() }) ==> r == MATE
            - ply,
        chess_outcome(*pos) == Some(KnownOutcome::Decisive { winner: pos.spec_turn().spec_other() })
            ==> r == -(MATE - ply),
        r == spec_leaf_score(*pos, ply as int),
        in_band(r as int, ply as int),
{
    match outcome(pos) {
        Some(KnownOutcome::Decisive { winner }) => {
            let mate = MATE - ply as i32;  // Prefer faster mates
            if winner == pos.turn() {
                mate
            } else {
                -mate
            }
        },
        Some(KnownOutcome::Draw) => 0,
        None => evaluate(pos),
    }
}

// ---------------------------------------------------------------------------
// The engine.

pub struct SearchContext {
    /// The depth of the last completed iteration.
    pub depth: u8,
    pub node_count: u64,
    /// The principal variation of the last completed iteration.
    pub pv: Vec<ChessMove>,
    pub limits: Limits,
    pub limits_seq: u64,
    /// When to stop, in milliseconds since the search started.
    pub deadline: Option<u64>,
    /// The root moves the current search may play (UCI `searchmoves`), fixed
    /// when the search starts.
    pub root_moves: Option<Vec<ChessMove>>,
    pub node_check_count: u64,
    /// Two "killer" quiet moves per ply: quiet moves that recently caused a
    /// beta cutoff at this distance from the root.
    pub killers: Vec<Killers>,
    /// `history[from * 64 + to]`: how much a quiet move from→to has caused
    /// cutoffs anywhere in the tree.
    pub history: Vec<i32>,
}

impl SearchContext {
    pub closed spec fn wf(&self) -> bool {
        &&& self.killers@.len() == MAX_PLY
        &&& self.history@.len() == 4096
    }

    pub fn new() -> (r: Self)
        ensures
            r.wf(),
            r.depth == 0,
            r.node_count == 0,
            r.pv@.len() == 0,
            r.limits@ == (LimitsView {
                time_mode: TimeMode::Unbound,
                max_depth: None,
                max_nodes: None,
                restrict_to: None,
            }),
            r.limits_seq == 0,
            r.deadline is None,
            r.root_moves is None,
            r.history@ == Seq::new(4096, |i: int| 0i32),
    {
        SearchContext {
            depth: 0,
            node_count: 0,
            pv: Vec::new(),
            limits: Limits::default(),
            limits_seq: 0,
            deadline: None,
            root_moves: None,
            node_check_count: 0,
            killers: vec![(None, None); MAX_PLY],
            history: vec![0; 4096],
        }
    }
}

impl Default for SearchContext {
    fn default() -> (r: Self)
        ensures
            r.wf(),
    {
        Self::new()
    }
}

/// Keep two distinct killers at `ply`, most recent first.
fn record_killer(ctx: &mut SearchContext, ply: usize, m: ChessMove)
    requires
        old(ctx).wf(),
        ply < MAX_PLY,
    ensures
        final(ctx).wf(),
        final(ctx).history == old(ctx).history,
        final(ctx).killers@ == (if old(ctx).killers@[ply as int].0 != Some(m) {
            old(ctx).killers@.update(ply as int, (Some(m), old(ctx).killers@[ply as int].0))
        } else {
            old(ctx).killers@
        }),
        final(ctx).depth == old(ctx).depth,
        final(ctx).node_count == old(ctx).node_count,
        final(ctx).pv == old(ctx).pv,
        final(ctx).limits == old(ctx).limits,
        final(ctx).limits_seq == old(ctx).limits_seq,
        final(ctx).deadline == old(ctx).deadline,
        final(ctx).node_check_count == old(ctx).node_check_count,
        final(ctx).root_moves == old(ctx).root_moves,
{
    let k = ctx.killers[ply];
    if k.0 != Some(m) {
        ctx.killers.set(ply, (Some(m), k.0));
    }
}

/// A history counter after a reward of `bonus`: added, saturating at
/// `i32::MAX`.
pub open spec fn rewarded(h: i32, bonus: int) -> i32 {
    if h + bonus > i32::MAX {
        i32::MAX
    } else {
        (h + bonus) as i32
    }
}

/// Reward a quiet move `m` that caused a beta cutoff with `depth` plies to
/// go: it becomes the first killer at `ply`, and its from→to history
/// counter grows by `depth * depth` (deeper cutoffs are worth more).
fn reward_quiet(ctx: &mut SearchContext, ply: usize, m: ChessMove, depth: u8)
    requires
        old(ctx).wf(),
        ply < MAX_PLY,
        crate::rules::on_board(m),
    ensures
        final(ctx).wf(),
        final(ctx).killers@ == (if old(ctx).killers@[ply as int].0 != Some(m) {
            old(ctx).killers@.update(ply as int, (Some(m), old(ctx).killers@[ply as int].0))
        } else {
            old(ctx).killers@
        }),
        final(ctx).history@ == match m.spec_from() {
            Some(f) => {
                let i = history_index(f as int, m.spec_to() as int);
                old(ctx).history@.update(i, rewarded(old(ctx).history@[i], depth * depth))
            },
            None => old(ctx).history@,
        },
        final(ctx).depth == old(ctx).depth,
        final(ctx).node_count == old(ctx).node_count,
        final(ctx).pv == old(ctx).pv,
        final(ctx).limits == old(ctx).limits,
        final(ctx).limits_seq == old(ctx).limits_seq,
        final(ctx).deadline == old(ctx).deadline,
        final(ctx).node_check_count == old(ctx).node_check_count,
        final(ctx).root_moves == old(ctx).root_moves,
{
    record_killer(ctx, ply, m);
    if let Some(from) = m.from() {
        let idx: usize = from as usize * 64 + m.to() as usize;
        assert(depth as i32 * depth as i32 <= 65025) by (nonlinear_arith)
            requires
                depth <= 255,
        ;
        let bonus: i32 = depth as i32 * depth as i32;
        let old_h = ctx.history[idx];
        // Saturates: the history counter never wraps.
        let h = if old_h > i32::MAX - bonus {
            i32::MAX
        } else {
            old_h + bonus
        };
        ctx.history.set(idx, h);
    }
}

/// Playing `m` in `p` checkmates the opponent: the game is over, won by the
/// side that moved.
#[verifier::opaque]
pub open spec fn mates(p: Position, m: ChessMove) -> bool {
    &&& chess_legal_moves(p).contains(m)
    &&& chess_is_game_over(chess_play(p, m))
    &&& chess_outcome(chess_play(p, m)) == Some(KnownOutcome::Decisive { winner: p.spec_turn() })
}

/// The depth a node searches with: one more while in check (the check
/// extension), up to `MAX_PLY`.
pub open spec fn extended_depth(p: Position, depth: int, ply: int) -> int {
    if chess_is_check(p) && ply < MAX_PLY {
        depth + 1
    } else {
        depth
    }
}

/// What a move's child value `c` (one ply down) says at the node: its
/// negation stays within `MATE - 1 - ply`, and reaches it exactly when the
/// move mates.
proof fn lemma_child_score(p: Position, m: ChessMove, c: int, ply: int)
    requires
        0 <= ply <= 255,
        chess_legal_moves(p).contains(m),
        chess_play(p, m).spec_turn() == p.spec_turn().spec_other(),
        chess_is_game_over(chess_play(p, m)) ==> c == spec_leaf_score(chess_play(p, m), ply + 1),
        !chess_is_game_over(chess_play(p, m)) ==> -(MATE - 2 - ply) <= c <= MATE - 2 - ply,
    ensures
        -(MATE - 1 - ply) <= -c <= MATE - 1 - ply,
        -c == MATE - 1 - ply <==> mates(p, m),
{
    reveal(mates);
    let q = chess_play(p, m);
    assert(p.spec_turn().spec_other() != p.spec_turn());
    if chess_is_game_over(q) {
        assert(-EVAL_BOUND <= spec_evaluate(q) <= EVAL_BOUND);
        match chess_outcome(q) {
            Some(KnownOutcome::Decisive { winner }) => {
                if winner != q.spec_turn() {
                    assert(winner == p.spec_turn()) by {
                        match winner {
                            Color::White => {},
                            Color::Black => {},
                        }
                        match p.spec_turn() {
                            Color::White => {},
                            Color::Black => {},
                        }
                    }
                }
            },
            _ => {},
        }
    }
}

/// A mating move is a legal move.
proof fn lemma_mate_is_legal(p: Position, m: ChessMove)
    requires
        mates(p, m),
    ensures
        chess_legal_moves(p).contains(m),
{
    reveal(mates);
}

/// No history counter is lower in `after` than in `before`.
#[verifier::opaque]
pub open spec fn history_grows(before: Seq<i32>, after: Seq<i32>) -> bool {
    &&& after.len() == before.len()
    &&& forall|i: int| 0 <= i < before.len() ==> #[trigger] after[i] >= before[i]
}

/// The from→to counter of a quiet move `m` rose from its value in `before`
/// by at least the reward of a cutoff at `depth` plies to go.
pub open spec fn move_rewarded(before: Seq<i32>, after: Seq<i32>, m: ChessMove, depth: int) -> bool {
    m.spec_capture() is None && m.spec_promotion() is None ==> (m.spec_from() matches Some(f) ==> after[history_index(
        f as int,
        m.spec_to() as int,
    )] >= rewarded(before[history_index(f as int, m.spec_to() as int)], depth * depth))
}

proof fn lemma_history_grows_refl(h: Seq<i32>)
    ensures
        history_grows(h, h),
{
    reveal(history_grows);
}

proof fn lemma_history_grows_trans(a: Seq<i32>, b: Seq<i32>, c: Seq<i32>)
    requires
        history_grows(a, b),
        history_grows(b, c),
    ensures
        history_grows(a, c),
{
    reveal(history_grows);
    assert forall|i: int| 0 <= i < a.len() implies #[trigger] c[i] >= a[i] by {
        assert(b[i] >= a[i]);
    }
}

/// A reward after a quiet cutoff keeps the history growing, and the move's
/// counter is rewarded relative to any earlier table it grew from.
proof fn lemma_reward_step(start: Seq<i32>, before: Seq<i32>, after: Seq<i32>, m: ChessMove, depth: int)
    requires
        history_grows(start, before),
        before.len() == 4096,
        0 <= depth,
        on_board(m),
        m.spec_capture() is None && m.spec_promotion() is None,
        after == match m.spec_from() {
            Some(f) => {
                let i = history_index(f as int, m.spec_to() as int);
                before.update(i, rewarded(before[i], depth * depth))
            },
            None => before,
        },
    ensures
        history_grows(start, after),
        move_rewarded(start, after, m, depth),
{
    reveal(history_grows);
    assert(depth * depth >= 0) by (nonlinear_arith)
        requires
            0 <= depth,
    ;
    if let Some(f) = m.spec_from() {
        let i = history_index(f as int, m.spec_to() as int);
        assert(0 <= i < 4096);
        assert(before[i] >= start[i]);
        assert forall|j: int| 0 <= j < start.len() implies #[trigger] after[j] >= start[j] by {
            assert(before[j] >= start[j]);
        }
    }
}

/// `p` has a mate in one among the moves `restrict` allows.
pub open spec fn has_mate_in_one(p: Position, restrict: Option<Seq<ChessMove>>) -> bool {
    exists|m: ChessMove| mates(p, m) && root_allows(restrict, m)
}

/// One move's search below a node: the move, then the depth, the window
/// `(alpha, beta)` and the result of the last search of the position it
/// leads to.
pub type ChildSearch = (ChessMove, int, int, int, int);

/// What a node that searched its moves returns, `s`, says of them (`rec`,
/// in the order searched): every move is legal (and allowed at the root);
/// `s` is the best of their negated results; below `beta`, every move was
/// searched; and strictly inside the window, `s` is the negated exact result
/// of a full-window, full-depth search of the line's first move.
pub open spec fn node_result(
    p: Position,
    restrict: Option<Seq<ChessMove>>,
    ply: int,
    alpha: int,
    beta: int,
    depth: int,
    rec: Seq<ChildSearch>,
    s: int,
    pv: Seq<ChessMove>,
) -> bool {
    &&& forall|k: int|
        0 <= k < rec.len() ==> chess_legal_moves(p).contains((#[trigger] rec[k]).0) && (ply == 0
            ==> root_allows(restrict, rec[k].0))
    &&& forall|k: int| 0 <= k < rec.len() ==> -(#[trigger] rec[k]).4 <= s
    &&& rec.len() > 0 ==> exists|k: int| 0 <= k < rec.len() && -(#[trigger] rec[k]).4 == s
    &&& rec.len() == 0 ==> s == -(MATE + 1)
    &&& s < beta ==> forall|m: ChessMove|
        #![trigger chess_legal_moves(p).contains(m)]
        chess_legal_moves(p).contains(m) && (ply == 0 ==> root_allows(restrict, m)) ==> exists|k: int|
            0 <= k < rec.len() && (#[trigger] rec[k]).0 == m
    &&& alpha < s < beta ==> pv.len() > 0 && exists|k: int|
        0 <= k < rec.len() && (#[trigger] rec[k]).0 == pv[0] && -rec[k].4 == s && rec[k].1 == depth - 1
            && rec[k].2 == -beta && rec[k].2 < rec[k].4 < rec[k].3
}

/// What the move loop of a node establishes gives `node_result`.
proof fn lemma_node_result(
    p: Position,
    restrict: Option<Seq<ChessMove>>,
    ply: int,
    alpha: int,
    beta: int,
    depth: int,
    rec: Seq<ChildSearch>,
    s: int,
    pv: Seq<ChessMove>,
    moves: Seq<ChessMove>,
    alpha_end: int,
    cut: bool,
)
    requires
        alpha < beta,
        rec.len() <= moves.len(),
        !cut ==> rec.len() == moves.len(),
        cut ==> s >= beta,
        forall|k: int| 0 <= k < rec.len() ==> (#[trigger] rec[k]).0 == moves[k],
        forall|k: int| 0 <= k < moves.len() ==> chess_legal_moves(p).contains(#[trigger] moves[k]),
        ply == 0 ==> forall|k: int| 0 <= k < moves.len() ==> root_allows(restrict, #[trigger] moves[k]),
        forall|mm: ChessMove|
            chess_legal_moves(p).contains(mm) && (ply == 0 ==> root_allows(restrict, mm)) ==> moves.contains(mm),
        forall|k: int| 0 <= k < rec.len() ==> -(#[trigger] rec[k]).4 <= s,
        rec.len() > 0 ==> exists|k: int| 0 <= k < rec.len() && -(#[trigger] rec[k]).4 == s,
        rec.len() == 0 ==> s == -(MATE + 1),
        alpha_end == (if s > alpha { s } else { alpha }),
        alpha_end > alpha && alpha_end < beta ==> pv.len() > 0 && exists|k: int|
            0 <= k < rec.len() && (#[trigger] rec[k]).0 == pv[0] && -rec[k].4 == alpha_end && rec[k].1
                == depth - 1 && rec[k].2 == -beta && rec[k].2 < rec[k].4 < rec[k].3,
    ensures
        node_result(p, restrict, ply, alpha, beta, depth, rec, s, pv),
{
    assert forall|k: int| 0 <= k < rec.len() implies chess_legal_moves(p).contains(
        (#[trigger] rec[k]).0,
    ) && (ply == 0 ==> root_allows(restrict, rec[k].0)) by {
        assert(rec[k].0 == moves[k]);
    }
    if s < beta {
        assert forall|m: ChessMove|
            #![trigger chess_legal_moves(p).contains(m)]
            chess_legal_moves(p).contains(m) && (ply == 0 ==> root_allows(restrict, m)) implies exists|
            k: int,
        | 0 <= k < rec.len() && (#[trigger] rec[k]).0 == m by {
            assert(moves.contains(m));
            let j = choose|j: int| 0 <= j < moves.len() && moves[j] == m;
            assert(rec[j].0 == m);
        }
    }
}

/// Every stored score is a root-relative score.
pub open spec fn tt_scores_bounded(t: Seq<TtEntry>) -> bool {
    forall|i: int| 0 <= i < t.len() ==> -(MATE - 1) <= #[trigger] t[i].score <= MATE - 1
}

/// The number of plies that may still be searched below a node at `ply` with
/// `depth` plies to go: its depth plus the check extensions left.
pub open spec fn budget(depth: int, ply: int) -> int {
    depth + if ply < MAX_PLY {
        MAX_PLY - ply
    } else {
        0
    }
}

/// The moves the root may play: all of them, or those of `restrict`.
pub open spec fn root_allows(restrict: Option<Seq<ChessMove>>, m: ChessMove) -> bool {
    match restrict {
        None => true,
        Some(r) => r.contains(m),
    }
}

/// The project's search engine.
pub struct SearchEngine {
    tt: Tt,
    pos: Position,
    search_handle: SearchHandle,
    search_ctx: SearchContext,
    start: Instant,
    /// The depth and score of each iteration of the last search, in the
    /// order they completed and were reported, with the root's searched
    /// moves.
    reports: Ghost<Seq<(u8, i32, Seq<ChildSearch>)>>,
    /// The children of the node `negamax` finished last, when it searched
    /// them: each move with the depth, window and result of its last search.
    node: Ghost<Option<Seq<ChildSearch>>>,
}

impl SearchEngine {
    pub closed spec fn engine_wf(&self) -> bool {
        &&& self.tt.wf()
        &&& tt_scores_bounded(self.tt@)
        &&& self.search_ctx.wf()
    }

    /// The last completed iteration's principal variation.
    pub closed spec fn spec_pv(&self) -> Seq<ChessMove> {
        self.search_ctx.pv@
    }

    /// The transposition table's slots.
    pub closed spec fn table(&self) -> Seq<TtEntry> {
        self.tt@
    }

    /// The depth of the last completed iteration.
    pub closed spec fn spec_depth(&self) -> u8 {
        self.search_ctx.depth
    }

    /// The children searched by the node `negamax` finished last, if it
    /// searched its moves.
    pub closed spec fn spec_node(&self) -> Option<Seq<ChildSearch>> {
        self.node@
    }

    /// The depth and score of each completed iteration of the last search,
    /// in the order they were reported, with the root's searched moves.
    pub closed spec fn spec_reports(&self) -> Seq<(u8, i32, Seq<ChildSearch>)> {
        self.reports@
    }

    /// The root moves the current search may play.
    pub closed spec fn spec_root_moves(&self) -> Option<Seq<ChessMove>> {
        moves_view(self.search_ctx.root_moves)
    }

    /// The limits the search is working with.
    pub closed spec fn spec_limits(&self) -> LimitsView {
        self.search_ctx.limits@
    }

    /// `tt_mb`: transposition-table size in MiB.
    pub fn new(tt_mb: usize) -> (r: Self)
        requires
            tt_mb * 1048576 <= usize::MAX,
        ensures
            r.engine_wf(),
            r.position_spec() == Position::initial(),
            r.spec_depth() == 0,
            r.spec_pv().len() == 0,
            r.table().len() == crate::tt::spec_entry_count(tt_mb as nat, crate::tt::entry_bytes()),
            crate::tt::all_empty(r.table()),
            r.spec_limits() == (LimitsView {
                time_mode: TimeMode::Unbound,
                max_depth: None,
                max_nodes: None,
                restrict_to: None,
            }),
            r.spec_root_moves() is None,
            r.spec_reports().len() == 0,
            r.spec_node() is None,
    {
        let tt = Tt::new(tt_mb);
        proof {
            tt.lemma_wf();
        }
        assert(tt_scores_bounded(tt@)) by {
            assert forall|i: int| 0 <= i < tt@.len() implies -(MATE - 1) <= #[trigger] tt@[i].score
                <= MATE - 1 by {
                assert(tt@[i] == crate::tt::empty_entry());
            }
        }
        SearchEngine {
            tt,
            pos: crate::rules::start_position(),
            search_handle: SearchHandle::default(),
            search_ctx: SearchContext::new(),
            start: now(),
            reports: Ghost(Seq::empty()),
            node: Ghost(None),
        }
    }

    /// The position the engine searches.
    pub closed spec fn position_spec(&self) -> Position {
        self.pos
    }

    /// The position the engine searches.
    pub fn position(&self) -> (r: Position)
        ensures
            r == self.position_spec(),
    {
        self.pos
    }

}

/// The view of an optional move list.
pub open spec fn moves_view(v: Option<Vec<ChessMove>>) -> Option<Seq<ChessMove>> {
    match v {
        Some(v) => Some(v@),
        None => None,
    }
}

/// `pos` has a legal move that `restrict` allows.
pub open spec fn has_allowed_move(pos: Position, restrict: Option<Seq<ChessMove>>) -> bool {
    exists|m: ChessMove| chess_legal_moves(pos).contains(m) && root_allows(restrict, m)
}

/// The moves of `moves` that `restrict` allows, in order.
fn filter_root_moves(moves: Vec<ChessMove>, restrict: &Option<Vec<ChessMove>>) -> (r: Vec<
    ChessMove,
>)
    ensures
        forall|m: ChessMove| #[trigger] r@.contains(m) <==> (moves@.contains(m) && root_allows(moves_view(*restrict), m)),
        forall|k: int| 0 <= k < r@.len() ==> moves@.contains(#[trigger] r@[k]),
{
    match restrict {
        None => moves,
        Some(allowed) => {
            let mut out: Vec<ChessMove> = Vec::new();
            let mut i: usize = 0;
            while i < moves.len()
                invariant
                    i <= moves@.len(),
                    forall|m: ChessMove| #[trigger] out@.contains(m) <==> (moves@.subrange(0, i as int).contains(m)
                        && allowed@.contains(m)),
                decreases moves@.len() - i,
            {
                let m = moves[i];
                let mut found = false;
                let mut j: usize = 0;
                while j < allowed.len()
                    invariant
                        j <= allowed@.len(),
                        found == allowed@.subrange(0, j as int).contains(m),
                    decreases allowed@.len() - j,
                {
                    let ghost pre = allowed@.subrange(0, j as int);
                    let ghost post = allowed@.subrange(0, j + 1);
                    if allowed[j] == m {
                        found = true;
                    }
                    proof {
                        assert(post =~= pre.push(allowed@[j as int]));
                        if pre.contains(m) {
                            let k = choose|k: int| 0 <= k < pre.len() && pre[k] == m;
                            assert(post[k] == m);
                        }
                        if post.contains(m) && allowed@[j as int] != m {
                            let k = choose|k: int| 0 <= k < post.len() && post[k] == m;
                            assert(pre[k] == m);
                        }
                        if allowed@[j as int] == m {
                            assert(post[j as int] == m);
                        }
                    }
                    j = j + 1;
                }
                assert(allowed@.subrange(0, allowed@.len() as int) =~= allowed@);
                let ghost before = out@;
                if found {
                    out.push(m);
                }
                proof {
                    let pre = moves@.subrange(0, i as int);
                    let post = moves@.subrange(0, i + 1);
                    assert(post =~= pre.push(m));
                    assert forall|x: ChessMove| #[trigger] out@.contains(x) <==> (post.contains(x)
                        && allowed@.contains(x)) by {
                        if found {
                            assert(out@ =~= before.push(m));
                            if out@.contains(x) && x != m {
                                let k = choose|k: int| 0 <= k < out@.len() && out@[k] == x;
                                assert(before[k] == x);
                            }
                            if before.contains(x) {
                                let k = choose|k: int| 0 <= k < before.len() && before[k] == x;
                                assert(out@[k] == x);
                            }
                            if x == m {
                                assert(out@[before.len() as int] == m);
                            }
                        }
                        if post.contains(x) && x != m {
                            let k = choose|k: int| 0 <= k < post.len() && post[k] == x;
                            assert(pre[k] == x);
                        }
                        if pre.contains(x) {
                            let k = choose|k: int| 0 <= k < pre.len() && pre[k] == x;
                            assert(post[k] == x);
                        }
                        if x == m {
                            assert(post[i as int] == m);
                        }
                    }
                }
                i = i + 1;
            }
            assert(moves@.subrange(0, moves@.len() as int) =~= moves@);
            assert forall|k: int| 0 <= k < out@.len() implies moves@.contains(#[trigger] out@[k]) by {
                assert(out@.contains(out@[k]));
            }
            out
        },
    }
}

// ---------------------------------------------------------------------------
// The quiescence value.

/// A value below every score, for "no move searched".
pub open spec fn q_none() -> int {
    -(MATE + 2)
}

/// Whether quiescence searches `m` in `p`: a legal capture or promotion
/// (which lowers the material).
pub open spec fn q_searched(p: Position, m: ChessMove) -> bool {
    &&& chess_legal_moves(p).contains(m)
    &&& m.spec_is_conversion()
    &&& material(chess_play(p, m).board()) < material(p.board())
}

/// The quiescence value of `p`: the better of standing pat (the static
/// evaluation) and the best capture or promotion, each worth minus the
/// quiescence value of the position it leads to.
pub open spec fn qval(p: Position) -> int
    decreases material(p.board()), chess_legal_moves(p).len() + 1,
{
    let b = qbest(p, chess_legal_moves(p).len() as int);
    if spec_evaluate(p) >= b {
        spec_evaluate(p)
    } else {
        b
    }
}

/// The best value among the searched moves of `p` among its first `n`
/// legal moves (`q_none()` if there is none).
pub open spec fn qbest(p: Position, n: int) -> int
    decreases material(p.board()), n,
{
    if n <= 0 || n > chess_legal_moves(p).len() {
        q_none()
    } else {
        let m = chess_legal_moves(p)[n - 1];
        let rest = qbest(p, n - 1);
        let v = if q_searched(p, m) {
            proof {
                lemma_material_nonneg(chess_play(p, m).board());
            }
            -qval(chess_play(p, m))
        } else {
            q_none()
        };
        if rest >= v {
            rest
        } else {
            v
        }
    }
}

proof fn lemma_qbest(p: Position, n: int)
    requires
        0 <= n <= chess_legal_moves(p).len(),
    ensures
        forall|k: int|
            0 <= k < n && q_searched(p, chess_legal_moves(p)[k]) ==> qbest(p, n) >= -qval(
                chess_play(p, #[trigger] chess_legal_moves(p)[k]),
            ),
        qbest(p, n) == q_none() || exists|k: int|
            0 <= k < n && q_searched(p, chess_legal_moves(p)[k]) && qbest(p, n) == -qval(
                chess_play(p, #[trigger] chess_legal_moves(p)[k]),
            ),
        qbest(p, n) >= q_none(),
    decreases n,
{
    if n > 0 {
        lemma_qbest(p, n - 1);
    }
}

/// The quiescence value is at least the static evaluation and at least the
/// value of every searched move, and it is one of them.
proof fn lemma_qval(p: Position)
    requires
        -EVAL_BOUND <= spec_evaluate(p),
    ensures
        qval(p) >= spec_evaluate(p),
        forall|m: ChessMove| q_searched(p, m) ==> qval(p) >= -qval(#[trigger] chess_play(p, m)),
        qval(p) == spec_evaluate(p) || exists|m: ChessMove|
            q_searched(p, m) && qval(p) == -qval(#[trigger] chess_play(p, m)),
{
    let ms = chess_legal_moves(p);
    lemma_qbest(p, ms.len() as int);
    assert forall|m: ChessMove| q_searched(p, m) implies qval(p) >= -qval(
        #[trigger] chess_play(p, m),
    ) by {
        let k = choose|k: int| 0 <= k < ms.len() && ms[k] == m;
        assert(q_searched(p, ms[k]));
    }
    if qval(p) != spec_evaluate(p) {
        let k = choose|k: int|
            0 <= k < ms.len() && q_searched(p, ms[k]) && qbest(p, ms.len() as int) == -qval(
                chess_play(p, #[trigger] ms[k]),
            );
        assert(q_searched(p, ms[k]) && qval(p) == -qval(chess_play(p, ms[k])));
    }
}

/// Whether a search must stop at `now` (milliseconds since it started): its
/// deadline has passed, its node limit is reached, or a stop was requested.
pub open spec fn spec_stop_due(ctx: SearchContext, now: u64, stopped: bool) -> bool {
    ||| (ctx.deadline matches Some(d) && now >= d)
    ||| (ctx.limits.max_nodes matches Some(n) && ctx.node_count >= n)
    ||| stopped
}

/// Whether the search must stop; see [`spec_stop_due`].
fn stop_due(ctx: &SearchContext, now: u64, stopped: bool) -> (r: bool)
    ensures
        r == spec_stop_due(*ctx, now, stopped),
{
    let past_deadline = match ctx.deadline {
        Some(d) => now >= d,
        None => false,
    };
    let out_of_nodes = match ctx.limits.max_nodes {
        Some(n) => ctx.node_count >= n,
        None => false,
    };
    past_deadline || out_of_nodes || stopped
}

/// Take new limits (set `seq` times so far) at `now`: the deadline is
/// computed afresh from them.
fn refresh_limits(ctx: &mut SearchContext, limits: Limits, seq: u64, now: u64)
    ensures
        final(ctx).limits == limits,
        final(ctx).limits_seq == seq,
        final(ctx).deadline == spec_calc_deadline(limits@, now),
        final(ctx).depth == old(ctx).depth,
        final(ctx).node_count == old(ctx).node_count,
        final(ctx).pv == old(ctx).pv,
        final(ctx).killers == old(ctx).killers,
        final(ctx).history == old(ctx).history,
        final(ctx).node_check_count == old(ctx).node_check_count,
        final(ctx).root_moves == old(ctx).root_moves,
{
    ctx.deadline = calc_deadline(&limits, now);
    ctx.limits = limits;
    ctx.limits_seq = seq;
}

impl SearchEngine {
    /// Re-read the limits if another thread changed them (recomputing the
    /// deadline from now), then tell whether to stop: the deadline passed,
    /// the node limit was reached, or a stop was requested.
    fn should_stop(&mut self) -> (r: bool)
        requires
            old(self).engine_wf(),
        ensures
            final(self).engine_wf(),
            final(self).tt == old(self).tt,
            final(self).pos == old(self).pos,
            final(self).reports == old(self).reports,
            final(self).node == old(self).node,
            final(self).search_ctx.depth == old(self).search_ctx.depth,
            final(self).search_ctx.node_count == old(self).search_ctx.node_count,
            final(self).search_ctx.pv == old(self).search_ctx.pv,
            final(self).search_ctx.killers == old(self).search_ctx.killers,
            final(self).search_ctx.history == old(self).search_ctx.history,
            final(self).search_ctx.node_check_count == old(self).search_ctx.node_check_count,
            final(self).search_ctx.root_moves == old(self).search_ctx.root_moves,
            final(self).search_ctx.limits_seq == old(self).search_ctx.limits_seq ==> (final(self).search_ctx.limits
                == old(self).search_ctx.limits && final(self).search_ctx.deadline == old(self).search_ctx.deadline),
            final(self).search_ctx.limits_seq != old(self).search_ctx.limits_seq ==> exists|now: u64|
                final(self).search_ctx.deadline == spec_calc_deadline(
                    final(self).search_ctx.limits@,
                    now,
                ),
            exists|now: u64, stopped: bool| r == spec_stop_due(final(self).search_ctx, now, stopped),
            (final(self).search_ctx.limits.max_nodes matches Some(n) && final(self).search_ctx.node_count
                >= n) ==> r,
    {
        let seq = self.search_handle.limits_seq();
        let now = elapsed_ms(&self.start);
        if seq != self.search_ctx.limits_seq {
            let limits = self.search_handle.limits();
            refresh_limits(&mut self.search_ctx, limits, seq, now);
        }
        let stopped = self.search_handle.is_stopped();
        stop_due(&self.search_ctx, now, stopped)
    }

    /// Prepare for a new search with `limits` (set `seq` times so far): start
    /// the clock, fix the root moves, and clear the node count, the principal
    /// variation and the killers.
    fn reset_ctx(&mut self, limits: Limits, seq: u64)
        requires
            old(self).engine_wf(),
        ensures
            final(self).engine_wf(),
            final(self).tt == old(self).tt,
            final(self).pos == old(self).pos,
            final(self).search_ctx.depth == 0,
            final(self).search_ctx.pv@.len() == 0,
            final(self).search_ctx.limits == limits,
            final(self).search_ctx.limits_seq == seq,
            final(self).search_ctx.deadline == spec_calc_deadline(limits@, 0),
            moves_view(final(self).search_ctx.root_moves) == limits@.restrict_to,
            final(self).search_ctx.killers@ == Seq::new(
                MAX_PLY as nat,
                |i: int| (None::<ChessMove>, None::<ChessMove>),
            ),
            final(self).search_ctx.history == old(self).search_ctx.history,
    {
        self.search_ctx.root_moves = limits.copy().restrict_to;
        self.start = now();
        self.search_ctx.deadline = calc_deadline(&limits, 0);
        self.search_ctx.limits = limits;
        self.search_ctx.limits_seq = seq;
        self.search_ctx.depth = 0;
        self.search_ctx.node_check_count = 0;
        self.search_ctx.node_count = 0;
        self.search_ctx.pv = Vec::new();
        let mut killers: Vec<Killers> = Vec::new();
        let mut i: usize = 0;
        while i < MAX_PLY
            invariant
                i <= MAX_PLY,
                killers@ =~= Seq::new(i as nat, |j: int| (None::<ChessMove>, None::<ChessMove>)),
            decreases MAX_PLY - i,
        {
            killers.push((None, None));
            i = i + 1;
        }
        self.search_ctx.killers = killers;
    }

    /// Quiescence search: only captures and promotions are searched, with
    /// the static evaluation as a floor ("stand pat").
    fn quiescence(&mut self, pos: &Position, alpha: i32, beta: i32) -> (r: Option<i32>)
        requires
            old(self).engine_wf(),
            -(MATE + 1) <= alpha < beta <= MATE + 1,
        ensures
            final(self).engine_wf(),
            final(self).tt == old(self).tt,
            final(self).pos == old(self).pos,
            final(self).reports == old(self).reports,
            final(self).node == old(self).node,
            final(self).search_ctx.depth == old(self).search_ctx.depth,
            final(self).search_ctx.pv == old(self).search_ctx.pv,
            final(self).search_ctx.killers == old(self).search_ctx.killers,
            final(self).search_ctx.history == old(self).search_ctx.history,
            final(self).search_ctx.node_check_count == old(self).search_ctx.node_check_count,
            final(self).search_ctx.limits == old(self).search_ctx.limits,
            final(self).search_ctx.root_moves == old(self).search_ctx.root_moves,
            r matches Some(s) && -EVAL_BOUND <= s <= EVAL_BOUND,
            r matches Some(s) && s >= spec_evaluate(*pos),
            spec_evaluate(*pos) >= beta ==> r == Some(spec_evaluate(*pos) as i32),
            r matches Some(s) && (alpha < s < beta ==> s == qval(*pos)) && (s <= alpha ==> qval(
                *pos,
            ) <= s) && (s >= beta ==> qval(*pos) >= s),
        decreases material(pos.board()),
    {
        self.search_ctx.node_count = self.search_ctx.node_count.saturating_add(1);
        let stand_pat = evaluate(pos);
        proof {
            lemma_qval(*pos);
        }
        if stand_pat >= beta {
            return Some(stand_pat);
        }
        let ghost alpha0 = alpha as int;
        let mut alpha = alpha;
        if stand_pat > alpha {
            alpha = stand_pat;  // static eval is our baseline
        }
        let mut best_score = stand_pat;
        // Only captures and promotions are searched here, so killer and
        // history ordering do not matter: empty killer slots.
        let moves = ordered_moves(pos, None, (None, None), &self.search_ctx.history);
        let mut i: usize = 0;
        let mut cut = false;
        while i < moves.len() && !cut
            invariant
                self.engine_wf(),
                self.tt == old(self).tt,
                self.pos == old(self).pos,
                self.reports == old(self).reports,
                self.node == old(self).node,
                self.search_ctx.depth == old(self).search_ctx.depth,
                self.search_ctx.pv == old(self).search_ctx.pv,
                self.search_ctx.killers == old(self).search_ctx.killers,
                self.search_ctx.history == old(self).search_ctx.history,
                self.search_ctx.node_check_count == old(self).search_ctx.node_check_count,
                self.search_ctx.limits == old(self).search_ctx.limits,
                self.search_ctx.root_moves == old(self).search_ctx.root_moves,
                i <= moves@.len(),
                forall|k: int| 0 <= k < moves@.len() ==> chess_legal_moves(*pos).contains(#[trigger] moves@[k]),
                forall|k: int| 0 <= k < moves@.len() ==> legal_shape(*pos, #[trigger] moves@[k]),
                -(MATE + 1) <= alpha <= MATE + 1,
                -(MATE + 1) < beta <= MATE + 1,
                !cut ==> alpha < beta,
                -EVAL_BOUND <= best_score <= EVAL_BOUND,
                -(MATE + 1) <= alpha0 < beta,
                stand_pat as int == spec_evaluate(*pos),
                stand_pat <= best_score,
                !cut ==> alpha == (if alpha0 > best_score { alpha0 } else { best_score as int }),
                !cut ==> best_score < beta,
                forall|j: int|
                    0 <= j < i && (#[trigger] moves@[j]).spec_is_conversion() ==> q_searched(
                        *pos,
                        moves@[j],
                    ),
                !cut ==> forall|j: int|
                    0 <= j < i && (#[trigger] moves@[j]).spec_is_conversion() ==> -qval(
                        chess_play(*pos, moves@[j]),
                    ) <= best_score,
                !cut && best_score > alpha0 ==> best_score == stand_pat || exists|j: int|
                    0 <= j < i && (#[trigger] moves@[j]).spec_is_conversion() && -qval(
                        chess_play(*pos, moves@[j]),
                    ) == best_score,
                cut ==> best_score >= beta && qval(*pos) >= best_score,
                forall|m: ChessMove| q_searched(*pos, m) ==> qval(*pos) >= -qval(#[trigger] chess_play(*pos, m)),
            decreases moves@.len() - i,
        {
            let m = moves[i];
            if m.is_conversion() {
                let child = play(pos, m);
                proof {
                    assert(legal_shape(*pos, moves@[i as int]));
                    lemma_conversion_lowers_material(*pos, m);
                    lemma_material_nonneg(child.board());
                    assert(q_searched(*pos, m));
                }
                let ghost alpha_j = alpha as int;
                let ghost best_old = best_score as int;
                let score = match self.quiescence(&child, -beta, -alpha) {
                    Some(s) => -s,
                    None => { return None; }
                };
                proof {
                    let v = -qval(chess_play(*pos, m));
                    assert(alpha_j < score < beta ==> score == v);
                    assert(score >= beta ==> v >= score);
                    assert(score <= alpha_j ==> v <= score);
                }
                if score > best_score {
                    best_score = score;
                }
                if score > alpha {
                    alpha = score;
                }
                if alpha >= beta {
                    cut = true;  // Beta cutoff
                }
                proof {
                    if !cut {
                        assert forall|j: int|
                            0 <= j < i + 1 && (#[trigger] moves@[j]).spec_is_conversion() implies -qval(
                                chess_play(*pos, moves@[j]),
                            ) <= best_score by {
                            if j < i {
                                assert(-qval(chess_play(*pos, moves@[j])) <= best_old);
                            }
                        }
                        if best_score > alpha0 && best_score != stand_pat {
                            if best_score == score && -qval(chess_play(*pos, m)) == score {
                                assert(moves@[i as int] == m);
                            } else if best_score == best_old {
                                let j = choose|j: int|
                                    0 <= j < i && (#[trigger] moves@[j]).spec_is_conversion()
                                        && -qval(chess_play(*pos, moves@[j])) == best_old;
                                assert(0 <= j < i + 1);
                            }
                        }
                    } else {
                        assert(qval(*pos) >= -qval(chess_play(*pos, m)));
                    }
                }
            }
            i = i + 1;
        }
        proof {
            if !cut {
                assert(qval(*pos) <= best_score) by {
                    if qval(*pos) != spec_evaluate(*pos) {
                        let m = choose|m: ChessMove|
                            q_searched(*pos, m) && qval(*pos) == -qval(#[trigger] chess_play(*pos, m));
                        assert(moves@.contains(m));
                        let j = choose|j: int| 0 <= j < moves@.len() && moves@[j] == m;
                        assert(moves@[j].spec_is_conversion());
                    }
                }
                if best_score > alpha0 {
                    if best_score != stand_pat {
                        let j = choose|j: int|
                            0 <= j < i && (#[trigger] moves@[j]).spec_is_conversion() && -qval(
                                chess_play(*pos, moves@[j]),
                            ) == best_score;
                        assert(q_searched(*pos, moves@[j]));
                    }
                }
            }
        }
        Some(best_score)
    }
}

impl SearchEngine {
    /// Search move `m` of `pos` (leading to `child`), the `move_count`-th
    /// move of a node with `depth` plies to go and window `(alpha, beta)`:
    /// the first move with the full window; a later one first with a
    /// zero-window scout (shallower for a late quiet move), again at full
    /// depth if a reduced scout beat alpha, and with the full window if the
    /// scout landed inside it. Gives the move's score and its last search
    /// (depth, window, result of the child).
    #[verifier::spinoff_prover]
    #[verifier::rlimit(60)]
    fn search_move(
        &mut self,
        pos: &Position,
        child: &Position,
        m: ChessMove,
        depth: u8,
        alpha: i32,
        beta: i32,
        ply: u8,
        move_count: usize,
        node_in_check: bool,
        child_pv: &mut Vec<ChessMove>,
        Ghost(measure): Ghost<int>,
    ) -> (r: Option<(i32, Ghost<(int, int, int, int)>)>)
        requires
            old(self).engine_wf(),
            -(MATE + 1) <= alpha < beta <= MATE + 1,
            depth >= 1,
            ply < 255,
            chess_legal_moves(*pos).contains(m),
            *child == chess_play(*pos, m),
            child.spec_turn() == pos.spec_turn().spec_other(),
            budget(depth - 1, ply + 1) < measure,
            ply + 1 + budget(depth - 1, ply + 1) <= 255,
        ensures
            final(self).engine_wf(),
            final(self).pos == old(self).pos,
            final(self).reports == old(self).reports,
            final(self).search_ctx.depth == old(self).search_ctx.depth,
            final(self).search_ctx.pv == old(self).search_ctx.pv,
            final(self).search_ctx.root_moves == old(self).search_ctx.root_moves,
            old(self).search_ctx.depth == 0 ==> r is Some,
            r is Some ==> history_grows(old(self).search_ctx.history@, final(self).search_ctx.history@),
            r is Some ==> is_line(*child, final(child_pv)@),
            r matches Some((score, last)) ==> ({
                let l = last@;
                &&& score == -l.3
                &&& -(MATE - 1 - ply) <= score <= MATE - 1 - ply
                &&& (score == MATE - 1 - ply <==> mates(*pos, m))
                &&& (alpha < score < beta ==> l.0 == depth - 1 && l.1 == -beta && l.2 == -alpha && l.1
                    < l.3 < l.2)
            }),
        decreases measure, 0int,
    {
        if move_count == 0 {
            // Principal variation move: full window, full depth.
            let c = self.negamax(child, depth - 1, -beta, -alpha, ply + 1, child_pv, true, &None)?;
            proof {
                lemma_child_score(*pos, m, c as int, ply as int);
            }
            return Some((-c, Ghost((depth - 1, -beta, -alpha, c as int))));
        }
        // Late Move Reductions: quiet moves this far down the list are
        // searched shallower first, unless the node or the move is in check.
        let reduce = depth >= 3 && move_count >= 3 && is_quiet(m) && !node_in_check && !is_check(
            child,
        );
        let reduction: u8 = if reduce {
            lmr_reduction(depth, move_count)
        } else {
            0
        };
        // Reduced-depth zero-window scout: does this beat alpha?
        let ghost h0 = self.search_ctx.history@;
        let c = self.negamax(child, depth - 1 - reduction, -alpha - 1, -alpha, ply + 1, child_pv, true, &None)?;
        proof {
            lemma_child_score(*pos, m, c as int, ply as int);
        }
        let ghost mut last: (int, int, int, int) = (depth - 1 - reduction, -alpha - 1, -alpha, c as int);
        let mut s = -c;
        // A reduced move that beat alpha: re-search at full depth.
        if reduction > 0 && s > alpha {
            let ghost h1 = self.search_ctx.history@;
            let c2 = self.negamax(child, depth - 1, -alpha - 1, -alpha, ply + 1, child_pv, true, &None)?;
            proof {
                lemma_child_score(*pos, m, c2 as int, ply as int);
                lemma_history_grows_trans(h0, h1, self.search_ctx.history@);
                last = (depth - 1, -alpha - 1, -alpha, c2 as int);
            }
            s = -c2;
        }
        // PVS: inside the window, re-search with the full window.
        if s > alpha && s < beta {
            let ghost h2 = self.search_ctx.history@;
            let c3 = self.negamax(child, depth - 1, -beta, -alpha, ply + 1, child_pv, true, &None)?;
            proof {
                lemma_child_score(*pos, m, c3 as int, ply as int);
                lemma_history_grows_trans(h0, h2, self.search_ctx.history@);
                last = (depth - 1, -beta, -alpha, c3 as int);
            }
            s = -c3;
        }
        Some((s, Ghost(last)))
    }
}

impl SearchEngine {
    /// Keep a node's result in the table, its mate scores made relative to
    /// the root.
    fn store_node(
        &mut self,
        key: u64,
        depth: u8,
        score: i32,
        ply: u8,
        bound: Bound,
        best_move: Option<ChessMove>,
    )
        requires
            old(self).engine_wf(),
            -(MATE - 1 - ply) <= score <= MATE - 1 - ply,
        ensures
            final(self).engine_wf(),
            final(self).pos == old(self).pos,
            final(self).reports == old(self).reports,
            final(self).node == old(self).node,
            final(self).search_ctx == old(self).search_ctx,
    {
        let stored = score_to_tt(score, ply);
        let ghost old_tt = self.tt;
        proof {
            old_tt.lemma_wf();
        }
        self.tt.store(key, depth as u32, stored, bound, best_move);
        proof {
            self.tt.lemma_wf();
            let before = old_tt@;
            assert forall|i: int| 0 <= i < self.tt@.len() implies -(MATE - 1) <= #[trigger] self.tt@[i].score
                <= MATE - 1 by {
                if !old_tt.store_kept(key, depth as u32) {
                    if i != old_tt.slot(key) {
                        assert(self.tt@[i] == before[i]);
                    }
                }
            }
        }
    }
}

impl SearchEngine {
    /// Negamax alpha-beta search of `pos` with `depth` plies to go, `ply`
    /// plies below the root, within the window `(alpha, beta)`. Returns
    /// `None` when the search was told to stop. `pv` receives the best line
    /// found; `root_moves`, at the root, restricts the moves searched.
    #[verifier::loop_isolation(false)]
    #[verifier::rlimit(100)]
    #[verifier::spinoff_prover]
    fn negamax(
        &mut self,
        pos: &Position,
        depth: u8,
        alpha: i32,
        beta: i32,
        ply: u8,
        pv: &mut Vec<ChessMove>,
        // Whether null-move pruning is permitted at this node. Disabled inside
        // the null search (no two null moves in a row) and inside the
        // verification search (which must make real moves).
        allow_null: bool,
        root_moves: &Option<Vec<ChessMove>>,
    ) -> (r: Option<i32>)
        requires
            old(self).engine_wf(),
            -(MATE + 1) <= alpha < beta <= MATE + 1,
            ply + budget(depth as int, ply as int) <= 255,
        ensures
            final(self).engine_wf(),
            final(self).pos == old(self).pos,
            final(self).reports == old(self).reports,
            final(self).search_ctx.depth == old(self).search_ctx.depth,
            final(self).search_ctx.pv == old(self).search_ctx.pv,
            final(self).search_ctx.root_moves == old(self).search_ctx.root_moves,
            old(self).search_ctx.depth == 0 ==> r is Some,
            r matches Some(s) ==> in_band(s as int, ply as int),
            is_line(*pos, final(pv)@),
            ply == 0 && final(pv)@.len() > 0 ==> root_allows(moves_view(*root_moves), final(pv)@[0]),
            (ply == 0 && r is Some && depth >= 1 && alpha == -(MATE + 1) && beta == MATE + 1
                && !chess_is_game_over(*pos)
                && has_allowed_move(*pos, moves_view(*root_moves))) ==> final(pv)@.len() > 0,
            chess_is_game_over(*pos) && chess_outcome(*pos) == Some(KnownOutcome::Draw) ==> r == Some(
                0i32,
            ),
            chess_is_game_over(*pos) && chess_outcome(*pos) == Some(
                KnownOutcome::Decisive { winner: pos.spec_turn() },
            ) ==> r == Some((MATE - ply) as i32),
            chess_is_game_over(*pos) && chess_outcome(*pos) == Some(
                KnownOutcome::Decisive { winner: pos.spec_turn().spec_other() },
            ) ==> r == Some((-(MATE - ply)) as i32),
            chess_is_game_over(*pos) ==> r == Some(spec_leaf_score(*pos, ply as int) as i32),
            !chess_is_game_over(*pos) && depth == 0 && !(chess_is_check(*pos) && ply < MAX_PLY) ==> (
            r matches Some(s) && (alpha < s < beta ==> s == qval(*pos)) && (s <= alpha ==> qval(
                *pos,
            ) <= s) && (s >= beta ==> qval(*pos) >= s)),
            ply == 0 && (chess_is_game_over(*pos) || has_allowed_move(*pos, moves_view(*root_moves)))
                ==> (r matches Some(s) ==> -MATE <= s <= MATE),
            ply == 0 && depth >= 1 && !chess_is_game_over(*pos) && has_mate_in_one(
                *pos,
                moves_view(*root_moves),
            ) ==> (r matches Some(s) ==> s >= MATE - 1 || s >= beta),
            !chess_is_game_over(*pos) && (ply > 0 || has_allowed_move(*pos, moves_view(*root_moves)))
                ==> (r matches Some(s) ==> -(MATE - 1 - ply) <= s <= MATE - 1 - ply),
            ply == 0 && depth >= 1 && alpha == -(MATE + 1) && beta == MATE + 1 && !chess_is_game_over(
                *pos,
            ) && has_mate_in_one(*pos, moves_view(*root_moves)) ==> (r matches Some(s) ==> s == MATE
                - 1 && final(pv)@.len() > 0 && mates(*pos, final(pv)@[0])),
            r is Some ==> history_grows(old(self).search_ctx.history@, final(self).search_ctx.history@),
            final(self).spec_node() matches Some(rec) ==> (r matches Some(s) ==> node_result(
                *pos,
                moves_view(*root_moves),
                ply as int,
                alpha as int,
                beta as int,
                extended_depth(*pos, depth as int, ply as int),
                rec,
                s as int,
                final(pv)@,
            )),
            r matches Some(s) ==> (final(self).spec_node() is None ==> chess_is_game_over(*pos)
                || extended_depth(*pos, depth as int, ply as int) == 0 || ply > 0 || s == beta),
            r matches Some(s) ==> (s >= beta && final(pv)@.len() > 0 ==> move_rewarded(
                old(self).search_ctx.history@,
                final(self).search_ctx.history@,
                final(pv)@[0],
                extended_depth(*pos, depth as int, ply as int),
            )),
        decreases budget(depth as int, ply as int), 1int,
    {
        self.search_ctx.node_count = self.search_ctx.node_count.saturating_add(1);
        pv.clear();  // no continuation until a move raises alpha
        self.node = Ghost(None);
        proof {
            lemma_history_grows_refl(self.search_ctx.history@);
        }
        let ghost pv0 = pv@;
        assert(pv0.len() == 0);
        let mut alpha = alpha;
        let mut best_score: i32 = -(MATE + 1);
        let mut best_move: Option<ChessMove> = None;
        let alpha_orig = alpha;
        if is_game_over(pos) {
            return Some(leaf_score(pos, ply));
        }
        // Check extension: while in check the position is forcing, so search
        // one ply deeper instead of evaluating. The MAX_PLY cap stops an
        // endless checking sequence from recursing forever.
        let node_in_check = is_check(pos);
        let ghost depth_in = depth;
        let depth: u8 = if node_in_check && (ply as usize) < MAX_PLY {
            depth + 1
        } else {
            depth
        };
        if depth == 0 {
            let q = self.quiescence(pos, alpha, beta);
            return q;
        }
        // Every CHECK_STOP_AFTER nodes, look at the clock and the stop flag;
        // never during the first iteration, so that one always completes.
        if self.search_ctx.depth > 0 && self.search_ctx.node_count >= self.search_ctx.node_check_count {
            self.search_ctx.node_check_count = self.search_ctx.node_count.saturating_add(
                CHECK_STOP_AFTER,
            );
            if self.should_stop() {
                return None;
            }
        }
        let key = zobrist(pos);
        let mut hash_move: Option<ChessMove> = None;
        if let Some(e) = self.tt.probe(key) {
            // The move this position was best with last time is a great first
            // guess, even when the stored score cannot be used.
            hash_move = e.best_move;
            proof {
                self.tt.lemma_wf();
                assert(self.tt@[self.tt.slot(key)].score == e.score);
            }
            // Never take a score cutoff at the root: that would leave no
            // principal variation and so no move to play.
            if ply != 0 && e.depth >= depth as u32 {
                let usable = match e.bound {
                    Bound::Exact => true,
                    Bound::Lower => e.score >= beta,
                    Bound::Upper => e.score <= alpha,
                };
                if usable {
                    return Some(score_from_tt(e.score, ply));
                }
            }
        }
        // Null-move pruning: hand the opponent a free move. If a reduced search
        // still beats beta, verify with real moves and prune.
        if allow_null && depth >= 3 && !node_in_check && -MATE_THRESHOLD < beta && beta
            < MATE_THRESHOLD && has_non_pawn_material(pos) {
            let reduction: u8 = if depth >= 6 {
                3
            } else {
                2
            };
            if let Some(null_pos) = swap_turn(pos) {
                let mut null_pv: Vec<ChessMove> = Vec::new();
                let ghost h_pre1 = self.search_ctx.history@;
                let null_child = self.negamax(
                    &null_pos,
                    depth - 1 - reduction,
                    -beta,
                    -beta + 1,
                    ply + 1,
                    &mut null_pv,
                    false,
                    &None,
                )?;
                proof {
                    lemma_history_grows_trans(old(self).search_ctx.history@, h_pre1, self.search_ctx.history@);
                }
                let null_score = -null_child;
                if null_score >= beta {
                    let mut verify_pv: Vec<ChessMove> = Vec::new();
                    let ghost h_pre2 = self.search_ctx.history@;
                    let verify = self.negamax(
                        pos,
                        depth - reduction,
                        beta - 1,
                        beta,
                        ply,
                        &mut verify_pv,
                        false,
                        &None,
                    )?;
                    proof {
                        lemma_history_grows_trans(old(self).search_ctx.history@, h_pre2, self.search_ctx.history@);
                    }
                    if verify >= beta {
                        self.node = Ghost(None);
                        return Some(beta);
                    }
                }
            }
        }
        let kply: usize = if (ply as usize) < MAX_PLY - 1 {
            ply as usize
        } else {
            MAX_PLY - 1
        };
        let ordered = ordered_moves(
            pos,
            hash_move,
            self.search_ctx.killers[kply],
            &self.search_ctx.history,
        );
        // At the root, search only the moves the limits allow.
        let ghost ordered_view = ordered@;
        let moves = if ply == 0 {
            filter_root_moves(ordered, root_moves)
        } else {
            ordered
        };
        proof {
            assert forall|k: int| 0 <= k < moves@.len() implies chess_legal_moves(*pos).contains(
                #[trigger] moves@[k],
            ) && legal_shape(*pos, moves@[k]) && (ply == 0 ==> root_allows(moves_view(*root_moves), moves@[k])) by {
                if ply == 0 {
                    assert(moves@.contains(moves@[k]));
                }
                assert(ordered_view.contains(moves@[k]));
                let j = choose|j: int| 0 <= j < ordered_view.len() && ordered_view[j] == moves@[k];
                assert(chess_legal_moves(*pos).contains(ordered_view[j]));
                assert(legal_shape(*pos, ordered_view[j]));
            }
            assert forall|mm: ChessMove|
                chess_legal_moves(*pos).contains(mm) && (ply == 0 ==> root_allows(
                    moves_view(*root_moves),
                    mm,
                )) implies moves@.contains(mm) by {
                assert(ordered_view.contains(mm));
            }
            if ply == 0 && has_allowed_move(*pos, moves_view(*root_moves)) {
                let m = choose|m: ChessMove| chess_legal_moves(*pos).contains(m) && root_allows(moves_view(*root_moves), m);
                assert(moves@.contains(m));
            }
        }
        let mut child_pv: Vec<ChessMove> = Vec::new();
        let mut move_count: usize = 0;
        let mut cut = false;
        let ghost mut rec: Seq<ChildSearch> = Seq::empty();
        while move_count < moves.len() && !cut
            invariant
                rec.len() == move_count,
                forall|k: int| 0 <= k < move_count ==> (#[trigger] rec[k]).0 == moves@[k],
                forall|k: int| 0 <= k < move_count ==> -(#[trigger] rec[k]).4 <= best_score,
                move_count > 0 ==> exists|k: int| 0 <= k < move_count && -(#[trigger] rec[k]).4 == best_score,
                alpha > alpha_orig && alpha < beta ==> pv@.len() > 0 && exists|k: int|
                    0 <= k < move_count && (#[trigger] rec[k]).0 == pv@[0] && -rec[k].4 == alpha && rec[k].1
                        == depth - 1 && rec[k].2 == -beta && rec[k].2 < rec[k].4 < rec[k].3,
                self.engine_wf(),
                self.pos == old(self).pos,
                self.reports == old(self).reports,
                self.search_ctx.depth == old(self).search_ctx.depth,
                self.search_ctx.pv == old(self).search_ctx.pv,
                self.search_ctx.root_moves == old(self).search_ctx.root_moves,
                move_count <= moves@.len(),
                forall|k: int| 0 <= k < moves@.len() ==> chess_legal_moves(*pos).contains(#[trigger] moves@[k]),
                forall|k: int| 0 <= k < moves@.len() ==> legal_shape(*pos, #[trigger] moves@[k]),
                ply == 0 ==> forall|k: int| 0 <= k < moves@.len() ==> root_allows(moves_view(*root_moves), #[trigger] moves@[k]),
                -(MATE + 1) <= alpha_orig <= alpha <= MATE + 1,
                !cut ==> alpha < beta,
                cut ==> move_count > 0,
                move_count == 0 ==> best_score == -(MATE + 1),
                move_count > 0 ==> in_band(best_score as int, ply as int),
                move_count > 0 ==> -(MATE - 1 - ply) <= best_score <= MATE - 1 - ply,
                cut ==> best_score >= beta,
                alpha == (if best_score > alpha_orig { best_score as int } else { alpha_orig as int }),
                alpha > alpha_orig && alpha == MATE - 1 - ply ==> pv@.len() > 0 && mates(*pos, pv@[0]),
                depth == extended_depth(*pos, depth_in as int, ply as int),
                history_grows(old(self).search_ctx.history@, self.search_ctx.history@),
                cut ==> pv@.len() > 0 && move_rewarded(
                    old(self).search_ctx.history@,
                    self.search_ctx.history@,
                    pv@[0],
                    depth as int,
                ),
                forall|k: int|
                    0 <= k < move_count && mates(*pos, #[trigger] moves@[k]) ==> best_score >= MATE
                        - 1 - ply,
                is_line(*pos, pv@),
                ply == 0 && pv@.len() > 0 ==> root_allows(moves_view(*root_moves), pv@[0]),
                alpha > alpha_orig ==> pv@.len() > 0,
                move_count > 0 && alpha_orig == -(MATE + 1) && ply == 0 ==> alpha > alpha_orig,
            decreases moves@.len() - move_count,
        {
            let m = moves[move_count];
            assert(chess_legal_moves(*pos).contains(moves@[move_count as int]));
            assert(legal_shape(*pos, moves@[move_count as int]));
            let child = play(pos, m);
            let ghost alpha_before = alpha as int;
            let ghost h_pre3 = self.search_ctx.history@;
            let (score, last) = self.search_move(
                pos,
                &child,
                m,
                depth,
                alpha,
                beta,
                ply,
                move_count,
                node_in_check,
                &mut child_pv,
                Ghost(budget(depth_in as int, ply as int)),
            )?;
            let ghost last = last@;
            proof {
                lemma_history_grows_trans(old(self).search_ctx.history@, h_pre3, self.search_ctx.history@);
            }
            // The search of this move, as its last search left it.
            assert(score == -last.3);
            assert(alpha_before < score < beta ==> last.0 == depth - 1 && last.1 == -beta && last.2
                == -alpha_before && last.1 < last.3 < last.2);
            let ghost rec_before = rec;
            proof {
                rec = rec.push((m, last.0, last.1, last.2, last.3));
            }
            let ghost best_before = best_score;
            if score > best_score {
                best_score = score;
                best_move = Some(m);
            }
            proof {
                assert forall|k: int|
                    0 <= k < move_count + 1 && mates(*pos, #[trigger] moves@[k]) implies best_score
                    >= MATE - 1 - ply by {
                    if k < move_count {
                        assert(best_before >= MATE - 1 - ply);
                    }
                }
            }
            if score > alpha {
                alpha = score;
                // New best line at this node: this move, then the child's line.
                pv.clear();
                pv.push(m);
                pv.extend_from_slice(child_pv.as_slice());
                proof {
                    assert(pv@ =~= seq![m] + child_pv@);
                    assert(pv@[0] == m);
                    lemma_line_cons(*pos, m, child_pv@);
                }
            }
            if alpha >= beta {
                // Beta cutoff: reward a quiet move that caused it.
                if is_quiet(m) {
                    let ghost before = self.search_ctx.history@;
                    reward_quiet(&mut self.search_ctx, kply, m, depth);
                    proof {
                        lemma_reward_step(
                            old(self).search_ctx.history@,
                            before,
                            self.search_ctx.history@,
                            m,
                            depth as int,
                        );
                    }
                }
                cut = true;
            }
            proof {
                let mc = move_count as int;
                assert forall|k: int| 0 <= k < mc implies #[trigger] rec[k] == rec_before[k] by {}
                assert(rec[mc].0 == m && rec[mc].4 == last.3);
                if best_score != best_before {
                    assert(-rec[mc].4 == best_score);
                } else if mc > 0 {
                    let k = choose|k: int| 0 <= k < mc && -(#[trigger] rec_before[k]).4 == best_before;
                    assert(rec[k] == rec_before[k]);
                }
                if alpha > alpha_orig && alpha < beta {
                    if alpha != alpha_before {
                        assert(pv@[0] == m);
                        assert(rec[mc].0 == pv@[0]);
                    } else {
                        let k = choose|k: int|
                            0 <= k < mc && (#[trigger] rec_before[k]).0 == pv@[0] && -rec_before[k].4
                                == alpha && rec_before[k].1 == depth - 1 && rec_before[k].2 == -beta
                                && rec_before[k].2 < rec_before[k].4 < rec_before[k].3;
                        assert(rec[k] == rec_before[k]);
                    }
                }
            }
            move_count = move_count + 1;
        }
        let bound = if best_score <= alpha_orig {
            Bound::Upper  // never raised alpha: an upper bound
        } else if best_score >= beta {
            Bound::Lower  // beta cutoff: a lower bound
        } else {
            Bound::Exact
        };
        proof {
            if move_count == 0 && ply > 0 {
                assert(chess_legal_moves(*pos).len() > 0);
                assert(moves@.len() > 0);
            }
        }
        // Only a node that searched a move has a score worth keeping (at the
        // root, the allowed moves may all be illegal).
        proof {
            lemma_node_result(
                *pos,
                moves_view(*root_moves),
                ply as int,
                alpha_orig as int,
                beta as int,
                depth as int,
                rec,
                best_score as int,
                pv@,
                moves@,
                alpha as int,
                cut,
            );
        }
        self.node = Ghost(Some(rec));
        if move_count > 0 {
            self.store_node(key, depth, best_score, ply, bound, best_move);
        }
        proof {
            if ply == 0 && depth >= 1 && has_mate_in_one(*pos, moves_view(*root_moves)) && !cut {
                let mm = choose|mm: ChessMove| mates(*pos, mm) && root_allows(moves_view(*root_moves), mm);
                lemma_mate_is_legal(*pos, mm);
                assert(moves@.contains(mm));
                let k = choose|k: int| 0 <= k < moves@.len() && moves@[k] == mm;
                assert(mates(*pos, moves@[k]));
            }
        }
        Some(best_score)
    }
}

/// A copy of a line of moves.
fn copy_line(v: &Vec<ChessMove>) -> (r: Vec<ChessMove>)
    ensures
        r@ == v@,
{
    let mut w: Vec<ChessMove> = Vec::new();
    let mut i: usize = 0;
    while i < v.len()
        invariant
            i <= v@.len(),
            w@ == v@.subrange(0, i as int),
        decreases v@.len() - i,
    {
        w.push(v[i]);
        i = i + 1;
    }
    assert(v@.subrange(0, v@.len() as int) =~= v@);
    w
}

impl SearchEngine {
    /// One full-window search of `pos` to `depth` plies from the root, the
    /// root restricted to the moves `root_moves` allows. Only a completed
    /// search (not one that was stopped) commits its line, which is the line
    /// the search found.
    fn root_search(&mut self, pos: &Position, depth: u8, root_moves: &Option<Vec<ChessMove>>) -> (r:
        Option<i32>)
        requires
            old(self).engine_wf(),
            depth <= MAX_DEPTH,
        ensures
            final(self).engine_wf(),
            final(self).position_spec() == old(self).position_spec(),
            final(self).spec_reports() == old(self).spec_reports(),
            final(self).spec_depth() == old(self).spec_depth(),
            final(self).spec_root_moves() == old(self).spec_root_moves(),
            old(self).spec_depth() == 0 ==> r is Some,
            r is None ==> final(self).spec_pv() == old(self).spec_pv(),
            r matches Some(s) ==> -(MATE + 1) <= s <= MATE + 1,
            r is Some ==> is_line(*pos, final(self).spec_pv()),
            r is Some && final(self).spec_pv().len() > 0 ==> root_allows(
                moves_view(*root_moves),
                final(self).spec_pv()[0],
            ),
            r is Some && depth >= 1 && !chess_is_game_over(*pos) && has_allowed_move(
                *pos,
                moves_view(*root_moves),
            ) ==> final(self).spec_pv().len() > 0,
            chess_is_game_over(*pos) && chess_outcome(*pos) == Some(KnownOutcome::Draw) ==> r == Some(
                0i32,
            ),
            chess_is_game_over(*pos) && chess_outcome(*pos) == Some(
                KnownOutcome::Decisive { winner: pos.spec_turn().spec_other() },
            ) ==> r == Some(-1_000_000i32),
            chess_is_game_over(*pos) ==> r == Some(spec_leaf_score(*pos, 0) as i32),
            !chess_is_game_over(*pos) && has_allowed_move(*pos, moves_view(*root_moves)) ==> (
            r matches Some(s) ==> -(MATE - 1) <= s <= MATE - 1),
            depth >= 1 && !chess_is_game_over(*pos) && has_allowed_move(*pos, moves_view(*root_moves))
                ==> (r matches Some(s) ==> (final(self).spec_node() matches Some(rec) && node_result(
                *pos,
                moves_view(*root_moves),
                0,
                -(MATE + 1),
                MATE + 1,
                extended_depth(*pos, depth as int, 0),
                rec,
                s as int,
                final(self).spec_pv(),
            ))),
            depth >= 1 && !chess_is_game_over(*pos) && has_mate_in_one(*pos, moves_view(*root_moves))
                ==> (r matches Some(s) ==> s == MATE - 1 && final(self).spec_pv().len() > 0 && mates(
                *pos,
                final(self).spec_pv()[0],
            )),
    {
        let mut pv: Vec<ChessMove> = Vec::new();
        let result = self.negamax(pos, depth, -(MATE + 1), MATE + 1, 0, &mut pv, true, root_moves);
        proof {
            if has_mate_in_one(*pos, moves_view(*root_moves)) {
                let m = choose|m: ChessMove| mates(*pos, m) && root_allows(moves_view(*root_moves), m);
                lemma_mate_is_legal(*pos, m);
            }
        }
        if result.is_some() {
            // Only commit the line of a fully completed search.
            self.search_ctx.pv = pv;
        }
        result
    }

    /// One full-window search of `pos` to `depth` plies from the root, over
    /// all its legal moves. Only a completed search (not one that was
    /// stopped) commits its line, which is the line the search found: a mate
    /// in one scores `MATE - 1` and its line starts with a mating move.
    pub fn depth_bound_search(&mut self, pos: &Position, depth: u8) -> (r: Option<i32>)
        requires
            old(self).engine_wf(),
            depth <= MAX_DEPTH,
        ensures
            final(self).engine_wf(),
            final(self).position_spec() == old(self).position_spec(),
            final(self).spec_depth() == old(self).spec_depth(),
            old(self).spec_depth() == 0 ==> r is Some,
            r is None ==> final(self).spec_pv() == old(self).spec_pv(),
            r is Some ==> is_line(*pos, final(self).spec_pv()),
            r is Some && depth >= 1 && !chess_is_game_over(*pos) && has_allowed_move(*pos, None)
                ==> final(self).spec_pv().len() > 0,
            chess_is_game_over(*pos) && chess_outcome(*pos) == Some(KnownOutcome::Draw) ==> r == Some(
                0i32,
            ),
            chess_is_game_over(*pos) && chess_outcome(*pos) == Some(
                KnownOutcome::Decisive { winner: pos.spec_turn().spec_other() },
            ) ==> r == Some(-1_000_000i32),
            chess_is_game_over(*pos) ==> r == Some(spec_leaf_score(*pos, 0) as i32),
            !chess_is_game_over(*pos) && has_allowed_move(*pos, None) ==> (r matches Some(s) ==> -(
            MATE - 1) <= s <= MATE - 1),
            depth >= 1 && !chess_is_game_over(*pos) && has_allowed_move(*pos, None) ==> (r matches Some(
                s,
            ) ==> (final(self).spec_node() matches Some(rec) && node_result(
                *pos,
                None,
                0,
                -(MATE + 1),
                MATE + 1,
                extended_depth(*pos, depth as int, 0),
                rec,
                s as int,
                final(self).spec_pv(),
            ))),
            depth >= 1 && !chess_is_game_over(*pos) && has_mate_in_one(*pos, None) ==> (r matches Some(
                s,
            ) ==> s == MATE - 1 && final(self).spec_pv().len() > 0 && mates(*pos, final(self).spec_pv()[0])),
    {
        self.root_search(pos, depth, &None)
    }

    /// After a search without a time limit ("go infinite", "go ponder"), the
    /// answer must wait for "stop" or for limits with a deadline ("ponderhit"):
    /// re-read the limits if they changed and tell whether to keep waiting.
    pub fn waiting_for_stop(&mut self) -> (r: bool)
        requires
            old(self).engine_wf(),
        ensures
            final(self).engine_wf(),
            final(self).position_spec() == old(self).position_spec(),
            r ==> final(self).spec_limits().time_mode == TimeMode::Unbound,
    {
        let seq = self.search_handle.limits_seq();
        if seq != self.search_ctx.limits_seq {
            let now = elapsed_ms(&self.start);
            let limits = self.search_handle.limits();
            refresh_limits(&mut self.search_ctx, limits, seq, now);
        }
        let unbound = match self.search_ctx.limits.time_mode {
            TimeMode::Unbound => true,
            _ => false,
        };
        unbound && !self.search_handle.is_stopped()
    }

    /// Iterative deepening with `limits` (set `seq` times so far): search
    /// depth 1, 2, 3, ... until the depth limit, a stop, or a forced mate,
    /// reporting each completed depth. The first iteration always completes,
    /// so unless the depth limit is 0 there is a result of depth 1 or more,
    /// with a move whenever one is allowed.
    pub fn search_with<F: FnMut(&SearchProgress)>(
        &mut self,
        limits: Limits,
        seq: u64,
        on_progress: &mut F,
    ) -> (r: SearchResult)
        requires
            old(self).engine_wf(),
            forall|g: F, p: &SearchProgress| call_requires(g, (p,)),
        ensures
            final(self).engine_wf(),
            final(self).position_spec() == old(self).position_spec(),
            final(self).spec_root_moves() == limits@.restrict_to,
            is_line(old(self).position_spec(), r.pv@),
            r.best_move == (if r.pv@.len() > 0 {
                Some(r.pv@[0])
            } else {
                None
            }),
            r.best_move matches Some(m) ==> root_allows(limits@.restrict_to, m),
            (r.depth == 0) == (limits@.max_depth == Some(0u8)),
            r.score is Some == (r.depth >= 1),
            r.depth >= 1 && !chess_is_game_over(old(self).position_spec()) && has_allowed_move(
                old(self).position_spec(),
                limits@.restrict_to,
            ) ==> r.best_move is Some,
            final(self).spec_reports().len() == r.depth,
            forall|k: int|
                0 <= k < r.depth ==> (#[trigger] final(self).spec_reports()[k]).0 == k + 1,
            r.depth >= 1 ==> r.score == Some(spec_to_score(final(self).spec_reports().last().1)),
            r.depth >= 1 && !chess_is_game_over(old(self).position_spec()) && has_allowed_move(
                old(self).position_spec(),
                limits@.restrict_to,
            ) ==> node_result(
                old(self).position_spec(),
                limits@.restrict_to,
                0,
                -(MATE + 1),
                MATE + 1,
                extended_depth(old(self).position_spec(), r.depth as int, 0),
                final(self).spec_reports().last().2,
                final(self).spec_reports().last().1 as int,
                r.pv@,
            ),
            r.depth >= 1 && !chess_is_game_over(old(self).position_spec()) && has_mate_in_one(
                old(self).position_spec(),
                limits@.restrict_to,
            ) ==> (r.score == Some(Score::Mate(1)) && r.depth == 1 && (r.best_move matches Some(m)
                && mates(old(self).position_spec(), m))),
    {
        let pos = self.pos;
        let ghost restrict = limits@.restrict_to;
        let ghost first_max = limits@.max_depth;
        self.reset_ctx(limits, seq);
        self.reports = Ghost(Seq::empty());
        let root_moves = match &self.search_ctx.root_moves {
            None => None,
            Some(v) => Some(copy_line(v)),
        };
        let mut best_result: Option<i32> = None;
        let mut depth: u8 = 1;
        let mut done = false;
        while depth <= MAX_DEPTH && !done
            invariant
                self.engine_wf(),
                self.pos == pos,
                pos == old(self).pos,
                forall|g: F, p: &SearchProgress| call_requires(g, (p,)),
                moves_view(self.search_ctx.root_moves) == restrict,
                1 <= depth <= MAX_DEPTH + 1,
                self.search_ctx.depth == depth - 1,
                depth == 1 && !done ==> self.search_ctx.limits@.max_depth == first_max,
                self.search_ctx.depth == 0 && done ==> first_max == Some(0u8),
                first_max == Some(0u8) ==> self.search_ctx.depth == 0,
                moves_view(root_moves) == restrict,
                best_result is Some == (self.search_ctx.depth >= 1),
                self.reports@.len() == self.search_ctx.depth,
                forall|k: int| 0 <= k < self.reports@.len() ==> (#[trigger] self.reports@[k]).0 == k + 1,
                best_result matches Some(s) ==> s == self.reports@.last().1,
                self.search_ctx.depth >= 1 && !chess_is_game_over(pos) && has_allowed_move(pos, restrict)
                    ==> node_result(
                    pos,
                    restrict,
                    0,
                    -(MATE + 1),
                    MATE + 1,
                    extended_depth(pos, self.search_ctx.depth as int, 0),
                    self.reports@.last().2,
                    self.reports@.last().1 as int,
                    self.search_ctx.pv@,
                ),
                best_result matches Some(s) ==> (!chess_is_game_over(pos) && has_mate_in_one(
                    pos,
                    restrict,
                ) ==> s == MATE - 1 && self.search_ctx.depth == 1 && done && self.search_ctx.pv@.len() > 0
                    && mates(pos, self.search_ctx.pv@[0])),
                is_line(pos, self.search_ctx.pv@),
                self.search_ctx.pv@.len() > 0 ==> root_allows(restrict, self.search_ctx.pv@[0]),
                self.search_ctx.depth >= 1 && !chess_is_game_over(pos) && has_allowed_move(
                    pos,
                    restrict,
                ) ==> self.search_ctx.pv@.len() > 0,
            decreases MAX_DEPTH + 1 - depth, if done { 0int } else { 1int },
        {
            let over_max = match self.search_ctx.limits.max_depth {
                Some(d) => depth > d,
                None => false,
            };
            if over_max {
                done = true;
            } else {
                match self.root_search(&pos, depth, &root_moves) {
                    None => {
                        done = true;
                    },
                    Some(score) => {
                        self.search_ctx.depth = depth;
                        best_result = Some(score);
                        // The report for this depth, as it goes to `on_progress`.
                        self.reports = Ghost(
                            self.reports@.push(
                                (
                                    depth,
                                    score,
                                    match self.node@ {
                                        Some(rec) => rec,
                                        None => Seq::empty(),
                                    },
                                ),
                            ),
                        );
                        let progress = SearchProgress {
                            depth,
                            seldepth: depth,
                            elapsed: elapsed_ms(&self.start),
                            nodes: self.search_ctx.node_count,
                            pv: copy_line(&self.search_ctx.pv),
                            score: to_score(score),
                            hashfull: self.tt.hashfull(),
                            nodes_per_s: 0,
                        };
                        on_progress(&progress);
                        if score >= MATE_THRESHOLD || score <= -MATE_THRESHOLD {
                            done = true;  // a forced mate: deeper search cannot improve
                        }
                        depth = depth + 1;
                    },
                }
            }
        }
        let pv = copy_line(&self.search_ctx.pv);
        let best_move = if pv.len() > 0 {
            Some(pv[0])
        } else {
            None
        };
        proof {
            if let Some(s) = best_result {
                if !chess_is_game_over(pos) && has_mate_in_one(pos, restrict) {
                    assert(div_toward_zero(2, 2) == 1);
                }
            }
        }
        let score = match best_result {
            Some(s) => Some(to_score(s)),
            None => None,
        };
        SearchResult { best_move, pv, score, depth: self.search_ctx.depth, nodes: self.search_ctx.node_count }
    }
}

impl ChessEngine for SearchEngine {
    closed spec fn wf(&self) -> bool {
        self.engine_wf()
    }

    closed spec fn position(&self) -> Position {
        self.pos
    }

    fn set_position(&mut self, pos: Position)
        ensures
            final(self).position_spec() == pos,
    {
        self.pos = pos
    }

    /// Play `mv` if it is legal in the engine's position.
    fn play_move(&mut self, mv: ChessMove) -> (r: Result<(), IllegalMove>)
        ensures
            r is Ok == chess_legal_moves(old(self).position_spec()).contains(mv),
            r is Ok ==> final(self).position_spec() == chess_play(old(self).position_spec(), mv),
            r is Err ==> final(self).position_spec() == old(self).position_spec(),
            r matches Err(e) ==> e.0 == mv,
    {
        if !is_legal(&self.pos, mv) {
            return Err(IllegalMove(mv));
        }
        self.pos = play(&self.pos, mv);
        Ok(())
    }

    /// Search the engine's position with the limits the handle holds when
    /// the search starts (see [`SearchEngine::search_with`]); the result's
    /// line is legal from it.
    fn search<F: FnMut(&SearchProgress)>(&mut self, on_progress: &mut F) -> (r: SearchResult)
        ensures
            final(self).position_spec() == old(self).position_spec(),
            is_line(old(self).position_spec(), r.pv@),
            r.best_move == (if r.pv@.len() > 0 {
                Some(r.pv@[0])
            } else {
                None
            }),
            r.best_move matches Some(m) ==> chess_legal_moves(old(self).position_spec()).contains(m)
                && root_allows(final(self).spec_root_moves(), m),
            r.depth >= 1 && !chess_is_game_over(old(self).position_spec()) && has_allowed_move(
                old(self).position_spec(),
                final(self).spec_root_moves(),
            ) ==> r.best_move is Some,
            r.score is Some == (r.depth >= 1),
    {
        let limits = self.search_handle.limits();
        let seq = self.search_handle.limits_seq();
        self.search_with(limits, seq, on_progress)
    }

    fn set_hash_size_mb(&mut self, mb: usize)
        ensures
            final(self).position_spec() == old(self).position_spec(),
            final(self).table().len() == crate::tt::spec_entry_count(
                mb as nat,
                crate::tt::entry_bytes(),
            ),
            crate::tt::all_empty(final(self).table()),
            final(self).spec_pv() == old(self).spec_pv(),
            final(self).spec_depth() == old(self).spec_depth(),
            final(self).spec_limits() == old(self).spec_limits(),
    {
        self.tt.resize(mb);
        proof {
            self.tt.lemma_wf();
            assert forall|i: int| 0 <= i < self.tt@.len() implies -(MATE - 1) <= #[trigger] self.tt@[i].score
                <= MATE - 1 by {
                assert(self.tt@[i] == crate::tt::empty_entry());
            }
        }
    }

    fn clear(&mut self)
        ensures
            final(self).position_spec() == old(self).position_spec(),
            final(self).table().len() == old(self).table().len(),
            crate::tt::all_empty(final(self).table()),
            final(self).spec_pv() == old(self).spec_pv(),
            final(self).spec_depth() == old(self).spec_depth(),
            final(self).spec_limits() == old(self).spec_limits(),
    {
        proof {
            self.tt.lemma_wf();
        }
        self.tt.clear();
        proof {
            self.tt.lemma_wf();
            assert forall|i: int| 0 <= i < self.tt@.len() implies -(MATE - 1) <= #[trigger] self.tt@[i].score
                <= MATE - 1 by {
                assert(self.tt@[i] == crate::tt::empty_entry());
            }
        }
    }

    fn search_handle(&self) -> SearchHandle {
        self.search_handle.clone()
    }
}

} // verus!
