//! Renderer-agnostic game orchestration: the decisions of a game between a
//! human and the engine, the status lines shown to the human, and the PGN
//! record of the finished game.
//!
//! The loop that talks to a front end and to the engine lives with the front
//! end; everything it decides comes from [`Game`].

use vstd::prelude::*;
use crate::chess::{ChessMove, Color, KnownOutcome, Position};
use crate::text::{decimal, padded_decimal, push_char, push_decimal, push_padded, push_str, push_year, year_text};

verus! {

// ---------------------------------------------------------------------------
// Calendar.

/// The civil date `(year, month, day)` of day `z` counted from 1970-01-01,
/// in the proleptic Gregorian calendar, computed era by era (an era is 400
/// years, 146097 days, starting on a March 1st).
pub open spec fn spec_civil_from_days(z: int) -> (int, int, int) {
    let z = z + 719468;
    let era = z / 146097;
    let doe = z - era * 146097;
    let yoe = (doe - doe / 1460 + doe / 36524 - doe / 146096) / 365;
    let y = yoe + era * 400;
    let doy = doe - (365 * yoe + yoe / 4 - yoe / 100);
    let mp = (5 * doy + 2) / 153;
    let d = doy - (153 * mp + 2) / 5 + 1;
    let m = if mp < 10 {
        mp + 3
    } else {
        mp - 9
    };
    (if m <= 2 {
        y + 1
    } else {
        y
    }, m, d)
}

/// Rounding `z - 146096` toward zero, then dividing, is flooring `z` for a
/// negative `z`.
proof fn lemma_era_floor(z: int)
    requires
        z < 0,
    ensures
        -((146096 - z) / 146097) == z / 146097,
{
    let q = z / 146097;
    let r = z % 146097;
    vstd::arithmetic::div_mod::lemma_fundamental_div_mod(z, 146097);
    assert(146096 - z == (-q) * 146097 + (146096 - r));
    vstd::arithmetic::div_mod::lemma_fundamental_div_mod_converse(
        146096 - z,
        146097,
        -q,
        146096 - r,
    );
}

/// The day of the era and year of the era stay in range.
proof fn lemma_civil_ranges(doe: int)
    requires
        0 <= doe <= 146096,
    ensures
        ({
            let yoe = (doe - doe / 1460 + doe / 36524 - doe / 146096) / 365;
            let doy = doe - (365 * yoe + yoe / 4 - yoe / 100);
            &&& 0 <= yoe <= 399
            &&& 0 <= doy <= 365
            &&& doe < 365 * (yoe + 1) + (yoe + 1) / 4 - (yoe + 1) / 100 + (yoe + 1) / 400
        }),
{
}

/// Whether `y` is a leap year of the Gregorian calendar.
pub open spec fn is_leap(y: int) -> bool {
    (y % 4 == 0 && y % 100 != 0) || y % 400 == 0
}

/// The number of days of month `m` of year `y`.
pub open spec fn days_in_month(y: int, m: int) -> int {
    if m == 2 {
        if is_leap(y) {
            29
        } else {
            28
        }
    } else if m == 4 || m == 6 || m == 9 || m == 11 {
        30
    } else {
        31
    }
}

/// The days of year `y` before the first of month `m`.
pub open spec fn days_before_month(y: int, m: int) -> int {
    (if m == 1 {
        0int
    } else if m == 2 {
        31
    } else if m == 3 {
        59
    } else if m == 4 {
        90
    } else if m == 5 {
        120
    } else if m == 6 {
        151
    } else if m == 7 {
        181
    } else if m == 8 {
        212
    } else if m == 9 {
        243
    } else if m == 10 {
        273
    } else if m == 11 {
        304
    } else {
        334
    }) + if m > 2 && is_leap(y) {
        1int
    } else {
        0
    }
}

/// The day number of a civil date, counted from 1970-01-01: the days of the
/// years before it (365 each, plus the leap days), of the months before it in
/// its year, and of its month before it.
pub open spec fn days_from_civil(y: int, m: int, d: int) -> int {
    let leaps = (y - 1) / 4 - (y - 1) / 100 + (y - 1) / 400;
    365 * (y - 1) + leaps + days_before_month(y, m) + d - 1 - 719162
}

/// The leap days before year `y`, counted from year 1.
pub open spec fn leaps_before(y: int) -> int {
    (y - 1) / 4 - (y - 1) / 100 + (y - 1) / 400
}

proof fn lemma_div_step(k: int, d: int)
    requires
        d > 0,
    ensures
        k / d - (k - 1) / d == if k % d == 0 {
            1int
        } else {
            0
        },
{
    let q = k / d;
    let r = k % d;
    vstd::arithmetic::div_mod::lemma_fundamental_div_mod(k, d);
    assert(k == q * d + r) by (nonlinear_arith)
        requires
            k == d * q + r,
    ;
    if r == 0 {
        assert(k - 1 == (q - 1) * d + (d - 1)) by (nonlinear_arith)
            requires
                k == q * d,
        ;
        vstd::arithmetic::div_mod::lemma_fundamental_div_mod_converse(k - 1, d, q - 1, d - 1);
    } else {
        vstd::arithmetic::div_mod::lemma_fundamental_div_mod_converse(k - 1, d, q, r - 1);
    }
}

proof fn lemma_div_shift(a: int, c: int, e: int)
    requires
        c > 0,
    ensures
        (a + c * e) / c == a / c + e,
        (a + c * e) % c == a % c,
{
    vstd::arithmetic::div_mod::lemma_fundamental_div_mod(a, c);
    let q = a / c;
    let r = a % c;
    assert(a + c * e == (q + e) * c + r) by (nonlinear_arith)
        requires
            a == c * q + r,
    ;
    vstd::arithmetic::div_mod::lemma_fundamental_div_mod_converse(a + c * e, c, q + e, r);
}

/// A multiple of `a * b` is a multiple of `a`.
proof fn lemma_mod_factor(k: int, a: int, b: int)
    requires
        a > 0,
        b > 0,
        k % (a * b) == 0,
    ensures
        k % a == 0,
{
    assert(a * b > 0) by (nonlinear_arith)
        requires
            a > 0,
            b > 0,
    ;
    vstd::arithmetic::div_mod::lemma_fundamental_div_mod(k, a * b);
    let q = k / (a * b);
    assert(k == a * (b * q)) by (nonlinear_arith)
        requires
            k == (a * b) * q + 0,
    ;
    vstd::arithmetic::div_mod::lemma_fundamental_div_mod_converse(k, a, b * q, 0);
}

proof fn lemma_leaps_step(k: int)
    ensures
        leaps_before(k + 1) == leaps_before(k) + if is_leap(k) {
            1int
        } else {
            0
        },
{
    lemma_div_step(k, 4);
    lemma_div_step(k, 100);
    lemma_div_step(k, 400);
    if k % 400 == 0 {
        lemma_mod_factor(k, 100, 4);
        lemma_mod_factor(k, 4, 100);
    } else if k % 100 == 0 {
        lemma_mod_factor(k, 4, 25);
    }
}

proof fn lemma_days_shift(y: int, m: int, d: int, e: int)
    ensures
        days_from_civil(y + 400 * e, m, d) == days_from_civil(y, m, d) + 146097 * e,
        is_leap(y + 400 * e) == is_leap(y),
{
    lemma_div_shift(y - 1, 4, 100 * e);
    lemma_div_shift(y - 1, 100, 4 * e);
    lemma_div_shift(y - 1, 400, e);
    lemma_div_shift(y, 4, 100 * e);
    lemma_div_shift(y, 100, 4 * e);
    lemma_div_shift(y, 400, e);
    assert(4 * (100 * e) == 400 * e);
    assert(100 * (4 * e) == 400 * e);
}

proof fn lemma_civil_in_era(doe: int)
    requires
        0 <= doe <= 146096,
    ensures
        ({
            let c = spec_civil_from_days(doe - 719468);
            &&& days_from_civil(c.0, c.1, c.2) == doe - 719468
            &&& 1 <= c.2 <= days_in_month(c.0, c.1)
        }),
{
    lemma_civil_ranges(doe);
    let yoe = (doe - doe / 1460 + doe / 36524 - doe / 146096) / 365;
    let doy = doe - (365 * yoe + yoe / 4 - yoe / 100);
    let mp = (5 * doy + 2) / 153;
    let c = spec_civil_from_days(doe - 719468);
    assert(doe / 146097 == 0);
    assert(c.0 == (if mp >= 10 { yoe + 1 } else { yoe }));
    assert(c.1 == (if mp < 10 { mp + 3 } else { mp - 9 }));
    assert(c.2 == doy - (153 * mp + 2) / 5 + 1);
    lemma_leaps_step(yoe);
    lemma_leaps_step(yoe + 1);
    assert(yoe / 400 == 0);
    if mp == 0 {
        assert((153 * mp + 2) / 5 == 0);
    } else if mp == 1 {
        assert((153 * mp + 2) / 5 == 31);
    } else if mp == 2 {
        assert((153 * mp + 2) / 5 == 61);
    } else if mp == 3 {
        assert((153 * mp + 2) / 5 == 92);
    } else if mp == 4 {
        assert((153 * mp + 2) / 5 == 122);
    } else if mp == 5 {
        assert((153 * mp + 2) / 5 == 153);
    } else if mp == 6 {
        assert((153 * mp + 2) / 5 == 184);
    } else if mp == 7 {
        assert((153 * mp + 2) / 5 == 214);
    } else if mp == 8 {
        assert((153 * mp + 2) / 5 == 245);
    } else if mp == 9 {
        assert((153 * mp + 2) / 5 == 275);
    } else if mp == 10 {
        assert((153 * mp + 2) / 5 == 306);
    } else {
        assert((153 * mp + 2) / 5 == 337);
    }
}

/// Converting days to a date gives a real date, and converting it back gives
/// the same day.
pub proof fn lemma_civil_round_trip(z: int)
    ensures
        ({
            let c = spec_civil_from_days(z);
            &&& 1 <= c.1 <= 12
            &&& 1 <= c.2 <= days_in_month(c.0, c.1)
            &&& days_from_civil(c.0, c.1, c.2) == z
        }),
{
    let zz = z + 719468;
    let era = zz / 146097;
    let doe = zz - era * 146097;
    lemma_civil_in_era(doe);
    let c0 = spec_civil_from_days(doe - 719468);
    let c = spec_civil_from_days(z);
    assert(doe / 146097 == 0);
    assert(c.1 == c0.1 && c.2 == c0.2 && c.0 == c0.0 + 400 * era);
    lemma_days_shift(c0.0, c0.1, c0.2, era);
}

/// A real date: a month of the year and a day of that month.
pub open spec fn valid_date(c: (int, int, int)) -> bool {
    1 <= c.1 <= 12 && 1 <= c.2 <= days_in_month(c.0, c.1)
}

/// The calendar day after `c`.
pub open spec fn next_date(c: (int, int, int)) -> (int, int, int) {
    if c.2 < days_in_month(c.0, c.1) {
        (c.0, c.1, c.2 + 1)
    } else if c.1 < 12 {
        (c.0, c.1 + 1, 1)
    } else {
        (c.0 + 1, 1, 1)
    }
}

proof fn lemma_month_step(y: int, m: int)
    requires
        1 <= m < 12,
    ensures
        days_before_month(y, m + 1) == days_before_month(y, m) + days_in_month(y, m),
{
}

proof fn lemma_month_order(y: int, m1: int, m2: int)
    requires
        1 <= m1 < m2 <= 12,
    ensures
        days_before_month(y, m1) + days_in_month(y, m1) <= days_before_month(y, m2),
    decreases m2 - m1,
{
    lemma_month_step(y, m1);
    if m1 + 1 < m2 {
        lemma_month_order(y, m1 + 1, m2);
    }
}

/// A year has 365 days, 366 in a leap year.
proof fn lemma_year_length(y: int)
    ensures
        days_from_civil(y + 1, 1, 1) == days_from_civil(y, 1, 1) + if is_leap(y) {
            366int
        } else {
            365
        },
{
    lemma_leaps_step(y);
}

/// A real date falls within its year.
proof fn lemma_date_in_year(c: (int, int, int))
    requires
        valid_date(c),
    ensures
        days_from_civil(c.0, 1, 1) <= days_from_civil(c.0, c.1, c.2) < days_from_civil(c.0 + 1, 1, 1),
{
    lemma_year_length(c.0);
    if c.1 < 12 {
        lemma_month_order(c.0, c.1, 12);
    }
}

/// Later years start later.
proof fn lemma_year_order(y1: int, y2: int)
    requires
        y1 < y2,
    ensures
        days_from_civil(y1 + 1, 1, 1) <= days_from_civil(y2, 1, 1),
    decreases y2 - y1,
{
    if y1 + 1 < y2 {
        lemma_year_order(y1, y2 - 1);
        lemma_year_length(y2 - 1);
    }
}

/// Two real dates with the same day number are the same date.
proof fn lemma_days_injective(a: (int, int, int), b: (int, int, int))
    requires
        valid_date(a),
        valid_date(b),
        days_from_civil(a.0, a.1, a.2) == days_from_civil(b.0, b.1, b.2),
    ensures
        a == b,
{
    lemma_date_in_year(a);
    lemma_date_in_year(b);
    if a.0 < b.0 {
        lemma_year_order(a.0, b.0);
    } else if b.0 < a.0 {
        lemma_year_order(b.0, a.0);
    } else if a.1 < b.1 {
        lemma_month_order(a.0, a.1, b.1);
    } else if b.1 < a.1 {
        lemma_month_order(a.0, b.1, a.1);
    }
}

/// The day after a real date is a real date one day number later.
proof fn lemma_next_date(c: (int, int, int))
    requires
        valid_date(c),
    ensures
        valid_date(next_date(c)),
        days_from_civil(next_date(c).0, next_date(c).1, next_date(c).2) == days_from_civil(
            c.0,
            c.1,
            c.2,
        ) + 1,
{
    if c.2 >= days_in_month(c.0, c.1) {
        if c.1 < 12 {
            lemma_month_step(c.0, c.1);
        } else {
            lemma_year_length(c.0);
        }
    }
}

/// Day `z + 1` is the calendar day after day `z`.
pub proof fn lemma_civil_next_day(z: int)
    ensures
        spec_civil_from_days(z + 1) == next_date(spec_civil_from_days(z)),
{
    let c = spec_civil_from_days(z);
    lemma_civil_round_trip(z);
    lemma_civil_round_trip(z + 1);
    lemma_next_date(c);
    lemma_days_injective(spec_civil_from_days(z + 1), next_date(c));
}

/// Convert days since the Unix epoch to a civil `(year, month, day)`.
pub fn civil_from_days(z: i64) -> (r: (i64, u32, u32))
    requires
        z <= i64::MAX - 719468,
    ensures
        r.0 == spec_civil_from_days(z as int).0,
        r.1 == spec_civil_from_days(z as int).1,
        r.2 == spec_civil_from_days(z as int).2,
        1 <= r.1 <= 12,
        1 <= r.2 <= 31,
{
    let z = z + 719_468;
    let era: i64 = (if z >= 0 {
        z
    } else {
        z - 146_096
    }) / 146_097;
    proof {
        if z < 0 {
            lemma_era_floor(z as int);
        }
        vstd::arithmetic::div_mod::lemma_fundamental_div_mod(z as int, 146097);
        assert(era == (z as int) / 146097);
    }
    let doe = z - era * 146_097;
    proof {
        lemma_civil_ranges(doe as int);
    }
    let yoe = (doe - doe / 1460 + doe / 36_524 - doe / 146_096) / 365;
    let y = yoe + era * 400;
    let doy = doe - (365 * yoe + yoe / 4 - yoe / 100);
    let mp = (5 * doy + 2) / 153;
    let d = (doy - (153 * mp + 2) / 5 + 1) as u32;
    let m = (if mp < 10 {
        mp + 3
    } else {
        mp - 9
    }) as u32;
    (if m <= 2 {
        y + 1
    } else {
        y
    }, m, d)
}


// ---------------------------------------------------------------------------
// Status lines.

/// The status line shown when the human is to move: the note about the last
/// move, if any, then the prompt.
pub open spec fn prompt_text(note: Option<Seq<char>>, in_check: bool) -> Seq<char> {
    (match note {
        Some(n) => n + seq![' '],
        None => Seq::empty(),
    }) + if in_check {
        "Your move — you are in check!"@
    } else {
        "Your move."@
    }
}

/// The plain content of an optional string.
pub open spec fn opt_text(s: Option<&str>) -> Option<Seq<char>> {
    match s {
        Some(t) => Some(t@),
        None => None,
    }
}

/// The prompt for the human, given whether they are in check.
pub fn prompt_message(in_check: bool, last_note: Option<&str>) -> (r: String)
    ensures
        r@ == prompt_text(opt_text(last_note), in_check),
{
    let mut line = String::new();
    if let Some(note) = last_note {
        push_str(&mut line, note);
        push_char(&mut line, ' ');
    }
    if in_check {
        push_str(&mut line, "Your move — you are in check!");
    } else {
        push_str(&mut line, "Your move.");
    }
    line
}

/// The prompt for the human in position `pos`.
pub fn prompt_line(pos: &Position, last_note: Option<&str>) -> (r: String)
    ensures
        r@ == prompt_text(opt_text(last_note), crate::rules::chess_is_check(*pos)),
{
    let check = crate::rules::is_check(pos);
    prompt_message(check, last_note)
}

/// The status line while the engine thinks: the note about the last move, if
/// any, then `base`.
pub open spec fn engine_text(base: Seq<char>, note: Option<Seq<char>>) -> Seq<char> {
    match note {
        Some(n) => n + seq![' '] + base,
        None => base,
    }
}

pub fn engine_line(base: &str, last_note: Option<&str>) -> (r: String)
    ensures
        r@ == engine_text(base@, opt_text(last_note)),
{
    let mut line = String::new();
    if let Some(note) = last_note {
        push_str(&mut line, note);
        push_char(&mut line, ' ');
    }
    push_str(&mut line, base);
    line
}

/// The final status line, from the human's point of view.
pub open spec fn result_spec(outcome: Option<KnownOutcome>, human: Color) -> Seq<char> {
    match outcome {
        Some(KnownOutcome::Decisive { winner }) => if winner == human {
            "Checkmate — you win! 🎉"@
        } else {
            "Checkmate — the engine wins."@
        },
        Some(KnownOutcome::Draw) => "Draw."@,
        None => "Game over."@,
    }
}

/// The final status line for a game that ended with `outcome`.
pub fn result_message(outcome: Option<KnownOutcome>, human: Color) -> (r: String)
    ensures
        r@ == result_spec(outcome, human),
{
    let mut line = String::new();
    match outcome {
        Some(KnownOutcome::Decisive { winner }) => {
            if winner == human {
                push_str(&mut line, "Checkmate — you win! 🎉");
            } else {
                push_str(&mut line, "Checkmate — the engine wins.");
            }
        },
        Some(KnownOutcome::Draw) => push_str(&mut line, "Draw."),
        None => push_str(&mut line, "Game over."),
    }
    line
}

/// The final status line for position `pos`.
pub fn result_text(pos: &Position, human: Color) -> (r: String)
    ensures
        r@ == result_spec(crate::rules::chess_outcome(*pos), human),
{
    let outcome = crate::rules::outcome(pos);
    result_message(outcome, human)
}

// ---------------------------------------------------------------------------
// PGN.

/// The PGN result token: `1-0`, `0-1`, `1/2-1/2`, or `*` while unknown.
pub open spec fn result_token_spec(outcome: Option<KnownOutcome>) -> Seq<char> {
    match outcome {
        Some(KnownOutcome::Decisive { winner: Color::White }) => "1-0"@,
        Some(KnownOutcome::Decisive { winner: Color::Black }) => "0-1"@,
        Some(KnownOutcome::Draw) => "1/2-1/2"@,
        None => "*"@,
    }
}

/// `Outcome::as_str`: the PGN result token of an outcome.
pub fn result_token(outcome: Option<KnownOutcome>) -> (r: &'static str)
    ensures
        r@ == result_token_spec(outcome),
{
    match outcome {
        Some(KnownOutcome::Decisive { winner: Color::White }) => "1-0",
        Some(KnownOutcome::Decisive { winner: Color::Black }) => "0-1",
        Some(KnownOutcome::Draw) => "1/2-1/2",
        None => "*",
    }
}

/// The plain content of a list of strings.
pub open spec fn texts(h: Seq<String>) -> Seq<Seq<char>> {
    h.map_values(|s: String| s@)
}

/// The move number token `n.`.
pub open spec fn number_token(n: nat) -> Seq<char> {
    decimal(n) + seq!['.']
}

/// The move text tokens of a SAN history: a number before each White move,
/// then the moves.
pub open spec fn movetext_tokens(h: Seq<Seq<char>>) -> Seq<Seq<char>>
    decreases h.len(),
{
    if h.len() == 0 {
        Seq::empty()
    } else {
        let i = h.len() - 1;
        let prev = movetext_tokens(h.drop_last());
        if i % 2 == 0 {
            prev.push(number_token((i / 2 + 1) as nat)).push(h[i])
        } else {
            prev.push(h[i])
        }
    }
}

/// The length of a text in UTF-8 bytes.
pub open spec fn byte_len(s: Seq<char>) -> nat {
    vstd::utf8::encode_utf8(s).len()
}

/// The longest line of move text, in bytes.
pub const LINE_WIDTH: usize = 80;

/// Greedy line filling of `toks`: the finished lines (each ending in a
/// newline) and the line being filled. A token goes on the current line,
/// after a space, unless that would make the line longer than `LINE_WIDTH`
/// bytes; then it starts a new line.
pub open spec fn fill_lines(toks: Seq<Seq<char>>) -> (Seq<char>, Seq<char>)
    decreases toks.len(),
{
    if toks.len() == 0 {
        (Seq::empty(), Seq::empty())
    } else {
        let (out, line) = fill_lines(toks.drop_last());
        let tok = toks.last();
        if line.len() == 0 {
            (out, tok)
        } else if byte_len(line) + 1 + byte_len(tok) > LINE_WIDTH {
            (out + line + seq!['\n'], tok)
        } else {
            (out, line + seq![' '] + tok)
        }
    }
}

/// The wrapped PGN move text of a SAN history.
pub open spec fn movetext_spec(h: Seq<Seq<char>>) -> Seq<char> {
    let (out, line) = fill_lines(movetext_tokens(h));
    out + line
}

/// Lines joined by newlines.
pub open spec fn join_lines(ls: Seq<Seq<char>>) -> Seq<char>
    decreases ls.len(),
{
    if ls.len() <= 1 {
        if ls.len() == 1 {
            ls[0]
        } else {
            Seq::empty()
        }
    } else {
        join_lines(ls.drop_last()) + seq!['\n'] + ls.last()
    }
}

/// The lines the greedy filling of `toks` makes, the last one still open.
pub open spec fn wrapped_lines(toks: Seq<Seq<char>>) -> Seq<Seq<char>>
    decreases toks.len(),
{
    if toks.len() == 0 {
        seq![Seq::empty()]
    } else {
        let ls = wrapped_lines(toks.drop_last());
        let line = ls.last();
        let tok = toks.last();
        if line.len() == 0 {
            ls.update(ls.len() - 1, tok)
        } else if byte_len(line) + 1 + byte_len(tok) > LINE_WIDTH {
            ls.push(tok)
        } else {
            ls.update(ls.len() - 1, line + seq![' '] + tok)
        }
    }
}

/// UTF-8 lengths add up.
proof fn lemma_byte_len_concat(a: Seq<char>, b: Seq<char>)
    ensures
        byte_len(a + b) == byte_len(a) + byte_len(b),
    decreases a.len(),
{
    if a.len() > 0 {
        lemma_byte_len_concat(a.drop_first(), b);
        assert((a + b).drop_first() =~= a.drop_first() + b);
        assert((a + b)[0] == a[0]);
    } else {
        assert(a + b =~= b);
    }
}

proof fn lemma_wrapped_lines(toks: Seq<Seq<char>>)
    ensures
        wrapped_lines(toks).len() >= 1,
        fill_lines(toks).1 == wrapped_lines(toks).last(),
        fill_lines(toks).0 + fill_lines(toks).1 == join_lines(wrapped_lines(toks)),
        forall|i: int|
            0 <= i < wrapped_lines(toks).len() ==> byte_len(#[trigger] wrapped_lines(toks)[i])
                <= LINE_WIDTH || toks.contains(wrapped_lines(toks)[i]) || wrapped_lines(toks)[i].len() == 0,
    decreases toks.len(),
{
    if toks.len() > 0 {
        let prev = toks.drop_last();
        lemma_wrapped_lines(prev);
        let ls = wrapped_lines(prev);
        let line = ls.last();
        let tok = toks.last();
        let (out, cur) = fill_lines(prev);
        assert(toks.contains(tok)) by {
            assert(toks[toks.len() - 1] == tok);
        }
        assert forall|t: Seq<char>| prev.contains(t) implies toks.contains(t) by {
            let k = choose|k: int| 0 <= k < prev.len() && prev[k] == t;
            assert(toks[k] == t);
        }
        if line.len() == 0 {
            if ls.len() > 1 {
                assert(ls.update(ls.len() - 1, tok).drop_last() =~= ls.drop_last());
            }
        } else if byte_len(line) + 1 + byte_len(tok) > LINE_WIDTH {
            assert(ls.push(tok).drop_last() =~= ls);
            if ls.len() > 1 {
                assert(out + cur + seq!['\n'] + tok =~= join_lines(ls) + seq!['\n'] + tok);
            } else {
                assert(out + cur + seq!['\n'] + tok =~= join_lines(ls) + seq!['\n'] + tok);
            }
        } else {
            lemma_byte_len_concat(line, seq![' ']);
            lemma_byte_len_concat(line + seq![' '], tok);
            assert(byte_len(seq![' ']) == 1) by {
                reveal_with_fuel(vstd::utf8::encode_utf8, 2);
            }
            if ls.len() > 1 {
                assert(ls.update(ls.len() - 1, line + seq![' '] + tok).drop_last() =~= ls.drop_last());
                let j = join_lines(ls.drop_last()) + seq!['\n'];
                assert(out + cur == j + line);
                assert(out =~= (out + cur).subrange(0, out.len() as int));
                assert(j =~= (j + line).subrange(0, j.len() as int));
                assert(out == j);
                assert(out + (cur + seq![' '] + tok) =~= join_lines(ls.drop_last()) + seq!['\n'] + (
                line + seq![' '] + tok));
            } else {
                assert(out + (cur + seq![' '] + tok) =~= line + seq![' '] + tok);
            }
        }
    }
}

/// The move text is wrapped at `LINE_WIDTH` bytes: it is its lines joined
/// by newlines, and every line fits in the width unless it is one token
/// too long to fit on any line.
pub proof fn lemma_movetext_width(h: Seq<Seq<char>>)
    ensures
        ({
            let toks = movetext_tokens(h);
            let ls = wrapped_lines(toks);
            &&& movetext_spec(h) == join_lines(ls)
            &&& forall|i: int|
                0 <= i < ls.len() ==> byte_len(#[trigger] ls[i]) <= LINE_WIDTH || toks.contains(ls[i])
                    || ls[i].len() == 0
        }),
{
    lemma_wrapped_lines(movetext_tokens(h));
}

/// Turn a SAN move list into wrapped PGN move text: `1. e4 e5 2. Nf3 …`.
pub fn movetext(history: &[String]) -> (r: String)
    ensures
        r@ == movetext_spec(texts(history@)),
{
    let ghost h = texts(history@);
    let mut tokens: Vec<String> = Vec::new();
    let mut i: usize = 0;
    while i < history.len()
        invariant
            i <= history@.len(),
            h == texts(history@),
            texts(tokens@) == movetext_tokens(h.take(i as int)),
        decreases history@.len() - i,
    {
        let ghost before = texts(tokens@);
        assert(h.take(i as int + 1).drop_last() =~= h.take(i as int));
        assert(h.take(i as int + 1)[i as int] == history@[i as int]@);
        if i % 2 == 0 {
            let mut num = String::new();
            push_decimal(&mut num, (i / 2 + 1) as u64);
            push_char(&mut num, '.');
            assert(num@ == number_token((i / 2 + 1) as nat));
            tokens.push(num);
            assert(texts(tokens@) =~= before.push(number_token((i / 2 + 1) as nat)));
        }
        let ghost mid = texts(tokens@);
        tokens.push(history[i].clone());
        assert(texts(tokens@) =~= mid.push(history@[i as int]@));
        assert(texts(tokens@) =~= movetext_tokens(h.take(i as int + 1)));
        i = i + 1;
    }
    assert(h.take(history@.len() as int) =~= h);
    let ghost toks = texts(tokens@);
    let mut out = String::new();
    let mut line = String::new();
    let mut k: usize = 0;
    while k < tokens.len()
        invariant
            k <= tokens@.len(),
            toks == texts(tokens@),
            (out@, line@) == fill_lines(toks.take(k as int)),
        decreases tokens@.len() - k,
    {
        assert(toks.take(k as int + 1).drop_last() =~= toks.take(k as int));
        assert(toks.take(k as int + 1).last() == tokens@[k as int]@);
        let ghost prev = fill_lines(toks.take(k as int));
        let ghost t = tokens@[k as int]@;
        assert(fill_lines(toks.take(k as int + 1)) == (if prev.1.len() == 0 {
            (prev.0, t)
        } else if byte_len(prev.1) + 1 + byte_len(t) > LINE_WIDTH {
            (prev.0 + prev.1 + seq!['\n'], t)
        } else {
            (prev.0, prev.1 + seq![' '] + t)
        }));
        let tok = &tokens[k];
        if line.as_str().is_empty() {
            line = tok.clone();
        } else if line.as_str().as_bytes().len() >= LINE_WIDTH || tok.as_str().as_bytes().len()
            > LINE_WIDTH - 1 - line.as_str().as_bytes().len() {
            push_str(&mut out, line.as_str());
            push_char(&mut out, '\n');
            line = tok.clone();
        } else {
            push_char(&mut line, ' ');
            push_str(&mut line, tok.as_str());
        }
        assert((out@, line@) == fill_lines(toks.take(k as int + 1)));
        k = k + 1;
    }
    assert(toks.take(tokens@.len() as int) =~= toks);
    push_str(&mut out, line.as_str());
    out
}


/// The players' names for the PGN roster, White then Black.
pub open spec fn roster(human: Color) -> (Seq<char>, Seq<char>) {
    match human {
        Color::White => ("Human"@, "Rust Chess Engine"@),
        Color::Black => ("Rust Chess Engine"@, "Human"@),
    }
}

/// The PGN document of a game: the seven-tag roster, a blank line, the move
/// text and the result token.
pub open spec fn pgn_text(
    h: Seq<Seq<char>>,
    outcome: Option<KnownOutcome>,
    human: Color,
    y: int,
    m: nat,
    d: nat,
) -> Seq<char> {
    let result = result_token_spec(outcome);
    let body = movetext_spec(h);
    "[Event \"Casual game\"]\n"@ + "[Site \"Rust Chess TUI\"]\n"@ + "[Date \""@ + year_text(y)
        + seq!['.'] + padded_decimal(m, 2) + seq!['.'] + padded_decimal(d, 2) + "\"]\n"@
        + "[Round \"-\"]\n"@ + "[White \""@ + roster(human).0 + "\"]\n"@ + "[Black \""@ + roster(
        human,
    ).1 + "\"]\n"@ + "[Result \""@ + result + "\"]\n"@ + seq!['\n'] + (if body.len() == 0 {
        result
    } else {
        body + seq![' '] + result
    }) + seq!['\n']
}

/// The PGN document of a game with SAN moves `history`, ended with `outcome`
/// (or not ended), played on `date`.
pub fn pgn_document(
    history: &[String],
    outcome: Option<KnownOutcome>,
    human: Color,
    date: (i64, u32, u32),
) -> (r: String)
    ensures
        r@ == pgn_text(
            texts(history@),
            outcome,
            human,
            date.0 as int,
            date.1 as nat,
            date.2 as nat,
        ),
{
    let result = result_token(outcome);
    let (white, black) = match human {
        Color::White => ("Human", "Rust Chess Engine"),
        Color::Black => ("Rust Chess Engine", "Human"),
    };
    let (y, m, d) = date;
    let mut pgn = String::new();
    push_str(&mut pgn, "[Event \"Casual game\"]\n");
    push_str(&mut pgn, "[Site \"Rust Chess TUI\"]\n");
    push_str(&mut pgn, "[Date \"");
    push_year(&mut pgn, y);
    push_char(&mut pgn, '.');
    push_padded(&mut pgn, m as u64, 2);
    push_char(&mut pgn, '.');
    push_padded(&mut pgn, d as u64, 2);
    push_str(&mut pgn, "\"]\n");
    push_str(&mut pgn, "[Round \"-\"]\n");
    push_str(&mut pgn, "[White \"");
    push_str(&mut pgn, white);
    push_str(&mut pgn, "\"]\n");
    push_str(&mut pgn, "[Black \"");
    push_str(&mut pgn, black);
    push_str(&mut pgn, "\"]\n");
    push_str(&mut pgn, "[Result \"");
    push_str(&mut pgn, result);
    push_str(&mut pgn, "\"]\n");
    push_char(&mut pgn, '\n');
    let ghost head = pgn@;
    let body = movetext(history);
    if body.as_str().is_empty() {
        push_str(&mut pgn, result);
    } else {
        push_str(&mut pgn, body.as_str());
        push_char(&mut pgn, ' ');
        push_str(&mut pgn, result);
    }
    push_char(&mut pgn, '\n');
    assert(pgn@ =~= pgn_text(
        texts(history@),
        outcome,
        human,
        date.0 as int,
        date.1 as nat,
        date.2 as nat,
    ));
    pgn
}

/// `SystemTime::now().duration_since(UNIX_EPOCH)`, in whole seconds; `None`
/// when the clock is set before 1970. It reads the clock, so nothing is stated
/// of what it returns.
#[verifier::external_body]
fn unix_seconds() -> Option<u64> {
    std::time::SystemTime::now().duration_since(std::time::UNIX_EPOCH).ok().map(|d| d.as_secs())
}

/// The UTC date of a clock reading of `reading` seconds since 1970-01-01
/// (`None`, a clock set before 1970, reads as 1970-01-01): the civil date of
/// the whole days elapsed.
pub fn date_of_clock(reading: Option<u64>) -> (r: (i64, u32, u32))
    ensures
        reading matches Some(s) ==> (s <= i64::MAX ==> (r.0 as int, r.1 as int, r.2 as int)
            == spec_civil_from_days(s as int / 86400)),
        reading is None ==> r == (1970i64, 1u32, 1u32),
        exists|secs: i64|
            #[trigger] spec_civil_from_days(secs as int / 86400) == (
                r.0 as int,
                r.1 as int,
                r.2 as int,
            ),
        1 <= r.1 <= 12,
        1 <= r.2 <= 31,
{
    let secs: i64 = match reading {
        Some(s) => s as i64,
        None => 0,
    };
    let q = secs / 86_400;
    let rem = secs % 86_400;
    let days = if rem < 0 {
        q - 1
    } else {
        q
    };
    proof {
        vstd::arithmetic::div_mod::lemma_fundamental_div_mod(secs as int, 86400);
        if rem < 0 {
            vstd::arithmetic::div_mod::lemma_fundamental_div_mod_converse(
                secs as int,
                86400,
                days as int,
                rem + 86400,
            );
        } else {
            vstd::arithmetic::div_mod::lemma_fundamental_div_mod_converse(
                secs as int,
                86400,
                days as int,
                rem as int,
            );
        }
        assert(days == secs as int / 86400);
    }
    let r = civil_from_days(days);
    assert(spec_civil_from_days(secs as int / 86400) == (r.0 as int, r.1 as int, r.2 as int));
    r
}


/// The current UTC date as `(year, month, day)`: the date of the system
/// clock's reading (see [`date_of_clock`]).
pub fn today_utc() -> (r: (i64, u32, u32))
    ensures
        exists|secs: i64|
            #[trigger] spec_civil_from_days(secs as int / 86400) == (
                r.0 as int,
                r.1 as int,
                r.2 as int,
            ),
        1 <= r.1 <= 12,
        1 <= r.2 <= 31,
{
    date_of_clock(unix_seconds())
}

/// Build a complete PGN document for a finished game, dated today.
pub fn to_pgn(history: &[String], pos: &Position, human: Color) -> (r: String)
    ensures
        exists|y: i64, m: u32, d: u32|
            1 <= m <= 12 && 1 <= d <= 31 && r@ == pgn_text(
                texts(history@),
                crate::rules::chess_outcome(*pos),
                human,
                y as int,
                m as nat,
                d as nat,
            ),
{
    let outcome = crate::rules::outcome(pos);
    let date = today_utc();
    pgn_document(history, outcome, human, date)
}


// ---------------------------------------------------------------------------
// The game.

/// Everything a front end needs to render a single game position.
pub struct BoardView {
    /// The position to display.
    pub pos: Position,
    /// The side the human is playing; used to orient the board.
    pub perspective: Color,
    /// The move that produced `pos`, if any (for highlighting).
    pub last_move: Option<ChessMove>,
    /// A short human-readable status / prompt line.
    pub status: String,
}

/// The outcome of asking a human for a move.
pub enum PlayerMove {
    /// Play this (legal) move.
    Play(ChessMove),
    /// The human wants to abandon the game.
    Quit,
}

/// What the game loop does next.
pub enum Step {
    /// Ask the human for a move in this view.
    AskHuman(BoardView),
    /// Show this view and let the engine think.
    EngineTurn(BoardView),
    /// The game is over.
    Over,
}

/// A game between the human and the engine: the position, the last move,
/// the note about it shown above the board, and the SAN record.
pub struct Game {
    pub human: Color,
    pub pos: Position,
    pub last_move: Option<ChessMove>,
    pub last_note: Option<String>,
    pub history: Vec<String>,
}

/// The plain content of an optional string.
pub open spec fn opt_string(s: Option<String>) -> Option<Seq<char>> {
    match s {
        Some(t) => Some(t@),
        None => None,
    }
}

/// The status line while the engine thinks.
pub open spec fn thinking_text() -> Seq<char> {
    "Engine is thinking…"@
}

/// The note shown after a move: `"{who} played {san}."`.
pub open spec fn note_text(who: Seq<char>, san: Seq<char>) -> Seq<char> {
    who + " played "@ + san + seq!['.']
}

impl Game {
    /// A new game from the initial position, the human playing `human`.
    pub fn new(human: Color) -> (r: Game)
        ensures
            r.human == human,
            r.pos == Position::initial(),
            r.last_move is None,
            r.last_note is None,
            r.history@.len() == 0,
    {
        Game {
            human,
            pos: crate::rules::start_position(),
            last_move: None,
            last_note: None,
            history: Vec::new(),
        }
    }

    fn note(&self) -> (r: Option<&str>)
        ensures
            opt_text(r) == opt_string(self.last_note),
    {
        match &self.last_note {
            Some(n) => Some(n.as_str()),
            None => None,
        }
    }

    /// What happens next: the game is over once the rules say so; otherwise
    /// the side to move decides whether the human is asked (with a prompt) or
    /// the engine thinks (with a status line).
    pub fn next_step(&self) -> (r: Step)
        ensures
            crate::rules::chess_is_game_over(self.pos) ==> r is Over,
            !crate::rules::chess_is_game_over(self.pos) && self.pos.spec_turn() == self.human ==> (
            r matches Step::AskHuman(v) && v.pos == self.pos && v.perspective == self.human
                && v.last_move == self.last_move && v.status@ == prompt_text(
                opt_string(self.last_note),
                crate::rules::chess_is_check(self.pos),
            )),
            !crate::rules::chess_is_game_over(self.pos) && self.pos.spec_turn() != self.human ==> (
            r matches Step::EngineTurn(v) && v.pos == self.pos && v.perspective == self.human
                && v.last_move == self.last_move && v.status@ == engine_text(
                thinking_text(),
                opt_string(self.last_note),
            )),
    {
        if crate::rules::is_game_over(&self.pos) {
            return Step::Over;
        }
        if self.pos.turn() == self.human {
            Step::AskHuman(
                BoardView {
                    pos: self.pos,
                    perspective: self.human,
                    last_move: self.last_move,
                    status: prompt_line(&self.pos, self.note()),
                },
            )
        } else {
            Step::EngineTurn(
                BoardView {
                    pos: self.pos,
                    perspective: self.human,
                    last_move: self.last_move,
                    status: engine_line("Engine is thinking…", self.note()),
                },
            )
        }
    }

    fn record(&mut self, mv: ChessMove, who: &str)
        requires
            crate::rules::chess_legal_moves(old(self).pos).contains(mv),
        ensures
            final(self).human == old(self).human,
            final(self).pos == crate::rules::chess_play(old(self).pos, mv),
            final(self).last_move == Some(mv),
            texts(final(self).history@) == texts(old(self).history@).push(
                crate::rules::chess_san_plus(old(self).pos, mv),
            ),
            opt_string(final(self).last_note) == Some(
                note_text(who@, crate::rules::chess_san_plus(old(self).pos, mv)),
            ),
    {
        let san = crate::rules::san_plus(&self.pos, mv);
        let mut note = String::new();
        push_str(&mut note, who);
        push_str(&mut note, " played ");
        push_str(&mut note, san.as_str());
        push_char(&mut note, '.');
        assert(note@ =~= note_text(who@, san@));
        self.last_note = Some(note);
        let ghost before = texts(self.history@);
        self.history.push(san);
        assert(texts(self.history@) =~= before.push(crate::rules::chess_san_plus(old(self).pos, mv)));
        self.last_move = Some(mv);
        self.pos = crate::rules::play(&self.pos, mv);
    }

    /// The human played the legal move `mv`.
    pub fn play_human(&mut self, mv: ChessMove)
        requires
            crate::rules::chess_legal_moves(old(self).pos).contains(mv),
        ensures
            final(self).human == old(self).human,
            final(self).pos == crate::rules::chess_play(old(self).pos, mv),
            final(self).last_move == Some(mv),
            texts(final(self).history@) == texts(old(self).history@).push(
                crate::rules::chess_san_plus(old(self).pos, mv),
            ),
            opt_string(final(self).last_note) == Some(
                note_text("You"@, crate::rules::chess_san_plus(old(self).pos, mv)),
            ),
    {
        self.record(mv, "You");
    }

    /// The engine played the legal move `mv`.
    pub fn play_engine(&mut self, mv: ChessMove)
        requires
            crate::rules::chess_legal_moves(old(self).pos).contains(mv),
        ensures
            final(self).human == old(self).human,
            final(self).pos == crate::rules::chess_play(old(self).pos, mv),
            final(self).last_move == Some(mv),
            texts(final(self).history@) == texts(old(self).history@).push(
                crate::rules::chess_san_plus(old(self).pos, mv),
            ),
            opt_string(final(self).last_note) == Some(
                note_text("Engine"@, crate::rules::chess_san_plus(old(self).pos, mv)),
            ),
    {
        self.record(mv, "Engine");
    }

    /// The final view (with the result line) and the game's PGN record.
    pub fn finish(&self) -> (r: (BoardView, String))
        ensures
            r.0.pos == self.pos,
            r.0.perspective == self.human,
            r.0.last_move == self.last_move,
            r.0.status@ == result_spec(crate::rules::chess_outcome(self.pos), self.human),
            exists|y: i64, m: u32, d: u32|
                1 <= m <= 12 && 1 <= d <= 31 && r.1@ == pgn_text(
                    texts(self.history@),
                    crate::rules::chess_outcome(self.pos),
                    self.human,
                    y as int,
                    m as nat,
                    d as nat,
                ),
    {
        let pgn = to_pgn(self.history.as_slice(), &self.pos, self.human);
        let view = BoardView {
            pos: self.pos,
            perspective: self.human,
            last_move: self.last_move,
            status: result_text(&self.pos, self.human),
        };
        (view, pgn)
    }
}

} // verus!
