//! The UCI protocol: the commands a GUI sends, what the engine decides on
//! each of them, and the lines it answers with.
//!
//! Reading lines, writing answers and running the engine thread belong to the
//! program around the library; every decision in between is made here, as a
//! function from the handler's state and an event to its next state and a
//! list of [`Action`]s.

use vstd::prelude::*;
use crate::chess::{ChessMove, Color, Position};
use crate::interface::{ChessEngine, Clock, Limits, LimitsView, Score, SearchProgress, SearchResult, TimeMode};
use crate::search::SearchEngine;
use crate::rules::{chess_legal_moves, chess_play, on_board};
use vampirc_uci::{UciMessage, UciOptionConfig, UciTimeControl};
use crate::text::{decimal, push_char, push_decimal, push_signed, push_str, signed_decimal, string_of};

verus! {

// ---------------------------------------------------------------------------
// Commands.

/// The time controls of a `go` command; durations in milliseconds.
#[derive(Clone, Copy, PartialEq, Eq, Structural, Debug)]
pub enum GoTime {
    Ponder,
    Infinite,
    TimeLeft {
        white_time: Option<i64>,
        black_time: Option<i64>,
        white_increment: Option<i64>,
        black_increment: Option<i64>,
        moves_to_go: Option<u8>,
    },
    MoveTime(i64),
}

/// The search parameters of a `go` command; moves in UCI notation.
pub struct GoSearch {
    pub search_moves: Vec<String>,
    pub mate: Option<u8>,
    pub depth: Option<u8>,
    pub nodes: Option<u64>,
}

/// A command from the GUI.
pub enum UciCommand {
    Uci,
    IsReady,
    Quit,
    Stop,
    UciNewGame,
    PonderHit,
    SetOption { name: String, value: Option<String> },
    Position { startpos: bool, fen: Option<String>, moves: Vec<String> },
    Go { time_control: Option<GoTime>, search_control: Option<GoSearch> },
    /// A line the parser did not understand.
    Unknown,
    /// A message this engine does not act on.
    Other,
}

/// The plain content of a [`GoSearch`].
pub struct GoSearchView {
    pub search_moves: Seq<Seq<char>>,
    pub mate: Option<u8>,
    pub depth: Option<u8>,
    pub nodes: Option<u64>,
}

/// The plain content of a [`UciCommand`].
pub enum UciCommandView {
    Uci,
    IsReady,
    Quit,
    Stop,
    UciNewGame,
    PonderHit,
    SetOption { name: Seq<char>, value: Option<Seq<char>> },
    Position { startpos: bool, fen: Option<Seq<char>>, moves: Seq<Seq<char>> },
    Go { time_control: Option<GoTime>, search_control: Option<GoSearchView> },
    Unknown,
    Other,
}

/// The plain content of a list of strings.
pub open spec fn texts(v: Seq<String>) -> Seq<Seq<char>> {
    v.map_values(|s: String| s@)
}

impl View for GoSearch {
    type V = GoSearchView;

    open spec fn view(&self) -> GoSearchView {
        GoSearchView {
            search_moves: texts(self.search_moves@),
            mate: self.mate,
            depth: self.depth,
            nodes: self.nodes,
        }
    }
}

impl View for UciCommand {
    type V = UciCommandView;

    open spec fn view(&self) -> UciCommandView {
        match self {
            UciCommand::Uci => UciCommandView::Uci,
            UciCommand::IsReady => UciCommandView::IsReady,
            UciCommand::Quit => UciCommandView::Quit,
            UciCommand::Stop => UciCommandView::Stop,
            UciCommand::UciNewGame => UciCommandView::UciNewGame,
            UciCommand::PonderHit => UciCommandView::PonderHit,
            UciCommand::SetOption { name, value } => UciCommandView::SetOption {
                name: name@,
                value: match value {
                    Some(v) => Some(v@),
                    None => None,
                },
            },
            UciCommand::Position { startpos, fen, moves } => UciCommandView::Position {
                startpos: *startpos,
                fen: match fen {
                    Some(f) => Some(f@),
                    None => None,
                },
                moves: texts(moves@),
            },
            UciCommand::Go { time_control, search_control } => UciCommandView::Go {
                time_control: *time_control,
                search_control: match search_control {
                    Some(s) => Some(s@),
                    None => None,
                },
            },
            UciCommand::Unknown => UciCommandView::Unknown,
            UciCommand::Other => UciCommandView::Other,
        }
    }
}

/// The commands that `vampirc_uci::parse_with_unknown` reads from a line.
pub uninterp spec fn uci_parse(line: Seq<char>) -> Seq<UciCommandView>;

/// The plain content of a list of commands.
pub open spec fn commands(v: Seq<UciCommand>) -> Seq<UciCommandView> {
    v.map_values(|c: UciCommand| c@)
}

#[verifier::external_type_specification]
#[verifier::external_body]
pub struct ExUciMessage(vampirc_uci::UciMessage);

#[verifier::external_type_specification]
#[verifier::external_body]
pub struct ExUciTimeControl(vampirc_uci::UciTimeControl);

#[verifier::external_type_specification]
#[verifier::external_body]
pub struct ExUciSearchControl(vampirc_uci::UciSearchControl);

/// The time controls of a `go` message, durations through
/// `Duration::num_milliseconds`; a conversion `parse_line` uses.
#[verifier::external_body]
fn go_time_of(t: &UciTimeControl) -> GoTime {
    match t {
        UciTimeControl::Ponder => GoTime::Ponder,
        UciTimeControl::Infinite => GoTime::Infinite,
        UciTimeControl::TimeLeft { white_time, black_time, white_increment, black_increment, moves_to_go } => GoTime::TimeLeft {
            white_time: white_time.map(|d| d.num_milliseconds()),
            black_time: black_time.map(|d| d.num_milliseconds()),
            white_increment: white_increment.map(|d| d.num_milliseconds()),
            black_increment: black_increment.map(|d| d.num_milliseconds()),
            moves_to_go: *moves_to_go,
        },
        UciTimeControl::MoveTime(d) => GoTime::MoveTime(d.num_milliseconds()),
    }
}

/// The search controls of a `go` message, moves through their `Display`; a
/// conversion `parse_line` uses.
#[verifier::external_body]
fn go_search_of(s: &vampirc_uci::UciSearchControl) -> GoSearch {
    GoSearch {
        search_moves: s.search_moves.iter().map(|m| m.to_string()).collect(),
        mate: s.mate,
        depth: s.depth,
        nodes: s.nodes,
    }
}

/// The command of a `position` message, the FEN and moves as text; a
/// conversion `parse_line` uses.
#[verifier::external_body]
fn position_command_of(m: &UciMessage) -> UciCommand {
    match m {
        UciMessage::Position { startpos, fen, moves } => UciCommand::Position {
            startpos: *startpos,
            fen: fen.as_ref().map(|f| f.as_str().to_string()),
            moves: moves.iter().map(|mv| mv.to_string()).collect(),
        },
        _ => UciCommand::Other,
    }
}

/// The command of a `go` message; a conversion `parse_line` uses.
#[verifier::external_body]
fn go_command_of(m: &UciMessage) -> UciCommand {
    match m {
        UciMessage::Go { time_control, search_control } => UciCommand::Go {
            time_control: time_control.as_ref().map(go_time_of),
            search_control: search_control.as_ref().map(go_search_of),
        },
        _ => UciCommand::Other,
    }
}

/// The command of a parsed message, variant by variant; a conversion
/// `parse_line` uses.
#[verifier::external_body]
fn command_of(m: &UciMessage) -> UciCommand {
    match m {
        UciMessage::Uci => UciCommand::Uci,
        UciMessage::IsReady => UciCommand::IsReady,
        UciMessage::Quit => UciCommand::Quit,
        UciMessage::Stop => UciCommand::Stop,
        UciMessage::UciNewGame => UciCommand::UciNewGame,
        UciMessage::PonderHit => UciCommand::PonderHit,
        UciMessage::SetOption { name, value } => UciCommand::SetOption { name: name.clone(), value: value.clone() },
        UciMessage::Position { .. } => position_command_of(m),
        UciMessage::Go { .. } => go_command_of(m),
        UciMessage::Unknown(..) => UciCommand::Unknown,
        _ => UciCommand::Other,
    }
}

// ---------------------------------------------------------------------------
// The numbers the parser reads into a byte.

/// `c` is the lower-case letter `k` in either case (the grammar's keywords
/// are case-insensitive).
pub open spec fn same_letter(c: char, k: char) -> bool {
    c == k || ('a' <= k <= 'z' && (c as u32) + 32 == (k as u32))
}

/// The keyword `k` (lower case) stands in `t` at `i`, in any letter case.
pub open spec fn keyword_at(t: Seq<char>, k: Seq<char>, i: int) -> bool {
    &&& 0 <= i
    &&& i + k.len() <= t.len()
    &&& forall|q: int| 0 <= q < k.len() ==> same_letter(#[trigger] t[i + q], k[q])
}

/// A space or a tab: the grammar's white space.
pub open spec fn is_blank(c: char) -> bool {
    c == ' ' || c == '\t'
}

/// Three decimal digits at `e` whose number does not fit in a byte.
pub open spec fn big_number_at(t: Seq<char>, e: int) -> bool {
    &&& 0 <= e
    &&& e + 3 <= t.len()
    &&& is_digit(t[e]) && is_digit(t[e + 1]) && is_digit(t[e + 2])
    &&& 100 * (t[e] as int - '0' as int) + 10 * (t[e + 1] as int - '0' as int) + (t[e + 2] as int
        - '0' as int) > 255
}

/// From `j` on, `t` has one or more blanks and then a three-digit number
/// beyond 255.
pub open spec fn blanks_then_big(t: Seq<char>, j: int) -> bool {
    exists|e: int|
        j < e && (forall|q: int| j <= q < e ==> is_blank(#[trigger] t[q])) && #[trigger] big_number_at(
            t,
            e,
        )
}

/// The keywords whose number the parser reads into a byte: `depth` (also the
/// end of `seldepth`), `mate` and `movestogo`.
pub open spec fn byte_keywords() -> Seq<Seq<char>> {
    seq![seq!['d', 'e', 'p', 't', 'h'], seq!['m', 'a', 't', 'e'], seq![
        'm', 'o', 'v', 'e', 's', 't', 'o', 'g', 'o'
    ]]
}

/// The line has one of those keywords followed by a number beyond 255: the
/// parser's `str::parse::<u8>(..).unwrap()` on such a field panics.
pub open spec fn byte_field_overflows(t: Seq<char>) -> bool {
    exists|i: int, w: int|
        0 <= w < 3 && #[trigger] keyword_at(t, byte_keywords()[w], i) && blanks_then_big(
            t,
            i + byte_keywords()[w].len(),
        )
}

fn letter_matches(c: char, k: char) -> (r: bool)
    ensures
        r == same_letter(c, k),
{
    c == k || ('a' <= k && k <= 'z' && (c as u32) + 32 == (k as u32))
}

/// Whether the keyword `k` stands in `t` at `i`.
fn keyword_here(t: &str, n: usize, i: usize, k: &Vec<char>) -> (r: bool)
    requires
        n == t@.len(),
    ensures
        r == keyword_at(t@, k@, i as int),
{
    if i > n || k.len() > n - i {
        return false;
    }
    let mut q: usize = 0;
    while q < k.len()
        invariant
            n == t@.len(),
            i + k@.len() <= n,
            q <= k@.len(),
            forall|j: int| 0 <= j < q ==> same_letter(#[trigger] t@[i + j], k@[j]),
        decreases k@.len() - q,
    {
        if !letter_matches(t.get_char(i + q), k[q]) {
            return false;
        }
        q = q + 1;
    }
    true
}

fn blank(c: char) -> (r: bool)
    ensures
        r == is_blank(c),
{
    c == ' ' || c == '\t'
}

fn digit_value(c: char) -> (r: u32)
    requires
        is_digit(c),
    ensures
        r == c as int - '0' as int,
        r <= 9,
{
    (c as u32) - ('0' as u32)
}

/// Whether, from `j` on, `t` has blanks and then a number beyond 255.
fn blanks_then_big_here(t: &str, n: usize, j: usize) -> (r: bool)
    requires
        n == t@.len(),
    ensures
        r == blanks_then_big(t@, j as int),
{
    if j >= n {
        return false;
    }
    let mut e: usize = j;
    while e < n && blank(t.get_char(e))
        invariant
            n == t@.len(),
            j <= e <= n,
            forall|q: int| j <= q < e ==> is_blank(#[trigger] t@[q]),
        decreases n - e,
    {
        e = e + 1;
    }
    // The blanks end at `e`: a number can only start there.
    proof {
        assert forall|e2: int| j < e2 && e2 != e && (forall|q: int| j <= q < e2 ==> is_blank(#[trigger] t@[q]))
            implies !big_number_at(t@, e2) by {
            if e2 < e {
                assert(is_blank(t@[e2]));
            } else if e < n {
                assert(is_blank(t@[e as int]));
            }
        }
    }
    if e == j || n - e < 3 {
        proof {
            if e == j {
                assert forall|e2: int| j < e2 && (forall|q: int| j <= q < e2 ==> is_blank(#[trigger] t@[q]))
                    implies !big_number_at(t@, e2) by {
                    assert(is_blank(t@[j as int]));
                }
            }
        }
        return false;
    }
    let c0 = t.get_char(e);
    let c1 = t.get_char(e + 1);
    let c2 = t.get_char(e + 2);
    let digits = '0' <= c0 && c0 <= '9' && '0' <= c1 && c1 <= '9' && '0' <= c2 && c2 <= '9';
    if !digits {
        return false;
    }
    let v = 100 * digit_value(c0) + 10 * digit_value(c1) + digit_value(c2);
    let big = v > 255;
    proof {
        if big {
            assert(big_number_at(t@, e as int));
        }
    }
    big
}

/// Whether every number the parser reads into a byte fits in one: no
/// `depth`, `seldepth`, `mate` or `movestogo` is followed by a number beyond
/// 255.
pub fn byte_fields_fit(line: &str) -> (r: bool)
    ensures
        r == !byte_field_overflows(line@),
{
    let n = line.unicode_len();
    let kw_depth: Vec<char> = vec!['d', 'e', 'p', 't', 'h'];
    let kw_mate: Vec<char> = vec!['m', 'a', 't', 'e'];
    let kw_movestogo: Vec<char> = vec!['m', 'o', 'v', 'e', 's', 't', 'o', 'g', 'o'];
    assert(kw_depth@ =~= byte_keywords()[0]);
    assert(kw_mate@ =~= byte_keywords()[1]);
    assert(kw_movestogo@ =~= byte_keywords()[2]);
    let ghost t = line@;
    let mut i: usize = 0;
    while i < n
        invariant
            n == t.len(),
            t == line@,
            i <= n,
            kw_depth@ == byte_keywords()[0],
            kw_mate@ == byte_keywords()[1],
            kw_movestogo@ == byte_keywords()[2],
            forall|i2: int, w: int|
                0 <= i2 < i && 0 <= w < 3 ==> !(#[trigger] keyword_at(t, byte_keywords()[w], i2)
                    && blanks_then_big(t, i2 + byte_keywords()[w].len())),
        decreases n - i,
    {
        let kws = [&kw_depth, &kw_mate, &kw_movestogo];
        let mut w: usize = 0;
        while w < 3
            invariant
                n == t.len(),
                t == line@,
                i < n,
                kw_depth@ == byte_keywords()[0],
                kw_mate@ == byte_keywords()[1],
                kw_movestogo@ == byte_keywords()[2],
                kws@ == seq![&kw_depth, &kw_mate, &kw_movestogo],
                w <= 3,
                forall|i2: int, w2: int|
                    0 <= i2 < i && 0 <= w2 < 3 ==> !(#[trigger] keyword_at(t, byte_keywords()[w2], i2)
                        && blanks_then_big(t, i2 + byte_keywords()[w2].len())),
                forall|w2: int|
                    0 <= w2 < w ==> !(#[trigger] keyword_at(t, byte_keywords()[w2], i as int)
                        && blanks_then_big(t, i + byte_keywords()[w2].len())),
            decreases 3 - w,
        {
            let k = kws[w];
            assert(k@ == byte_keywords()[w as int]);
            if keyword_here(line, n, i, k) {
                if blanks_then_big_here(line, n, i + k.len()) {
                    assert(keyword_at(t, byte_keywords()[w as int], i as int));
                    return false;
                }
            }
            w = w + 1;
        }
        i = i + 1;
    }
    proof {
        assert forall|i2: int, w: int|
            0 <= w < 3 implies !(#[trigger] keyword_at(t, byte_keywords()[w], i2) && blanks_then_big(
                t,
                i2 + byte_keywords()[w].len(),
            )) by {
            if keyword_at(t, byte_keywords()[w], i2) {
                assert(byte_keywords()[w].len() >= 4);
                assert(i2 < n);
            }
        }
    }
    true
}

/// `vampirc_uci::parse_with_unknown`: the commands on one line of input
/// (a line it cannot read gives one `Unknown` command). Its result is named by
/// [`uci_parse`]; durations are converted with `num_milliseconds` and moves
/// and FENs are carried as their text. The parser unwraps a byte parse of
/// the numbers after `depth`, `seldepth`, `mate` and `movestogo` (up to
/// three digits), so lines with such a number beyond 255 are left out.
#[verifier::external_body]
pub(crate) fn parse_line(line: &str) -> (r: Vec<UciCommand>)
    requires
        !byte_field_overflows(line@),
    ensures
        commands(r@) == uci_parse(line@),
{
    vampirc_uci::parse_with_unknown(line).iter().map(command_of).collect()
}

// ---------------------------------------------------------------------------
// Answers.

/// A GUI-bound message this engine sends.
pub enum UciReply {
    IdName(String),
    IdAuthor(String),
    SpinOption { name: String, default: i64, min: i64, max: i64 },
    CheckOption { name: String, default: bool },
    UciOk,
    ReadyOk,
}

/// The line of a reply, as `UciMessage`'s `Display` writes it.
pub open spec fn reply_text(r: UciReply) -> Seq<char> {
    match r {
        UciReply::IdName(n) => id_name_text(n@),
        UciReply::IdAuthor(a) => id_author_text(a@),
        UciReply::SpinOption { name, default, min, max } => spin_text(
            name@,
            default as int,
            min as int,
            max as int,
        ),
        UciReply::CheckOption { name, default } => check_text(name@, default),
        UciReply::UciOk => "uciok"@,
        UciReply::ReadyOk => "readyok"@,
    }
}

/// `UciMessage::to_string` of the message for `r`: `UciMessage::Id`,
/// `UciMessage::Option` (spin or check, with default, min and max given),
/// `UciMessage::UciOk` or `UciMessage::ReadyOk`. The text is stated in full,
/// as the crate's `serialize` writes it.
#[verifier::external_body]
fn reply_line(r: &UciReply) -> (s: String)
    ensures
        s@ == reply_text(*r),
{
    match r {
        UciReply::IdName(n) => UciMessage::id_name(n).to_string(),
        UciReply::IdAuthor(a) => UciMessage::id_author(a).to_string(),
        UciReply::SpinOption { name, default, min, max } => UciMessage::Option(UciOptionConfig::Spin { name: name.clone(), default: Some(*default), min: Some(*min), max: Some(*max) }).to_string(),
        UciReply::CheckOption { name, default } => UciMessage::Option(UciOptionConfig::Check { name: name.clone(), default: Some(*default) }).to_string(),
        UciReply::UciOk => UciMessage::UciOk.to_string(),
        UciReply::ReadyOk => UciMessage::ReadyOk.to_string(),
    }
}

// ---------------------------------------------------------------------------
// Words and numbers in command text.

/// Unicode's `White_Space` property, which `char::is_whitespace` tests.
pub open spec fn is_white_space(c: char) -> bool {
    let u = c as u32;
    (0x9 <= u <= 0xd) || u == 0x20 || u == 0x85 || u == 0xa0 || u == 0x1680 || (0x2000 <= u
        <= 0x200a) || u == 0x2028 || u == 0x2029 || u == 0x202f || u == 0x205f || u == 0x3000
}

/// `char::is_whitespace`.
pub fn white_space(c: char) -> (r: bool)
    ensures
        r == is_white_space(c),
{
    let u = c as u32;
    (0x9 <= u && u <= 0xd) || u == 0x20 || u == 0x85 || u == 0xa0 || u == 0x1680 || (0x2000 <= u
        && u <= 0x200a) || u == 0x2028 || u == 0x2029 || u == 0x202f || u == 0x205f || u == 0x3000
}

/// `w` stands in `t` at index `i` as a whole word: between the text's ends
/// or white space.
pub open spec fn word_at(t: Seq<char>, w: Seq<char>, i: int) -> bool {
    &&& 0 <= i
    &&& i + w.len() <= t.len()
    &&& t.subrange(i, i + w.len()) == w
    &&& (i == 0 || is_white_space(t[i - 1]))
    &&& (i + w.len() == t.len() || is_white_space(t[i + w.len()]))
}

/// `t.split_whitespace().any(|x| x == w)` for a word `w` without white
/// space.
pub open spec fn has_word(t: Seq<char>, w: Seq<char>) -> bool {
    exists|i: int| #[trigger] word_at(t, w, i)
}

/// Whether `w` (non-empty, without white space) is one of the words of `t`.
pub fn contains_word(t: &str, w: &str) -> (r: bool)
    requires
        w@.len() > 0,
        forall|j: int| 0 <= j < w@.len() ==> !is_white_space(#[trigger] w@[j]),
    ensures
        r == has_word(t@, w@),
{
    let n = t.unicode_len();
    let k = w.unicode_len();
    if k > n {
        assert forall|i: int| !word_at(t@, w@, i) by {}
        return false;
    }
    let last = n - k;
    let mut i: usize = 0;
    while i <= last
        invariant
            n == t@.len(),
            k == w@.len(),
            0 < k <= n,
            last == n - k,
            i <= last + 1,
            forall|j: int| 0 <= j < i ==> !word_at(t@, w@, j),
        decreases last + 1 - i,
    {
        let before_ok = i == 0 || white_space(t.get_char(i - 1));
        let after_ok = i + k == n || white_space(t.get_char(i + k));
        if before_ok && after_ok {
            let mut j: usize = 0;
            let mut same = true;
            while j < k
                invariant
                    n == t@.len(),
                    k == w@.len(),
                    i + k <= n,
                    j <= k,
                    same == (forall|q: int| 0 <= q < j ==> t@[i + q] == w@[q]),
                decreases k - j,
            {
                if t.get_char(i + j) != w.get_char(j) {
                    same = false;
                }
                j = j + 1;
            }
            if same {
                assert(t@.subrange(i as int, i + k) =~= w@);
                assert(word_at(t@, w@, i as int));
                return true;
            }
            assert(!word_at(t@, w@, i as int)) by {
                if t@.subrange(i as int, i + k) == w@ {
                    assert forall|q: int| 0 <= q < k implies t@[i + q] == w@[q] by {
                        assert(t@.subrange(i as int, i + k)[q] == t@[i + q]);
                    }
                }
            }
        }
        i = i + 1;
    }
    assert forall|j: int| !word_at(t@, w@, j) by {
        if 0 <= j < i {
        }
    }
    false
}

/// The number of white-space characters `s` starts with.
pub open spec fn lead_ws(s: Seq<char>) -> nat
    decreases s.len(),
{
    if s.len() > 0 && is_white_space(s[0]) {
        1 + lead_ws(s.drop_first())
    } else {
        0
    }
}

/// The number of white-space characters `s` ends with.
pub open spec fn trail_ws(s: Seq<char>) -> nat
    decreases s.len(),
{
    if s.len() > 0 && is_white_space(s.last()) {
        1 + trail_ws(s.drop_last())
    } else {
        0
    }
}

/// `str::trim`: `s` without its leading and trailing white space.
pub open spec fn trim_spec(s: Seq<char>) -> Seq<char> {
    let t = s.subrange(lead_ws(s) as int, s.len() as int);
    t.subrange(0, t.len() - trail_ws(t))
}

proof fn lemma_lead_ws(s: Seq<char>, a: int)
    requires
        0 <= a <= s.len(),
        forall|j: int| 0 <= j < a ==> is_white_space(#[trigger] s[j]),
        a == s.len() || !is_white_space(s[a]),
    ensures
        lead_ws(s) == a,
    decreases a,
{
    if a > 0 {
        assert forall|j: int| 0 <= j < a - 1 implies is_white_space(
            #[trigger] s.drop_first()[j],
        ) by {
            assert(s.drop_first()[j] == s[j + 1]);
        }
        lemma_lead_ws(s.drop_first(), a - 1);
    }
}

proof fn lemma_trail_ws(s: Seq<char>, b: int)
    requires
        0 <= b <= s.len(),
        forall|j: int| s.len() - b <= j < s.len() ==> is_white_space(#[trigger] s[j]),
        b == s.len() || !is_white_space(s[s.len() - b - 1]),
    ensures
        trail_ws(s) == b,
    decreases b,
{
    if b > 0 {
        assert forall|j: int| s.len() - 1 - (b - 1) <= j < s.len() - 1 implies is_white_space(
            #[trigger] s.drop_last()[j],
        ) by {
            assert(s.drop_last()[j] == s[j]);
        }
        lemma_trail_ws(s.drop_last(), b - 1);
    }
}

/// The bounds `[a, b)` of `s` without its surrounding white space.
fn trim_bounds(s: &str) -> (r: (usize, usize))
    ensures
        r.0 <= r.1 <= s@.len(),
        s@.subrange(r.0 as int, r.1 as int) == trim_spec(s@),
{
    let n = s.unicode_len();
    let mut a: usize = 0;
    while a < n && white_space(s.get_char(a))
        invariant
            n == s@.len(),
            a <= n,
            forall|j: int| 0 <= j < a ==> is_white_space(#[trigger] s@[j]),
        decreases n - a,
    {
        a = a + 1;
    }
    proof {
        lemma_lead_ws(s@, a as int);
    }
    let ghost t = s@.subrange(a as int, n as int);
    let mut b: usize = n;
    while b > a && white_space(s.get_char(b - 1))
        invariant
            n == s@.len(),
            a <= b <= n,
            t == s@.subrange(a as int, n as int),
            forall|j: int| b <= j < n ==> is_white_space(#[trigger] s@[j]),
        decreases b - a,
    {
        b = b - 1;
    }
    proof {
        assert forall|j: int| t.len() - (n - b) <= j < t.len() implies is_white_space(
            #[trigger] t[j],
        ) by {
            assert(t[j] == s@[a + j]);
        }
        if b > a {
            assert(t[t.len() - (n - b) - 1] == s@[b - 1]);
        }
        lemma_trail_ws(t, (n - b) as int);
        assert(s@.subrange(a as int, b as int) =~= t.subrange(0, t.len() - (n - b)));
    }
    (a, b)
}

/// `str::trim`.
pub fn trim(s: &str) -> (r: &str)
    ensures
        r@ == trim_spec(s@),
{
    let (a, b) = trim_bounds(s);
    s.substring_char(a, b)
}

/// Whether `c` is an ASCII decimal digit.
pub open spec fn is_digit(c: char) -> bool {
    '0' <= c <= '9'
}

/// The value of a string of decimal digits.
pub open spec fn digits_value(d: Seq<char>) -> nat
    decreases d.len(),
{
    if d.len() == 0 {
        0
    } else {
        digits_value(d.drop_last()) * 10 + (d.last() as nat - '0' as nat) as nat
    }
}

/// `s` without a leading `+`.
pub open spec fn digits_part(s: Seq<char>) -> Seq<char> {
    if s.len() > 0 && s[0] == '+' {
        s.drop_first()
    } else {
        s
    }
}

/// Whether every character of `d` is an ASCII digit.
pub open spec fn all_digits(d: Seq<char>) -> bool {
    forall|i: int| 0 <= i < d.len() ==> is_digit(#[trigger] d[i])
}

/// `str::parse::<usize>`: an optional `+`, then one or more ASCII digits whose
/// value fits in `usize`.
pub open spec fn parse_usize_spec(s: Seq<char>) -> Option<usize> {
    let d = digits_part(s);
    if d.len() == 0 || !all_digits(d) {
        None
    } else if digits_value(d) > usize::MAX {
        None
    } else {
        Some(digits_value(d) as usize)
    }
}

proof fn lemma_digits_monotone(d: Seq<char>, j: int)
    requires
        0 <= j <= d.len(),
        forall|i: int| 0 <= i < d.len() ==> is_digit(#[trigger] d[i]),
    ensures
        digits_value(d.take(j)) <= digits_value(d),
    decreases d.len() - j,
{
    if j < d.len() {
        let e = d.take(j + 1);
        assert(e.drop_last() =~= d.take(j));
        assert(is_digit(d[j]));
        lemma_digits_monotone(d, j + 1);
    } else {
        assert(d.take(j) =~= d);
    }
}

/// The number `s[a..b]` denotes, as `str::parse::<usize>` reads it.
fn parse_usize_range(s: &str, a: usize, b: usize) -> (r: Option<usize>)
    requires
        a <= b <= s@.len(),
    ensures
        r == parse_usize_spec(s@.subrange(a as int, b as int)),
{
    let ghost t = s@.subrange(a as int, b as int);
    let start = if a < b && s.get_char(a) == '+' {
        a + 1
    } else {
        a
    };
    let ghost d = s@.subrange(start as int, b as int);
    assert(t.len() > 0 ==> t[0] == s@[a as int]);
    assert(d =~= digits_part(t));
    if start == b {
        return None;
    }
    let mut i: usize = start;
    while i < b
        invariant
            a <= start <= i <= b <= s@.len(),
            d == s@.subrange(start as int, b as int),
            t == s@.subrange(a as int, b as int),
            d.len() > 0,
            d == digits_part(t),
            forall|j: int| start <= j < i ==> is_digit(#[trigger] s@[j]),
        decreases b - i,
    {
        let c = s.get_char(i);
        if !('0' <= c && c <= '9') {
            assert(d[i - start] == c);
            assert(!is_digit(d[i - start]));
            assert(!(forall|j: int| 0 <= j < d.len() ==> is_digit(#[trigger] d[j])));
            return None;
        }
        i = i + 1;
    }
    assert(forall|j: int| 0 <= j < d.len() ==> is_digit(#[trigger] d[j]) && d[j] == s@[start + j]);
    let mut v: usize = 0;
    let mut k: usize = start;
    assert(d.take(0) =~= Seq::<char>::empty());
    while k < b
        invariant
            a <= start <= k <= b <= s@.len(),
            d == s@.subrange(start as int, b as int),
            t == s@.subrange(a as int, b as int),
            d.len() > 0,
            d == digits_part(t),
            forall|j: int| 0 <= j < d.len() ==> is_digit(#[trigger] d[j]),
            v == digits_value(d.take(k - start)),
        decreases b - k,
    {
        let c = s.get_char(k);
        assert(d[k - start] == c);
        assert(is_digit(d[k - start]));
        let dig = (c as u32 - '0' as u32) as usize;
        assert(d.take(k - start + 1).drop_last() =~= d.take(k - start));
        assert(d.take(k - start + 1).last() == c);
        assert(digits_value(d.take(k - start + 1)) == v * 10 + dig);
        match v.checked_mul(10) {
            Some(m) => match m.checked_add(dig) {
                Some(nv) => {
                    v = nv;
                },
                None => {
                    proof {
                        lemma_digits_monotone(d, k - start + 1);
                    }
                    return None;
                },
            },
            None => {
                proof {
                    lemma_digits_monotone(d, k - start + 1);
                }
                return None;
            },
        }
        k = k + 1;
    }
    assert(d.take(d.len() as int) =~= d);
    Some(v)
}

/// `value.trim().parse::<usize>()`.
pub fn parse_trimmed_usize(value: &str) -> (r: Option<usize>)
    ensures
        r == parse_usize_spec(trim_spec(value@)),
{
    let (a, b) = trim_bounds(value);
    parse_usize_range(value, a, b)
}

// ---------------------------------------------------------------------------
// Decisions.

/// A message for the engine thread.
#[derive(Clone, Copy, PartialEq, Eq, Structural, Debug)]
pub enum EMessage {
    Search,
    SetHashSize(usize),
    SetPosition(Position),
    PlayMove(ChessMove),
    Clear,
}

/// One thing the program around the handler does, in order.
pub enum Action {
    /// Write this line to the GUI.
    Print(String),
    /// Flush the output.
    Flush,
    /// Ask the running search to stop.
    StopSearch,
    /// Clear the stop request.
    ResetStop,
    /// Install these limits in the search handle.
    SetLimits(Limits),
    /// Send this message to the engine thread.
    ToEngine(EMessage),
    /// Leave the main loop.
    Quit,
}

/// The plain content of an [`Action`].
pub enum ActionView {
    Print(Seq<char>),
    Flush,
    StopSearch,
    ResetStop,
    SetLimits(LimitsView),
    ToEngine(EMessage),
    Quit,
}

impl View for Action {
    type V = ActionView;

    open spec fn view(&self) -> ActionView {
        match self {
            Action::Print(s) => ActionView::Print(s@),
            Action::Flush => ActionView::Flush,
            Action::StopSearch => ActionView::StopSearch,
            Action::ResetStop => ActionView::ResetStop,
            Action::SetLimits(l) => ActionView::SetLimits(l@),
            Action::ToEngine(m) => ActionView::ToEngine(*m),
            Action::Quit => ActionView::Quit,
        }
    }
}

/// The plain content of a list of actions.
pub open spec fn actions(v: Seq<Action>) -> Seq<ActionView> {
    v.map_values(|a: Action| a@)
}

/// The state of the protocol handler: the position the GUI set up, and the
/// limits of the last `go` (kept for a `ponderhit`).
pub struct MessageHandler {
    pub position: Position,
    pub limits: Option<Limits>,
}

/// The plain content of a [`MessageHandler`].
pub struct HandlerView {
    pub position: Position,
    pub limits: Option<LimitsView>,
}

impl View for MessageHandler {
    type V = HandlerView;

    open spec fn view(&self) -> HandlerView {
        HandlerView {
            position: self.position,
            limits: match self.limits {
                Some(l) => Some(l@),
                None => None,
            },
        }
    }
}

pub open spec fn id_name_text(n: Seq<char>) -> Seq<char> {
    "id name "@ + n
}

pub open spec fn id_author_text(a: Seq<char>) -> Seq<char> {
    "id author "@ + a
}

pub open spec fn spin_text(name: Seq<char>, default: int, min: int, max: int) -> Seq<char> {
    "option name "@ + name + " type spin default "@ + signed_decimal(default) + " min "@
        + signed_decimal(min) + " max "@ + signed_decimal(max)
}

pub open spec fn check_text(name: Seq<char>, default: bool) -> Seq<char> {
    "option name "@ + name + " type check default "@ + if default {
        "true"@
    } else {
        "false"@
    }
}

/// The answer to `uci`: the engine's name and author, its options, `uciok`.
pub open spec fn hello_actions() -> Seq<ActionView> {
    seq![
        ActionView::Print(id_name_text("Chess-engine"@)),
        ActionView::Print(id_author_text("Jesper"@)),
        ActionView::Print(spin_text("Hash"@, 16, 1, 4096)),
        ActionView::Print(check_text("Ponder"@, true)),
        ActionView::Print("uciok"@),
        ActionView::Flush,
    ]
}

/// A duration in milliseconds as the engine takes it: negative ones count
/// as zero.
pub open spec fn spec_millis(d: i64) -> u64 {
    if d < 0 {
        0
    } else {
        d as u64
    }
}

pub open spec fn spec_opt_millis(d: Option<i64>) -> u64 {
    match d {
        Some(x) => spec_millis(x),
        None => 0,
    }
}

/// The time mode of a `go` with time controls `tc`, `turn` to move: the
/// clock of the side to move when its time is given, otherwise no deadline;
/// `movetime` is a fixed time.
pub open spec fn spec_time_mode(turn: Color, tc: Option<GoTime>) -> TimeMode {
    match tc {
        Some(GoTime::MoveTime(d)) => TimeMode::Fixed(spec_millis(d)),
        Some(
            GoTime::TimeLeft {
                white_time,
                black_time,
                white_increment,
                black_increment,
                moves_to_go,
            },
        ) => {
            let (mine, theirs, inc) = if turn == Color::Black {
                (black_time, white_time, black_increment)
            } else {
                (white_time, black_time, white_increment)
            };
            match mine {
                Some(r) => TimeMode::Clock(
                    Clock {
                        remaining: spec_millis(r),
                        opp_remaining: spec_opt_millis(theirs),
                        increment: spec_opt_millis(inc),
                        moves_to_go: match moves_to_go {
                            Some(m) => Some(m as u32),
                            None => None,
                        },
                    },
                ),
                None => TimeMode::Unbound,
            }
        },
        _ => TimeMode::Unbound,
    }
}

/// The legal moves of `p` among the UCI move texts `ms`, in order.
pub open spec fn converted_moves(p: Position, ms: Seq<Seq<char>>) -> Seq<ChessMove>
    decreases ms.len(),
{
    if ms.len() == 0 {
        Seq::empty()
    } else {
        let rest = converted_moves(p, ms.drop_last());
        match crate::rules::chess_uci_to_move(p, ms.last()) {
            Some(m) => rest.push(m),
            None => rest,
        }
    }
}

/// The moves `searchmoves` names are exactly the legal ones among its texts:
/// every text that denotes a legal move contributes that move, and every move
/// kept comes from such a text, with no more moves than texts.
pub proof fn lemma_converted_moves(p: Position, ms: Seq<Seq<char>>)
    ensures
        forall|k: int|
            0 <= k < ms.len() ==> (crate::rules::chess_uci_to_move(p, #[trigger] ms[k]) matches Some(m)
                ==> converted_moves(p, ms).contains(m)),
        forall|m: ChessMove|
            #[trigger] converted_moves(p, ms).contains(m) ==> exists|k: int|
                0 <= k < ms.len() && crate::rules::chess_uci_to_move(p, #[trigger] ms[k]) == Some(m),
        converted_moves(p, ms).len() <= ms.len(),
    decreases ms.len(),
{
    if ms.len() > 0 {
        let init = ms.drop_last();
        lemma_converted_moves(p, init);
        let rest = converted_moves(p, init);
        let full = converted_moves(p, ms);
        assert forall|k: int|
            0 <= k < ms.len() implies (crate::rules::chess_uci_to_move(p, #[trigger] ms[k]) matches Some(m)
                ==> full.contains(m)) by {
            let m = crate::rules::chess_uci_to_move(p, ms[k])->Some_0;
            if crate::rules::chess_uci_to_move(p, ms[k]) is None {
            } else if k < ms.len() - 1 {
                assert(init[k] == ms[k]);
                assert(rest.contains(m));
                let j = choose|j: int| 0 <= j < rest.len() && rest[j] == m;
                match crate::rules::chess_uci_to_move(p, ms.last()) {
                    Some(x) => {
                        assert(full[j] == m);
                    },
                    None => {},
                }
            } else {
                assert(ms.last() == ms[k]);
                assert(full[full.len() - 1] == m);
            }
        }
        assert forall|m: ChessMove| #[trigger] full.contains(m) implies exists|k: int|
            0 <= k < ms.len() && crate::rules::chess_uci_to_move(p, #[trigger] ms[k]) == Some(m) by {
            let j = choose|j: int| 0 <= j < full.len() && full[j] == m;
            if j < rest.len() {
                assert(rest[j] == m);
                assert(rest.contains(m));
                let k = choose|k: int|
                    0 <= k < init.len() && crate::rules::chess_uci_to_move(p, #[trigger] init[k]) == Some(m);
                assert(ms[k] == init[k]);
            } else {
                assert(crate::rules::chess_uci_to_move(p, ms[ms.len() - 1]) == Some(m));
            }
        }
    }
}

/// The limits of a `go` command in position `p`.
pub open spec fn spec_go_limits(p: Position, tc: Option<GoTime>, sc: Option<GoSearchView>) -> LimitsView {
    LimitsView {
        time_mode: spec_time_mode(p.spec_turn(), tc),
        max_depth: match sc {
            Some(s) => s.depth,
            None => None,
        },
        max_nodes: match sc {
            Some(s) => s.nodes,
            None => None,
        },
        restrict_to: match sc {
            Some(s) => {
                let ms = converted_moves(p, s.search_moves);
                if ms.len() > 0 {
                    Some(ms)
                } else {
                    None
                }
            },
            None => None,
        },
    }
}

/// `p` after the UCI moves `ms`, stopping at the first one that is not a
/// legal move.
pub open spec fn apply_uci_moves(p: Position, ms: Seq<Seq<char>>) -> Position
    decreases ms.len(),
{
    if ms.len() == 0 {
        p
    } else {
        match crate::rules::chess_uci_to_move(p, ms[0]) {
            Some(m) => apply_uci_moves(crate::rules::chess_play(p, m), ms.drop_first()),
            None => p,
        }
    }
}

/// The table size a `setoption name Hash value ...` asks for: the trimmed
/// value as a number, clamped to 1 ..= 4096 MiB.
pub open spec fn hash_request(value: Option<Seq<char>>) -> Option<usize> {
    match value {
        Some(v) => match parse_usize_spec(trim_spec(v)) {
            Some(n) => Some(
                if n < 1 {
                    1
                } else if n > 4096 {
                    4096
                } else {
                    n
                },
            ),
            None => None,
        },
        None => None,
    }
}

/// What the handler does with command `cmd`, read from line `text`, in state
/// `st`: its next state and its actions.
pub open spec fn spec_handle(st: HandlerView, cmd: UciCommandView, text: Seq<char>) -> (
    HandlerView,
    Seq<ActionView>,
) {
    match cmd {
        UciCommandView::Uci => (st, hello_actions()),
        UciCommandView::IsReady => (st, seq![ActionView::Print("readyok"@), ActionView::Flush]),
        UciCommandView::Quit => (st, seq![ActionView::StopSearch, ActionView::Quit]),
        UciCommandView::Stop => (st, seq![ActionView::StopSearch]),
        UciCommandView::UciNewGame => (st, seq![ActionView::ToEngine(EMessage::Clear)]),
        UciCommandView::PonderHit => (
            HandlerView { limits: None, ..st },
            match st.limits {
                Some(l) => seq![ActionView::SetLimits(l)],
                None => Seq::empty(),
            },
        ),
        UciCommandView::SetOption { name, value } => (
            st,
            if name == "Hash"@ {
                match hash_request(value) {
                    Some(n) => seq![ActionView::ToEngine(EMessage::SetHashSize(n))],
                    None => Seq::empty(),
                }
            } else {
                Seq::empty()
            },
        ),
        UciCommandView::Position { startpos, fen, moves } => {
            let base = if startpos {
                Some(Position::initial())
            } else {
                match fen {
                    Some(f) => crate::rules::chess_from_fen(f),
                    None => None,
                }
            };
            match base {
                Some(b) => {
                    let p = apply_uci_moves(b, moves);
                    (
                        HandlerView { position: p, ..st },
                        seq![ActionView::ToEngine(EMessage::SetPosition(p))],
                    )
                },
                None => (st, Seq::empty()),
            }
        },
        UciCommandView::Go { time_control, search_control } => {
            let l = spec_go_limits(st.position, time_control, search_control);
            let sent = if has_word(text, "ponder"@) {
                LimitsView { time_mode: TimeMode::Unbound, ..l }
            } else {
                l
            };
            (
                HandlerView { limits: Some(l), ..st },
                seq![
                    ActionView::ResetStop,
                    ActionView::SetLimits(sent),
                    ActionView::ToEngine(EMessage::Search),
                ],
            )
        },
        _ => (st, Seq::empty()),
    }
}

fn millis(d: i64) -> (r: u64)
    ensures
        r == spec_millis(d),
{
    if d < 0 {
        0
    } else {
        d as u64
    }
}

fn opt_millis(d: Option<i64>) -> (r: u64)
    ensures
        r == spec_opt_millis(d),
{
    match d {
        Some(x) => millis(x),
        None => 0,
    }
}

fn time_mode_of(turn: Color, tc: Option<GoTime>) -> (r: TimeMode)
    ensures
        r == spec_time_mode(turn, tc),
{
    match tc {
        Some(GoTime::MoveTime(d)) => TimeMode::Fixed(millis(d)),
        Some(
            GoTime::TimeLeft {
                white_time,
                black_time,
                white_increment,
                black_increment,
                moves_to_go,
            },
        ) => {
            let (mine, theirs, inc) = if turn == Color::Black {
                (black_time, white_time, black_increment)
            } else {
                (white_time, black_time, white_increment)
            };
            match mine {
                Some(r) => TimeMode::Clock(
                    Clock {
                        remaining: millis(r),
                        opp_remaining: opt_millis(theirs),
                        increment: opt_millis(inc),
                        moves_to_go: match moves_to_go {
                            Some(m) => Some(m as u32),
                            None => None,
                        },
                    },
                ),
                None => TimeMode::Unbound,
            }
        },
        _ => TimeMode::Unbound,
    }
}

/// The legal moves of `p` among the UCI move texts `ms`, in order.
fn convert_moves(p: &Position, ms: &Vec<String>) -> (r: Vec<ChessMove>)
    ensures
        forall|k: int|
            0 <= k < ms@.len() ==> (crate::rules::chess_uci_to_move(*p, #[trigger] ms@[k]@) matches Some(m)
                ==> r@.contains(m)),
        forall|m: ChessMove|
            #[trigger] r@.contains(m) ==> exists|k: int|
                0 <= k < ms@.len() && crate::rules::chess_uci_to_move(*p, #[trigger] ms@[k]@) == Some(m),
        r@ == converted_moves(*p, texts(ms@)),
{
    let ghost t = texts(ms@);
    let mut out: Vec<ChessMove> = Vec::new();
    let mut i: usize = 0;
    while i < ms.len()
        invariant
            i <= ms@.len(),
            t == texts(ms@),
            out@ == converted_moves(*p, t.take(i as int)),
        decreases ms@.len() - i,
    {
        assert(t.take(i as int + 1).drop_last() =~= t.take(i as int));
        assert(t.take(i as int + 1).last() == ms@[i as int]@);
        match crate::rules::uci_to_move(p, ms[i].as_str()) {
            Some(m) => out.push(m),
            None => {},
        }
        i = i + 1;
    }
    assert(t.take(ms@.len() as int) =~= t);
    proof {
        lemma_converted_moves(*p, t);
        assert forall|k: int| 0 <= k < ms@.len() implies #[trigger] t[k] == ms@[k]@ by {}
        assert forall|k: int|
            0 <= k < ms@.len() implies (crate::rules::chess_uci_to_move(*p, #[trigger] ms@[k]@) matches Some(
            m,
        ) ==> out@.contains(m)) by {
            assert(t[k] == ms@[k]@);
        }
    }
    out
}

/// `p` after the UCI moves `ms`, stopping at the first one that is not a
/// legal move.
fn play_uci_moves(p: Position, ms: &Vec<String>) -> (r: Position)
    ensures
        r == apply_uci_moves(p, texts(ms@)),
{
    let ghost t = texts(ms@);
    let mut pos = p;
    let mut i: usize = 0;
    let mut done = false;
    assert(t.skip(0) =~= t);
    while i < ms.len() && !done
        invariant
            i <= ms@.len(),
            t == texts(ms@),
            apply_uci_moves(pos, t.skip(i as int)) == apply_uci_moves(p, t),
            done ==> apply_uci_moves(pos, t.skip(i as int)) == pos,
        decreases ms@.len() - i, if done { 0int } else { 1int },
    {
        assert(t.skip(i as int)[0] == ms@[i as int]@);
        assert(t.skip(i as int).drop_first() =~= t.skip(i as int + 1));
        match crate::rules::uci_to_move(&pos, ms[i].as_str()) {
            Some(m) => {
                pos = crate::rules::play(&pos, m);
                i = i + 1;
            },
            None => {
                done = true;
            },
        }
    }
    if !done {
        assert(t.skip(i as int) =~= Seq::<Seq<char>>::empty());
    }
    pos
}

/// The `go` limits as the handler builds them.
fn go_limits(p: &Position, tc: Option<GoTime>, sc: &Option<GoSearch>) -> (r: Limits)
    ensures
        r@ == spec_go_limits(
            *p,
            tc,
            match sc {
                Some(s) => Some(s@),
                None => None,
            },
        ),
{
    let time_mode = time_mode_of(p.turn(), tc);
    match sc {
        Some(s) => {
            let ms = convert_moves(p, &s.search_moves);
            let restrict_to = if ms.len() > 0 {
                Some(ms)
            } else {
                None
            };
            Limits { time_mode, max_depth: s.depth, max_nodes: s.nodes, restrict_to }
        },
        None => Limits { time_mode, max_depth: None, max_nodes: None, restrict_to: None },
    }
}

/// The size a `Hash` option value asks for, clamped to 1 ..= 4096.
fn hash_size(value: &Option<String>) -> (r: Option<usize>)
    ensures
        r == hash_request(
            match value {
                Some(v) => Some(v@),
                None => None,
            },
        ),
{
    match value {
        Some(v) => match parse_trimmed_usize(v.as_str()) {
            Some(n) => Some(
                if n < 1 {
                    1
                } else if n > 4096 {
                    4096
                } else {
                    n
                },
            ),
            None => None,
        },
        None => None,
    }
}

fn act(v: &mut Vec<Action>, a: Action)
    ensures
        actions(final(v)@) == actions(old(v)@).push(a@),
{
    let ghost before = actions(v@);
    let ghost av = a@;
    v.push(a);
    assert(actions(v@) =~= before.push(av));
}

fn print(v: &mut Vec<Action>, r: UciReply)
    ensures
        actions(final(v)@) == actions(old(v)@).push(ActionView::Print(reply_text(r))),
{
    let line = reply_line(&r);
    let ghost before = actions(v@);
    v.push(Action::Print(line));
    assert(actions(v@) =~= before.push(ActionView::Print(reply_text(r))));
}

impl MessageHandler {
    /// A handler for a new session: the initial position, default limits.
    pub fn new() -> (r: MessageHandler)
        ensures
            r.position == Position::initial(),
            r.limits matches Some(l) && l@ == (LimitsView {
                time_mode: TimeMode::Unbound,
                max_depth: None,
                max_nodes: None,
                restrict_to: None,
            }),
    {
        MessageHandler {
            position: crate::rules::start_position(),
            limits: Some(Limits::default()),
        }
    }

    /// Handle one command, read from line `text`.
    pub fn handle(&mut self, cmd: &UciCommand, text: &str) -> (r: Vec<Action>)
        ensures
            (final(self)@, actions(r@)) == spec_handle(old(self)@, cmd@, text@),
    {
        let mut out: Vec<Action> = Vec::new();
        match cmd {
            UciCommand::Uci => {
                print(&mut out, UciReply::IdName(string_of("Chess-engine")));
                print(&mut out, UciReply::IdAuthor(string_of("Jesper")));
                print(
                    &mut out,
                    UciReply::SpinOption { name: string_of("Hash"), default: 16, min: 1, max: 4096 },
                );
                print(&mut out, UciReply::CheckOption { name: string_of("Ponder"), default: true });
                print(&mut out, UciReply::UciOk);
                act(&mut out, Action::Flush);
                assert(actions(out@) =~= hello_actions());
            },
            UciCommand::IsReady => {
                print(&mut out, UciReply::ReadyOk);
                act(&mut out, Action::Flush);
                assert(actions(out@) =~= seq![ActionView::Print("readyok"@), ActionView::Flush]);
            },
            UciCommand::Quit => {
                act(&mut out, Action::StopSearch);
                act(&mut out, Action::Quit);
                assert(actions(out@) =~= seq![ActionView::StopSearch, ActionView::Quit]);
            },
            UciCommand::Stop => {
                act(&mut out, Action::StopSearch);
                assert(actions(out@) =~= seq![ActionView::StopSearch]);
            },
            UciCommand::UciNewGame => {
                act(&mut out, Action::ToEngine(EMessage::Clear));
                assert(actions(out@) =~= seq![ActionView::ToEngine(EMessage::Clear)]);
            },
            UciCommand::PonderHit => {
                let taken = self.limits.take();
                if let Some(l) = taken {
                    act(&mut out, Action::SetLimits(l));
                    assert(actions(out@) =~= seq![ActionView::SetLimits(l@)]);
                } else {
                    assert(actions(out@) =~= Seq::<ActionView>::empty());
                }
            },
            UciCommand::SetOption { name, value } => {
                let hash = string_of("Hash");
                if *name == hash {
                    if let Some(n) = hash_size(value) {
                        act(&mut out, Action::ToEngine(EMessage::SetHashSize(n)));
                        assert(actions(out@) =~= seq![
                            ActionView::ToEngine(EMessage::SetHashSize(n)),
                        ]);
                    } else {
                        assert(actions(out@) =~= Seq::<ActionView>::empty());
                    }
                } else {
                    assert(actions(out@) =~= Seq::<ActionView>::empty());
                }
            },
            UciCommand::Position { startpos, fen, moves } => {
                let base = if *startpos {
                    Some(crate::rules::start_position())
                } else {
                    match fen {
                        Some(f) => crate::rules::from_fen(f.as_str()),
                        None => None,
                    }
                };
                match base {
                    Some(b) => {
                        let p = play_uci_moves(b, moves);
                        act(&mut out, Action::ToEngine(EMessage::SetPosition(p)));
                        self.position = p;
                        assert(actions(out@) =~= seq![
                            ActionView::ToEngine(EMessage::SetPosition(p)),
                        ]);
                    },
                    None => {
                        assert(actions(out@) =~= Seq::<ActionView>::empty());
                    },
                }
            },
            UciCommand::Go { time_control, search_control } => {
                proof {
                    reveal_strlit("ponder");
                }
                let ponder = contains_word(text, "ponder");
                let limits = go_limits(&self.position, *time_control, search_control);
                self.limits = Some(limits.copy());
                act(&mut out, Action::ResetStop);
                if ponder {
                    act(&mut out, Action::SetLimits(limits.with_mode(TimeMode::Unbound)));
                } else {
                    act(&mut out, Action::SetLimits(limits));
                }
                act(&mut out, Action::ToEngine(EMessage::Search));
            },
            _ => {
                assert(actions(out@) =~= Seq::<ActionView>::empty());
            },
        }
        out
    }
}

/// What the handler does with the commands `cmds` of line `text`: each is
/// handled in turn, and a `quit` ends the line (and the session).
pub open spec fn spec_line(st: HandlerView, cmds: Seq<UciCommandView>, text: Seq<char>) -> (
    HandlerView,
    Seq<ActionView>,
)
    decreases cmds.len(),
{
    if cmds.len() == 0 {
        (st, Seq::empty())
    } else {
        let (s1, a1) = spec_handle(st, cmds[0], text);
        if cmds[0] is Quit {
            (s1, a1)
        } else {
            let (s2, a2) = spec_line(s1, cmds.drop_first(), text);
            (s2, a1 + a2)
        }
    }
}

/// The `bestmove` line: the best move, and the move to ponder on if there
/// is one; `bestmove 0000` when there is no move.
pub open spec fn bestmove_text(best: Option<Seq<char>>, ponder: Option<Seq<char>>) -> Seq<char> {
    match best {
        Some(b) => "bestmove "@ + b + match ponder {
            Some(p) => " ponder "@ + p,
            None => Seq::empty(),
        },
        None => "bestmove 0000"@,
    }
}

/// The `bestmove` line for a best move and a move to ponder on, given as UCI
/// move texts.
pub fn bestmove_line(best: Option<&str>, ponder: Option<&str>) -> (r: String)
    ensures
        r@ == bestmove_text(crate::play::opt_text(best), crate::play::opt_text(ponder)),
{
    let mut s = String::new();
    match best {
        Some(b) => {
            push_str(&mut s, "bestmove ");
            push_str(&mut s, b);
            if let Some(p) = ponder {
                push_str(&mut s, " ponder ");
                push_str(&mut s, p);
            }
            assert(s@ =~= bestmove_text(
                crate::play::opt_text(best),
                crate::play::opt_text(ponder),
            ));
        },
        None => push_str(&mut s, "bestmove 0000"),
    }
    s
}

/// What a finished search is answered with: its best move, and the second
/// move of its principal variation to ponder on.
pub open spec fn search_done_text(res: SearchResult) -> Seq<char> {
    match res.best_move {
        Some(m) => bestmove_text(
            Some(crate::rules::chess_uci(m)),
            if res.pv@.len() > 1 {
                Some(crate::rules::chess_uci(res.pv@[1]))
            } else {
                None
            },
        ),
        None => bestmove_text(None, None),
    }
}

/// Whether the moves a finished search reports are on the board.
pub open spec fn result_on_board(res: SearchResult) -> bool {
    &&& (res.best_move matches Some(m) ==> on_board(m))
    &&& (res.pv@.len() > 1 ==> on_board(res.pv@[1]))
}

/// The `bestmove` line for a finished search.
pub fn search_done_line(res: &SearchResult) -> (r: String)
    requires
        result_on_board(*res),
    ensures
        r@ == search_done_text(*res),
{
    match res.best_move {
        Some(m) => {
            let b = crate::rules::uci_text(m);
            if res.pv.len() > 1 {
                let p = crate::rules::uci_text(res.pv[1]);
                bestmove_line(Some(b.as_str()), Some(p.as_str()))
            } else {
                bestmove_line(Some(b.as_str()), None)
            }
        },
        None => bestmove_line(None, None),
    }
}

/// What the main loop is told.
pub enum Event {
    /// A line from the GUI.
    Line(String),
    /// A progress line from the engine thread.
    Info(String),
    /// The engine thread finished a search.
    SearchDone(SearchResult),
}

impl MessageHandler {
    /// Handle the commands of one line, stopping after a `quit`.
    pub fn handle_commands(&mut self, cmds: &[UciCommand], text: &str) -> (r: Vec<Action>)
        ensures
            (final(self)@, actions(r@)) == spec_line(old(self)@, commands(cmds@), text@),
    {
        let ghost all = commands(cmds@);
        let ghost start = self@;
        let mut out: Vec<Action> = Vec::new();
        let mut i: usize = 0;
        assert(all.skip(0) =~= all);
        while i < cmds.len()
            invariant
                i <= cmds@.len(),
                all == commands(cmds@),
                start == old(self)@,
                spec_line(start, all, text@) == (
                    spec_line(self@, all.skip(i as int), text@).0,
                    actions(out@) + spec_line(self@, all.skip(i as int), text@).1,
                ),
            decreases cmds@.len() - i,
        {
            let ghost before = self@;
            let ghost acc = actions(out@);
            let ghost rest = all.skip(i as int);
            assert(rest[0] == cmds@[i as int]@);
            assert(rest.drop_first() =~= all.skip(i as int + 1));
            let mut more = self.handle(&cmds[i], text);
            let ghost more_v = actions(more@);
            out.append(&mut more);
            assert(actions(out@) =~= acc + more_v);
            if let UciCommand::Quit = &cmds[i] {
                assert(spec_line(before, rest, text@) == (self@, more_v));
                assert(actions(out@) + Seq::<ActionView>::empty() =~= actions(out@));
                assert(spec_line(start, all, text@) == (self@, actions(out@)));
                return out;
            }
            assert(acc + (more_v + spec_line(self@, all.skip(i as int + 1), text@).1) =~= actions(out@)
                + spec_line(self@, all.skip(i as int + 1), text@).1);
            i = i + 1;
        }
        assert(all.skip(i as int) =~= Seq::<UciCommandView>::empty());
        assert(actions(out@) + Seq::<ActionView>::empty() =~= actions(out@));
        out
    }

    /// Handle one event of the main loop.
    pub fn on_event(&mut self, event: Event) -> (r: Vec<Action>)
        requires
            event matches Event::SearchDone(res) ==> result_on_board(res),
            event matches Event::Line(l) ==> !byte_field_overflows(l@),
        ensures
            match event {
                Event::Line(l) => (final(self)@, actions(r@)) == spec_line(
                    old(self)@,
                    uci_parse(l@),
                    l@,
                ),
                Event::Info(l) => final(self)@ == old(self)@ && actions(r@) == seq![
                    ActionView::Print(l@),
                    ActionView::Flush,
                ],
                Event::SearchDone(res) => final(self)@ == old(self)@ && actions(r@) == seq![
                    ActionView::Print(search_done_text(res)),
                    ActionView::Flush,
                ],
            },
    {
        match event {
            Event::Line(line) => {
                let cmds = parse_line(line.as_str());
                self.handle_commands(cmds.as_slice(), line.as_str())
            },
            Event::Info(line) => {
                let mut out: Vec<Action> = Vec::new();
                act(&mut out, Action::Print(line));
                act(&mut out, Action::Flush);
                assert(actions(out@) =~= seq![ActionView::Print(line@), ActionView::Flush]);
                out
            },
            Event::SearchDone(res) => {
                let mut out: Vec<Action> = Vec::new();
                act(&mut out, Action::Print(search_done_line(&res)));
                act(&mut out, Action::Flush);
                assert(actions(out@) =~= seq![
                    ActionView::Print(search_done_text(res)),
                    ActionView::Flush,
                ]);
                out
            },
        }
    }
}

// ---------------------------------------------------------------------------
// Progress reports.

/// The words of a principal variation, each after a space.
pub open spec fn pv_words(pv: Seq<Seq<char>>) -> Seq<char>
    decreases pv.len(),
{
    if pv.len() == 0 {
        Seq::empty()
    } else {
        pv_words(pv.drop_last()) + seq![' '] + pv.last()
    }
}

/// The score part of an `info` line.
pub open spec fn score_text(score: Score) -> Seq<char> {
    match score {
        Score::Cp(cp) => " score cp "@ + signed_decimal(cp as int),
        Score::Mate(n) => " score mate "@ + signed_decimal(n as int),
    }
}

/// The `info` line for a completed depth, with the principal variation
/// given as UCI move texts.
pub open spec fn progress_text(p: SearchProgress, pv: Seq<Seq<char>>) -> Seq<char> {
    "info depth "@ + decimal(p.depth as nat) + " seldepth "@ + decimal(p.seldepth as nat)
        + score_text(p.score) + " nodes "@ + decimal(p.nodes as nat) + " nps "@ + decimal(
        p.nodes_per_s as nat,
    ) + " hashfull "@ + decimal(p.hashfull as nat) + " time "@ + decimal(p.elapsed as nat) + if pv.len()
        == 0 {
        Seq::empty()
    } else {
        " pv"@ + pv_words(pv)
    }
}

/// The `info` line for a completed depth, its principal variation given as
/// UCI move texts.
pub fn progress_line(p: &SearchProgress, pv: &[String]) -> (r: String)
    ensures
        r@ == progress_text(*p, texts(pv@)),
{
    let mut s = String::new();
    push_str(&mut s, "info depth ");
    push_decimal(&mut s, p.depth as u64);
    push_str(&mut s, " seldepth ");
    push_decimal(&mut s, p.seldepth as u64);
    match p.score {
        Score::Cp(cp) => {
            push_str(&mut s, " score cp ");
            push_signed(&mut s, cp as i64);
        },
        Score::Mate(n) => {
            push_str(&mut s, " score mate ");
            push_signed(&mut s, n as i64);
        },
    }
    push_str(&mut s, " nodes ");
    push_decimal(&mut s, p.nodes);
    push_str(&mut s, " nps ");
    push_decimal(&mut s, p.nodes_per_s as u64);
    push_str(&mut s, " hashfull ");
    push_decimal(&mut s, p.hashfull as u64);
    push_str(&mut s, " time ");
    push_decimal(&mut s, p.elapsed);
    let ghost head = s@;
    assert(head =~= "info depth "@ + decimal(p.depth as nat) + " seldepth "@ + decimal(
        p.seldepth as nat,
    ) + score_text(p.score) + " nodes "@ + decimal(p.nodes as nat) + " nps "@ + decimal(
        p.nodes_per_s as nat,
    ) + " hashfull "@ + decimal(p.hashfull as nat) + " time "@ + decimal(p.elapsed as nat));
    let ghost t = texts(pv@);
    if pv.len() > 0 {
        push_str(&mut s, " pv");
        let ghost head2 = s@;
        let mut i: usize = 0;
        while i < pv.len()
            invariant
                i <= pv@.len(),
                t == texts(pv@),
                s@ == head2 + pv_words(t.take(i as int)),
            decreases pv@.len() - i,
        {
            assert(t.take(i as int + 1).drop_last() =~= t.take(i as int));
            assert(t.take(i as int + 1).last() == pv@[i as int]@);
            push_char(&mut s, ' ');
            push_str(&mut s, pv[i].as_str());
            assert(s@ =~= head2 + pv_words(t.take(i as int + 1)));
            i = i + 1;
        }
        assert(t.take(pv@.len() as int) =~= t);
        assert(s@ =~= head + (" pv"@ + pv_words(t)));
    } else {
        assert(s@ =~= head + Seq::<char>::empty());
    }
    s
}

/// The UCI texts of a list of moves.
pub open spec fn uci_texts(ms: Seq<ChessMove>) -> Seq<Seq<char>> {
    ms.map_values(|m: ChessMove| crate::rules::chess_uci(m))
}

/// The `info` line for a completed depth.
pub fn format_progress(p: &SearchProgress) -> (r: String)
    requires
        forall|i: int| 0 <= i < p.pv@.len() ==> on_board(#[trigger] p.pv@[i]),
    ensures
        r@ == progress_text(*p, uci_texts(p.pv@)),
{
    let mut words: Vec<String> = Vec::new();
    let mut i: usize = 0;
    while i < p.pv.len()
        invariant
            i <= p.pv@.len(),
            forall|j: int| 0 <= j < p.pv@.len() ==> on_board(#[trigger] p.pv@[j]),
            texts(words@) == uci_texts(p.pv@.take(i as int)),
        decreases p.pv@.len() - i,
    {
        let w = crate::rules::uci_text(p.pv[i]);
        let ghost before = texts(words@);
        words.push(w);
        assert(texts(words@) =~= before.push(crate::rules::chess_uci(p.pv@[i as int])));
        assert(uci_texts(p.pv@.take(i as int + 1)) =~= uci_texts(p.pv@.take(i as int)).push(
            crate::rules::chess_uci(p.pv@[i as int]),
        ));
        i = i + 1;
    }
    assert(p.pv@.take(p.pv@.len() as int) =~= p.pv@);
    progress_line(p, words.as_slice())
}

/// Whether a move's squares are on the board.
pub fn move_on_board(m: ChessMove) -> (r: bool)
    ensures
        r == on_board(m),
{
    (match m.from() {
        Some(f) => f < 64,
        None => true,
    }) && m.to() < 64
}

/// Whether every move of `ms` is on the board.
pub fn moves_on_board(ms: &[ChessMove]) -> (r: bool)
    ensures
        r == forall|i: int| 0 <= i < ms@.len() ==> on_board(#[trigger] ms@[i]),
{
    let mut i: usize = 0;
    while i < ms.len()
        invariant
            i <= ms@.len(),
            forall|j: int| 0 <= j < i ==> on_board(#[trigger] ms@[j]),
        decreases ms@.len() - i,
    {
        if !move_on_board(ms[i]) {
            return false;
        }
        i = i + 1;
    }
    true
}

// ---------------------------------------------------------------------------
// The engine thread.

/// Carry out one message on the engine thread; a search gives its result.
pub fn run_message<F: FnMut(&SearchProgress)>(
    engine: &mut SearchEngine,
    msg: EMessage,
    on_progress: &mut F,
) -> (r: Option<SearchResult>)
    requires
        old(engine).wf(),
        forall|g: F, p: &SearchProgress| call_requires(g, (p,)),
        msg matches EMessage::SetHashSize(n) ==> n * 1048576 <= usize::MAX,
    ensures
        final(engine).wf(),
        (r is Some) == (msg is Search),
        msg matches EMessage::SetPosition(p) ==> final(engine).position_spec() == p,
        msg matches EMessage::PlayMove(m) ==> final(engine).position_spec() == if chess_legal_moves(
            old(engine).position_spec(),
        ).contains(m) {
            chess_play(old(engine).position_spec(), m)
        } else {
            old(engine).position_spec()
        },
        msg is Search ==> final(engine).position_spec() == old(engine).position_spec(),
        r matches Some(res) ==> crate::search::is_line(old(engine).position_spec(), res.pv@)
            && res.best_move == (if res.pv@.len() > 0 {
            Some(res.pv@[0])
        } else {
            None
        }),
        r matches Some(res) ==> (res.best_move matches Some(m) ==> chess_legal_moves(
            old(engine).position_spec(),
        ).contains(m) && crate::search::root_allows(final(engine).spec_root_moves(), m)),
        r matches Some(res) ==> (res.depth >= 1 && !crate::rules::chess_is_game_over(
            old(engine).position_spec(),
        ) && crate::search::has_allowed_move(
            old(engine).position_spec(),
            final(engine).spec_root_moves(),
        ) ==> res.best_move is Some),
        msg matches EMessage::SetHashSize(n) ==> final(engine).table().len()
            == crate::tt::spec_entry_count(n as nat, crate::tt::entry_bytes())
            && crate::tt::all_empty(final(engine).table()) && final(engine).position_spec() == old(
            engine,
        ).position_spec(),
        msg is Clear ==> final(engine).table().len() == old(engine).table().len()
            && crate::tt::all_empty(final(engine).table()) && final(engine).position_spec() == old(
            engine,
        ).position_spec(),
{
    match msg {
        EMessage::Search => Some(engine.search(on_progress)),
        EMessage::SetHashSize(n) => {
            engine.set_hash_size_mb(n);
            None
        },
        EMessage::SetPosition(p) => {
            engine.set_position(p);
            None
        },
        EMessage::PlayMove(m) => {
            let _ = engine.play_move(m);
            None
        },
        EMessage::Clear => {
            engine.clear();
            None
        },
    }
}

} // verus!
