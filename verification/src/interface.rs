//! The engine boundary: the plain data that crosses it (limits, progress
//! reports, results) and the shared handle through which another thread can
//! stop a running search or change its limits.
//!
//! Durations are whole milliseconds.

use vstd::prelude::*;
use crate::chess::{ChessMove, Position};
use std::sync::Arc;
use std::sync::Mutex;
use std::sync::atomic::{AtomicBool, AtomicU64, Ordering};

verus! {

/// A search score.
#[derive(Clone, Copy, PartialEq, Eq, Structural, Debug)]
pub enum Score {
    /// Score in centipawns.
    Cp(i32),
    /// Mate in this many moves; negative if the side to move is getting mated.
    Mate(i32),
}

/// How the time for a search is given.
#[derive(Clone, Copy, PartialEq, Eq, Structural, Debug)]
pub enum TimeMode {
    /// No deadline: run until stopped (or a mate is found).
    Unbound,
    /// A fixed time per move, in milliseconds.
    Fixed(u64),
    /// A game clock.
    Clock(Clock),
}

impl Default for TimeMode {
    fn default() -> (r: TimeMode)
        ensures
            r == TimeMode::Unbound,
    {
        TimeMode::Unbound
    }
}

/// The state of the game clock, in milliseconds.
#[derive(Clone, Copy, PartialEq, Eq, Structural, Debug)]
pub struct Clock {
    pub remaining: u64,
    pub opp_remaining: u64,
    pub increment: u64,
    pub moves_to_go: Option<u32>,
}

/// What "stop" means for a search.
#[derive(Clone, Debug)]
pub struct Limits {
    pub time_mode: TimeMode,
    pub max_depth: Option<u8>,
    pub max_nodes: Option<u64>,
    /// Search only these root moves (UCI `searchmoves`).
    pub restrict_to: Option<Vec<ChessMove>>,
}

/// The plain content of a `Limits`.
pub struct LimitsView {
    pub time_mode: TimeMode,
    pub max_depth: Option<u8>,
    pub max_nodes: Option<u64>,
    pub restrict_to: Option<Seq<ChessMove>>,
}

impl View for Limits {
    type V = LimitsView;

    open spec fn view(&self) -> LimitsView {
        LimitsView {
            time_mode: self.time_mode,
            max_depth: self.max_depth,
            max_nodes: self.max_nodes,
            restrict_to: match self.restrict_to {
                Some(v) => Some(v@),
                None => None,
            },
        }
    }
}

impl Default for Limits {
    fn default() -> (r: Limits)
        ensures
            r.time_mode == TimeMode::Unbound,
            r.max_depth is None,
            r.max_nodes is None,
            r.restrict_to is None,
    {
        Limits { time_mode: TimeMode::Unbound, max_depth: None, max_nodes: None, restrict_to: None }
    }
}

impl Limits {
    /// The same limits with another time mode.
    pub fn with_mode(self, mode: TimeMode) -> (r: Limits)
        ensures
            r@ == (LimitsView { time_mode: mode, ..self@ }),
    {
        Limits { time_mode: mode, ..self }
    }

    /// A copy of these limits.
    pub fn copy(&self) -> (r: Limits)
        ensures
            r@ == self@,
    {
        let restrict_to = match &self.restrict_to {
            None => None,
            Some(v) => {
                let mut w: Vec<ChessMove> = Vec::new();
                let mut i: usize = 0;
                while i < v.len()
                    invariant
                        i <= v@.len(),
                        w@ == v@.subrange(0, i as int),
                    decreases v@.len() - i,
                {
                    w.push(v[i]);
                    i = i + 1;
                }
                assert(w@ == v@.subrange(0, v@.len() as int));
                assert(v@.subrange(0, v@.len() as int) =~= v@);
                Some(w)
            },
        };
        Limits {
            time_mode: self.time_mode,
            max_depth: self.max_depth,
            max_nodes: self.max_nodes,
            restrict_to,
        }
    }
}

/// A report for one completed search depth.
pub struct SearchProgress {
    /// Depth in plies.
    pub depth: u8,
    /// Selective depth (reported as the nominal depth).
    pub seldepth: u8,
    /// Time searched, in milliseconds.
    pub elapsed: u64,
    pub nodes: u64,
    /// The principal variation.
    pub pv: Vec<ChessMove>,
    pub score: Score,
    /// Hash table fill, in permille (0 - 1000).
    pub hashfull: u32,
    pub nodes_per_s: u32,
}

/// The answer of a search.
pub struct SearchResult {
    pub best_move: Option<ChessMove>,
    pub pv: Vec<ChessMove>,
    pub score: Option<Score>,
    pub depth: u8,
    pub nodes: u64,
}

#[verifier::external_type_specification]
#[verifier::external_body]
#[verifier::reject_recursive_types(T)]
pub struct ExMutex<T: ?Sized>(std::sync::Mutex<T>);

/// `Mutex::new`.
#[verifier::external_body]
fn new_limits_lock(limits: Limits) -> Mutex<Limits> {
    Mutex::new(limits)
}

/// `Mutex::lock`, then a clone of the limits held. What it returns depends on
/// what other threads stored, so nothing is stated of it.
#[verifier::external_body]
fn read_limits(lock: &Mutex<Limits>) -> Limits {
    match lock.lock() {
        Ok(guard) => guard.clone(),
        Err(poisoned) => poisoned.into_inner().clone(),
    }
}

/// `Mutex::lock`, then a store of new limits.
#[verifier::external_body]
fn write_limits(lock: &Mutex<Limits>, limits: Limits) {
    match lock.lock() {
        Ok(mut guard) => *guard = limits,
        Err(poisoned) => *poisoned.into_inner() = limits,
    }
}

pub struct SearchHandleInner {
    stop: AtomicBool,
    limits: Mutex<Limits>,
    /// Bumped by every `set_limits`, so a running search notices new limits.
    seq: AtomicU64,
}

/// A cloneable handle, shared with other threads, to stop a search or change
/// its limits while it runs.
#[derive(Clone)]
pub struct SearchHandle(Arc<SearchHandleInner>);

impl SearchHandle {
    pub fn new(limits: Limits) -> Self {
        SearchHandle(
            Arc::new(
                SearchHandleInner {
                    stop: AtomicBool::new(false),
                    limits: new_limits_lock(limits),
                    seq: AtomicU64::new(0),
                },
            ),
        )
    }

    /// Ask the running search to stop.
    pub fn stop(&self) {
        self.0.stop.store(true, Ordering::Relaxed)
    }

    /// Clear the stop request.
    pub fn reset(&self) {
        self.0.stop.store(false, Ordering::Relaxed)
    }

    pub fn is_stopped(&self) -> bool {
        self.0.stop.load(Ordering::Relaxed)
    }

    /// Install new limits and bump the sequence counter.
    pub fn set_limits(&self, limits: Limits) {
        write_limits(&self.0.limits, limits);
        self.0.seq.fetch_add(1, Ordering::Relaxed);
    }

    /// How many times the limits were set.
    pub fn limits_seq(&self) -> u64 {
        self.0.seq.load(Ordering::Relaxed)
    }

    /// A snapshot of the current limits.
    pub fn limits(&self) -> Limits {
        read_limits(&self.0.limits)
    }

    /// Apply `f` to the current limits: the result is what `f` gives on the
    /// limits held at the time of the call.
    pub fn with_limits<T, F: FnOnce(&Limits) -> T>(self, f: F) -> (r: T)
        requires
            forall|l: &Limits| call_requires(f, (l,)),
        ensures
            exists|l: &Limits| #[trigger] call_ensures(f, (l,), r),
    {
        let l = read_limits(&self.0.limits);
        let r = f(&l);
        assert(call_ensures(f, (&l,), r));
        r
    }
}

impl Default for SearchHandle {
    fn default() -> Self {
        Self::new(Limits::default())
    }
}

/// A move the engine was asked to play that is not legal in its position.
#[derive(Debug)]
pub struct IllegalMove(pub ChessMove);

/// What a chess engine offers to the front ends.
pub trait ChessEngine {
    /// The engine's internal consistency.
    spec fn wf(&self) -> bool;

    /// The position the engine searches.
    spec fn position(&self) -> Position;

    /// Search from `pos` from now on.
    fn set_position(&mut self, pos: Position)
        requires
            old(self).wf(),
        ensures
            final(self).wf(),
            final(self).position() == pos,
    ;

    /// Play `mv` in the engine's position, or refuse it (naming it) if it is
    /// not legal.
    fn play_move(&mut self, mv: ChessMove) -> (r: Result<(), IllegalMove>)
        requires
            old(self).wf(),
        ensures
            final(self).wf(),
            r is Ok == crate::rules::chess_legal_moves(old(self).position()).contains(mv),
            r is Ok ==> final(self).position() == crate::rules::chess_play(old(self).position(), mv),
            r is Err ==> final(self).position() == old(self).position(),
            r matches Err(e) ==> e.0 == mv,
    ;

    /// Search the engine's position, reporting each completed depth: the
    /// result's line is legal from it, its best move is the line's first, and
    /// a score comes with every result of depth 1 or more.
    fn search<F: FnMut(&SearchProgress)>(&mut self, on_progress: &mut F) -> (r: SearchResult)
        requires
            old(self).wf(),
            forall|g: F, p: &SearchProgress| call_requires(g, (p,)),
        ensures
            final(self).wf(),
            final(self).position() == old(self).position(),
            crate::search::is_line(old(self).position(), r.pv@),
            r.best_move == (if r.pv@.len() > 0 {
                Some(r.pv@[0])
            } else {
                None
            }),
            r.best_move matches Some(m) ==> crate::rules::chess_legal_moves(old(self).position()).contains(m),
            r.score is Some == (r.depth >= 1),
    ;

    /// Resize the transposition table.
    fn set_hash_size_mb(&mut self, mb: usize)
        requires
            old(self).wf(),
            mb * 1048576 <= usize::MAX,
        ensures
            final(self).wf(),
            final(self).position() == old(self).position(),
    ;

    /// Forget everything learned in earlier searches.
    fn clear(&mut self)
        requires
            old(self).wf(),
        ensures
            final(self).wf(),
            final(self).position() == old(self).position(),
    ;

    /// A handle to stop searches or change their limits from another thread.
    fn search_handle(&self) -> SearchHandle;
}

} // verus!
